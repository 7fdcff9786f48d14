//! Memory search snippets: a piece of a search result around the first
//! case-insensitive match of the query.
//!
//! Positions are byte offsets into the UTF-8 encoding: the match is found in
//! the lowercased text, and its offset is then used to cut the text as given.
//! `snippet` checks that the cut falls on character boundaries and then calls
//! `extract_snippet`, which requires it.
use vstd::prelude::*;
use vstd::string::StringSliceAdditionalSpecFns;
use vstd::utf8::*;

use crate::strings::{lowercase, replace_all, replace_str, to_lowercase};
use crate::text::{owned, push_str};
use crate::whitespace::{trim, trim_str};

verus! {

broadcast use {vstd::string::group_string_axioms, vstd::utf8::group_utf8_lib};

/// How many bytes of context are kept on each side of a match.
pub const CONTEXT_BYTES: usize = 30;

/// The first position, from `i` on, at which `needle` occurs in `hay`.
pub open spec fn find_from(hay: Seq<u8>, needle: Seq<u8>, i: int) -> Option<int>
    decreases hay.len() + 1 - i,
{
    if i < 0 || i + needle.len() > hay.len() {
        None
    } else if hay.subrange(i, i + needle.len()) == needle {
        Some(i)
    } else {
        find_from(hay, needle, i + 1)
    }
}

/// Where the lowercased query first occurs in the lowercased content, as a
/// byte offset (what `str::find` answers).
pub open spec fn match_pos(content: Seq<char>, query: Seq<char>) -> Option<int> {
    find_from(encode_utf8(lowercase(content)), encode_utf8(lowercase(query)), 0)
}

/// The byte range cut out around a match at `pos`: 30 bytes before it (or
/// from the start) to 30 bytes after the query's length (or to the end).
pub open spec fn window(content: Seq<char>, query: Seq<char>, pos: int) -> (int, int) {
    let start = if pos >= 30 { pos - 30 } else { 0 };
    let wanted_end = pos + encode_utf8(query).len() + 30;
    let end = if wanted_end < encode_utf8(content).len() {
        wanted_end
    } else {
        encode_utf8(content).len() as int
    };
    (start, end)
}

/// Whether the content can be cut as the snippet requires: the window (or
/// the truncation point) must fall on character boundaries, and the
/// window's end must be computable.
pub open spec fn snippet_cuttable(content: Seq<char>, query: Seq<char>, max_len: nat) -> bool {
    let bytes = encode_utf8(content);
    match match_pos(content, query) {
        Some(pos) => {
            let w = window(content, query, pos);
            &&& pos + encode_utf8(query).len() + 30 <= usize::MAX
            &&& w.0 <= w.1
            &&& is_char_boundary(bytes, w.0)
            &&& is_char_boundary(bytes, w.1)
        },
        None => bytes.len() > max_len ==> is_char_boundary(bytes, max_len as int),
    }
}

/// The snippet: the trimmed window around the match, with `...` where it
/// was cut; without a match, the first `max_len` bytes (and `...` when cut),
/// newlines turned into spaces.
pub open spec fn snippet_text(content: Seq<char>, query: Seq<char>, max_len: nat) -> Seq<char> {
    let bytes = encode_utf8(content);
    match match_pos(content, query) {
        Some(pos) => {
            let w = window(content, query, pos);
            (if w.0 > 0 {
                "..."@
            } else {
                Seq::empty()
            }) + trim(decode_utf8(bytes.subrange(w.0, w.1))) + (if w.1 < bytes.len() {
                "..."@
            } else {
                Seq::empty()
            })
        },
        None => replace_all(
            if bytes.len() > max_len {
                decode_utf8(bytes.subrange(0, max_len as int)) + "..."@
            } else {
                content
            },
            "\n"@,
            " "@,
        ),
    }
}

/// The first position at which the lowercased query occurs in the
/// lowercased content.
fn locate(content: &str, query: &str) -> (r: Option<usize>)
    ensures
        match r {
            Some(p) => match_pos(content@, query@) == Some(p as int),
            None => match_pos(content@, query@) is None,
        },
{
    let lc = to_lowercase(content);
    let lq = to_lowercase(query);
    let hay = lc.as_str().as_bytes();
    let needle = lq.as_str().as_bytes();
    let ghost h = encode_utf8(lowercase(content@));
    let ghost n = encode_utf8(lowercase(query@));
    assert(hay@ == h);
    assert(needle@ == n);
    if needle.len() > hay.len() {
        assert(find_from(h, n, 0) is None);
        return None;
    }
    let last = hay.len() - needle.len();
    let mut i: usize = 0;
    assert(hay@.len() == hay.len());
    while i <= last
        invariant
            h == encode_utf8(lowercase(content@)),
            n == encode_utf8(lowercase(query@)),
            hay@ == h,
            h.len() <= usize::MAX,
            needle@ == n,
            last == h.len() - n.len(),
            n.len() <= h.len(),
            find_from(h, n, 0) == find_from(h, n, i as int),
        decreases last + 1 - i,
    {
        let mut j: usize = 0;
        let mut same = true;
        while j < needle.len()
            invariant
                hay@ == h,
                h.len() <= usize::MAX,
                needle@ == n,
                i <= last,
                last == h.len() - n.len(),
                j <= n.len(),
                same == (forall|k: int| 0 <= k < j ==> h[i + k] == n[k]),
            decreases n.len() - j,
        {
            if hay[i + j] != needle[j] {
                same = false;
            }
            j = j + 1;
        }
        if same {
            assert(h.subrange(i as int, i + n.len()) =~= n);
            return Some(i);
        } else {
            proof {
                let k = choose|k: int| 0 <= k < n.len() && h[i + k] != n[k];
                assert(h.subrange(i as int, i + n.len())[k] != n[k]);
            }
        }
        if i == last {
            assert(find_from(h, n, i + 1) is None);
            return None;
        }
        i = i + 1;
    }
    None
}

proof fn lemma_prefix_boundary(b: Seq<u8>, end: int, start: int)
    requires
        valid_utf8(b),
        0 <= start <= end <= b.len(),
        is_char_boundary(b, end),
        is_char_boundary(b, start),
    ensures
        valid_utf8(b.subrange(0, end)),
        is_char_boundary(b.subrange(0, end), start),
{
    valid_utf8_split(b, end);
    let p = b.subrange(0, end);
    is_char_boundary_start_end_of_seq(p);
    if 0 < start < end {
        is_char_boundary_iff_not_is_continuation_byte(b, start);
        is_char_boundary_iff_not_is_continuation_byte(p, start);
        assert(p[start] == b[start]);
    }
}

/// Extract a snippet from content around a query match.
pub fn extract_snippet(content: &str, query: &str, max_len: usize) -> (r: String)
    requires
        snippet_cuttable(content@, query@, max_len as nat),
    ensures
        r@ == snippet_text(content@, query@, max_len as nat),
{
    let ghost bytes = encode_utf8(content@);
    assert(content.spec_bytes() == bytes);
    let clen = content.as_bytes().len();
    assert(clen == bytes.len());
    let qlen = query.as_bytes().len();
    assert(qlen == encode_utf8(query@).len());
    match locate(content, query) {
        Some(pos) => {
            let start = if pos >= CONTEXT_BYTES {
                pos - CONTEXT_BYTES
            } else {
                0
            };
            let wanted_end = pos + qlen + CONTEXT_BYTES;
            let end = if wanted_end < clen {
                wanted_end
            } else {
                clen
            };
            proof {
                lemma_prefix_boundary(bytes, end as int, start as int);
            }
            let (head, _) = content.split_at(end);
            assert(head.spec_bytes() =~= bytes.subrange(0, end as int));
            let (_, piece) = head.split_at(start);
            assert(piece.spec_bytes() =~= bytes.subrange(start as int, end as int));
            assert(piece@ == decode_utf8(bytes.subrange(start as int, end as int))) by {
                encode_utf8_decode_utf8(piece@);
            }
            let mut r = if start > 0 {
                owned("...")
            } else {
                String::new()
            };
            let trimmed = trim_str(piece);
            push_str(&mut r, trimmed.as_str());
            if end < clen {
                push_str(&mut r, "...");
            }
            proof {
                assert(r@ =~= snippet_text(content@, query@, max_len as nat));
            }
            r
        },
        None => {
            let truncated = if clen > max_len {
                let (head, _) = content.split_at(max_len);
                assert(head.spec_bytes() =~= bytes.subrange(0, max_len as int));
                assert(head@ == decode_utf8(bytes.subrange(0, max_len as int))) by {
                    encode_utf8_decode_utf8(head@);
                }
                let mut t = owned(head);
                push_str(&mut t, "...");
                t
            } else {
                owned(content)
            };
            proof {
                reveal_strlit("\n");
            }
            replace_str(truncated.as_str(), "\n", " ")
        },
    }
}

/// The snippet, or `None` where the content cannot be cut at the window
/// (or truncation point) because it falls inside a character.
pub fn snippet(content: &str, query: &str, max_len: usize) -> (r: Option<String>)
    ensures
        match r {
            Some(s) => snippet_cuttable(content@, query@, max_len as nat) && s@ == snippet_text(
                content@,
                query@,
                max_len as nat,
            ),
            None => !snippet_cuttable(content@, query@, max_len as nat),
        },
{
    let ghost bytes = encode_utf8(content@);
    assert(content.spec_bytes() == bytes);
    let clen = content.as_bytes().len();
    assert(clen == bytes.len());
    let qlen = query.as_bytes().len();
    assert(qlen == encode_utf8(query@).len());
    let ok = match locate(content, query) {
        Some(pos) => {
            if pos > usize::MAX - CONTEXT_BYTES || qlen > usize::MAX - CONTEXT_BYTES - pos {
                false
            } else {
                let start = if pos >= CONTEXT_BYTES {
                    pos - CONTEXT_BYTES
                } else {
                    0
                };
                let wanted_end = pos + qlen + CONTEXT_BYTES;
                let end = if wanted_end < clen {
                    wanted_end
                } else {
                    clen
                };
                start <= end && content.is_char_boundary(start) && content.is_char_boundary(end)
            }
        },
        None => clen <= max_len || content.is_char_boundary(max_len),
    };
    if ok {
        Some(extract_snippet(content, query, max_len))
    } else {
        None
    }
}


/// Around a match, the snippet is the trimmed text of the window, preceded
/// by `...` exactly when the window starts after the content's first byte,
/// and followed by `...` exactly when it ends before the content's last
/// byte: where the window reaches an end of the content, the snippet begins
/// (or ends) with the window's text itself.
pub proof fn law_snippet_marks_cuts(content: Seq<char>, query: Seq<char>, max_len: nat, pos: int)
    requires
        match_pos(content, query) == Some(pos),
    ensures
        ({
            let bytes = encode_utf8(content);
            let w = window(content, query, pos);
            let mid = trim(decode_utf8(bytes.subrange(w.0, w.1)));
            let s = snippet_text(content, query, max_len);
            &&& s.len() == mid.len() + (if w.0 > 0 { 3int } else { 0int }) + (if w.1 < bytes.len() { 3int } else { 0int })
            &&& w.0 > 0 ==> s.take(3) == "..."@ && s.subrange(3, 3 + mid.len() as int) == mid
            &&& w.0 <= 0 ==> s.take(mid.len() as int) == mid
            &&& w.1 < bytes.len() ==> s.skip(s.len() - 3) == "..."@
            &&& w.1 >= bytes.len() ==> s.skip(s.len() - mid.len()) == mid
        }),
{
    reveal_strlit("...");
    let bytes = encode_utf8(content);
    let w = window(content, query, pos);
    let mid = trim(decode_utf8(bytes.subrange(w.0, w.1)));
    let s = snippet_text(content, query, max_len);
    let pre: Seq<char> = if w.0 > 0 { "..."@ } else { Seq::empty() };
    let post: Seq<char> = if w.1 < bytes.len() { "..."@ } else { Seq::empty() };
    assert(s == pre + mid + post);
    assert("..."@.len() == 3);
    if w.0 > 0 {
        assert(s.take(3) =~= "..."@);
        assert(s.subrange(3, 3 + mid.len() as int) =~= mid);
    } else {
        assert(s.take(mid.len() as int) =~= mid);
    }
    if w.1 < bytes.len() {
        assert(s.skip(s.len() - 3) =~= "..."@);
    } else {
        assert(s.skip(s.len() - mid.len()) =~= mid);
    }
}

} // verus!
