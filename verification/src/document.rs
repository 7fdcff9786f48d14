//! Document loaders: which shell command extracts text from which kind of
//! file, and how a file path is made safe to splice into that command.
//!
//! The loader table maps a lowercase file extension to a command template in
//! which `$1` stands for the (shell-quoted) file path. It is kept as a list of
//! entries sorted by extension, so each extension occurs once and the
//! supported extensions come out in order.
use vstd::prelude::*;

use crate::strings::{
    compare_str, contains_char, lemma_lt_irreflexive, lemma_lt_transitive, replace_all,
    replace_str, seq_lt, str_equal, to_lowercase, lowercase, KeyOrder, is_ascii_text, ascii_lowercase,
};
use std::time::Duration;
use vstd::utf8::{decode_utf8, valid_utf8};
use crate::whitespace::{trim, trim_str};
use crate::text::{owned, push_char, push_signed, push_str, signed_decimal};

verus! {

broadcast use vstd::string::group_string_axioms;

/// Default timeout for document conversion commands, in seconds.
pub const DEFAULT_TIMEOUT_SECS: u64 = 30;

/// Entries sorted strictly by key.
pub open spec fn sorted_keys(s: Seq<(String, String)>) -> bool {
    forall|i: int, j: int| 0 <= i < j < s.len() ==> seq_lt(#[trigger] s[i].0@, #[trigger] s[j].0@)
}

/// Whether some entry has key `k`.
pub open spec fn has_key(s: Seq<(String, String)>, k: Seq<char>) -> bool {
    exists|i: int| 0 <= i < s.len() && #[trigger] s[i].0@ == k
}

/// An index of an entry with key `k`, if there is one.
pub open spec fn key_index(s: Seq<(String, String)>, k: Seq<char>) -> int {
    choose|i: int| 0 <= i < s.len() && #[trigger] s[i].0@ == k
}

/// The map from key to value that a list of entries stands for.
pub open spec fn entries_map(s: Seq<(String, String)>) -> Map<Seq<char>, Seq<char>> {
    Map::new(|k: Seq<char>| has_key(s, k), |k: Seq<char>| s[key_index(s, k)].1@)
}

/// In a sorted list, the entry at `i` is what the map holds for its key.
pub(crate) proof fn lemma_lookup(s: Seq<(String, String)>, i: int)
    requires
        sorted_keys(s),
        0 <= i < s.len(),
    ensures
        entries_map(s).dom().contains(s[i].0@),
        entries_map(s)[s[i].0@] == s[i].1@,
{
    let k = s[i].0@;
    assert(has_key(s, k));
    let j = key_index(s, k);
    if j < i {
        assert(seq_lt(s[j].0@, s[i].0@));
        lemma_lt_irreflexive(k);
    } else if j > i {
        assert(seq_lt(s[i].0@, s[j].0@));
        lemma_lt_irreflexive(k);
    }
    assert(j == i);
    assert(entries_map(s).dom().contains(k));
    assert(entries_map(s)[k] == s[j].1@);
}

/// Where a key is, or would go, in a sorted list.
pub(crate) fn find_key(v: &Vec<(String, String)>, key: &str) -> (r: (bool, usize))
    requires
        sorted_keys(v@),
    ensures
        r.1 <= v@.len(),
        r.0 ==> r.1 < v@.len() && v@[r.1 as int].0@ == key@,
        !r.0 ==> forall|j: int| 0 <= j < r.1 ==> seq_lt(#[trigger] v@[j].0@, key@),
        !r.0 ==> forall|j: int| r.1 <= j < v@.len() ==> seq_lt(key@, #[trigger] v@[j].0@),
        r.0 == has_key(v@, key@),
{
    let mut i: usize = 0;
    while i < v.len()
        invariant
            sorted_keys(v@),
            i <= v@.len(),
            forall|j: int| 0 <= j < i ==> seq_lt(#[trigger] v@[j].0@, key@),
        decreases v@.len() - i,
    {
        match compare_str(key, v[i].0.as_str()) {
            KeyOrder::Equal => {
                return (true, i);
            },
            KeyOrder::Less => {
                proof {
                    assert forall|j: int| i <= j < v@.len() implies seq_lt(key@, #[trigger] v@[j].0@) by {
                        if j > i {
                            lemma_lt_transitive(key@, v@[i as int].0@, v@[j].0@);
                        }
                    }
                    assert forall|j: int| 0 <= j < v@.len() implies #[trigger] v@[j].0@ != key@ by {
                        if j < i {
                            if v@[j].0@ == key@ {
                                lemma_lt_irreflexive(key@);
                            }
                        } else {
                            if v@[j].0@ == key@ {
                                lemma_lt_irreflexive(key@);
                            }
                        }
                    }
                }
                return (false, i);
            },
            KeyOrder::Greater => {},
        }
        i = i + 1;
    }
    proof {
        assert forall|j: int| 0 <= j < v@.len() implies #[trigger] v@[j].0@ != key@ by {
            if v@[j].0@ == key@ {
                lemma_lt_irreflexive(key@);
            }
        }
    }
    (false, i)
}

/// Sets the value of `key` in a sorted list, adding the entry if needed.
pub(crate) fn insert_entry(v: &mut Vec<(String, String)>, key: String, value: String)
    requires
        sorted_keys(old(v)@),
    ensures
        sorted_keys(final(v)@),
        entries_map(final(v)@) == entries_map(old(v)@).insert(key@, value@),
{
    let (found, pos) = find_key(v, key.as_str());
    let ghost s = v@;
    let ghost k = key@;
    let ghost val = value@;
    if found {
        v.set(pos, (key, value));
        proof {
            let t = v@;
            assert(sorted_keys(t)) by {
                assert forall|i: int, j: int| 0 <= i < j < t.len() implies seq_lt(
                    #[trigger] t[i].0@,
                    #[trigger] t[j].0@,
                ) by {
                    assert(seq_lt(s[i].0@, s[j].0@));
                }
            }
            assert forall|x: Seq<char>| #[trigger] entries_map(t).dom().contains(x) == entries_map(s).insert(k, val).dom().contains(x) by {
                if has_key(t, x) {
                    let j = choose|j: int| 0 <= j < t.len() && #[trigger] t[j].0@ == x;
                    assert(s[j].0@ == x);
                }
                if has_key(s, x) {
                    let j = choose|j: int| 0 <= j < s.len() && #[trigger] s[j].0@ == x;
                    assert(t[j].0@ == x);
                }
                if x == k {
                    assert(t[pos as int].0@ == x);
                }
            }
            assert forall|x: Seq<char>| #[trigger] entries_map(t).dom().contains(x) implies entries_map(t)[x] == entries_map(s).insert(k, val)[x] by {
                let j = choose|j: int| 0 <= j < t.len() && #[trigger] t[j].0@ == x;
                lemma_lookup(t, j);
                if j != pos {
                    lemma_lookup(s, j);
                    if j < pos {
                        assert(seq_lt(s[j].0@, s[pos as int].0@));
                    } else {
                        assert(seq_lt(s[pos as int].0@, s[j].0@));
                    }
                    if x == k {
                        lemma_lt_irreflexive(k);
                    }
                }
            }
            assert(entries_map(t) =~= entries_map(s).insert(k, val));
        }
    } else {
        v.insert(pos, (key, value));
        proof {
            let t = v@;
            assert(sorted_keys(t)) by {
                assert forall|i: int, j: int| 0 <= i < j < t.len() implies seq_lt(
                    #[trigger] t[i].0@,
                    #[trigger] t[j].0@,
                ) by {
                    if j < pos {
                        assert(seq_lt(s[i].0@, s[j].0@));
                    } else if j == pos {
                        assert(seq_lt(s[i].0@, k));
                    } else if i == pos {
                        assert(seq_lt(k, s[j - 1].0@));
                    } else if i < pos {
                        assert(seq_lt(s[i].0@, s[j - 1].0@));
                    } else {
                        assert(seq_lt(s[i - 1].0@, s[j - 1].0@));
                    }
                }
            }
            assert forall|x: Seq<char>| #[trigger] entries_map(t).dom().contains(x) == entries_map(s).insert(k, val).dom().contains(x) by {
                if has_key(t, x) {
                    let j = choose|j: int| 0 <= j < t.len() && #[trigger] t[j].0@ == x;
                    if j < pos {
                        assert(s[j].0@ == x);
                    } else if j > pos {
                        assert(s[j - 1].0@ == x);
                    }
                }
                if has_key(s, x) {
                    let j = choose|j: int| 0 <= j < s.len() && #[trigger] s[j].0@ == x;
                    if j < pos {
                        assert(t[j].0@ == x);
                    } else {
                        assert(t[j + 1].0@ == x);
                    }
                }
                if x == k {
                    assert(t[pos as int].0@ == x);
                }
            }
            assert forall|x: Seq<char>| #[trigger] entries_map(t).dom().contains(x) implies entries_map(t)[x] == entries_map(s).insert(k, val)[x] by {
                let j = choose|j: int| 0 <= j < t.len() && #[trigger] t[j].0@ == x;
                lemma_lookup(t, j);
                if j < pos {
                    lemma_lookup(s, j);
                    assert(seq_lt(x, k));
                    if x == k {
                        lemma_lt_irreflexive(k);
                    }
                } else if j > pos {
                    lemma_lookup(s, j - 1);
                    assert(seq_lt(k, x));
                    if x == k {
                        lemma_lt_irreflexive(k);
                    }
                }
            }
            assert(entries_map(t) =~= entries_map(s).insert(k, val));
        }
    }
}

/// Removes `key` from a sorted list, handing back its value if it was there.
pub(crate) fn remove_entry(v: &mut Vec<(String, String)>, key: &str) -> (r: Option<String>)
    requires
        sorted_keys(old(v)@),
    ensures
        sorted_keys(final(v)@),
        entries_map(final(v)@) == entries_map(old(v)@).remove(key@),
        match r {
            Some(val) => entries_map(old(v)@).dom().contains(key@) && val@ == entries_map(
                old(v)@,
            )[key@],
            None => !entries_map(old(v)@).dom().contains(key@),
        },
{
    let (found, pos) = find_key(v, key);
    let ghost s = v@;
    let ghost k = key@;
    if !found {
        proof {
            assert(entries_map(s).remove(k) =~= entries_map(s));
        }
        return None;
    }
    proof {
        lemma_lookup(s, pos as int);
    }
    let entry = v.remove(pos);
    proof {
        let t = v@;
        assert(sorted_keys(t)) by {
            assert forall|i: int, j: int| 0 <= i < j < t.len() implies seq_lt(
                #[trigger] t[i].0@,
                #[trigger] t[j].0@,
            ) by {
                if j < pos {
                    assert(seq_lt(s[i].0@, s[j].0@));
                } else if i < pos {
                    assert(seq_lt(s[i].0@, s[j + 1].0@));
                } else {
                    assert(seq_lt(s[i + 1].0@, s[j + 1].0@));
                }
            }
        }
        assert forall|x: Seq<char>| #[trigger] entries_map(t).dom().contains(x) == entries_map(s).remove(k).dom().contains(x) by {
            if has_key(t, x) {
                let j = choose|j: int| 0 <= j < t.len() && #[trigger] t[j].0@ == x;
                if j < pos {
                    assert(s[j].0@ == x);
                    assert(seq_lt(x, k));
                    if x == k {
                        lemma_lt_irreflexive(k);
                    }
                } else {
                    assert(s[j + 1].0@ == x);
                    assert(seq_lt(k, x));
                    if x == k {
                        lemma_lt_irreflexive(k);
                    }
                }
            }
            if has_key(s, x) && x != k {
                let j = choose|j: int| 0 <= j < s.len() && #[trigger] s[j].0@ == x;
                if j < pos {
                    assert(t[j].0@ == x);
                } else if j > pos {
                    assert(t[j - 1].0@ == x);
                }
            }
        }
        assert forall|x: Seq<char>| #[trigger] entries_map(t).dom().contains(x) implies entries_map(t)[x] == entries_map(s).remove(k)[x] by {
            let j = choose|j: int| 0 <= j < t.len() && #[trigger] t[j].0@ == x;
            lemma_lookup(t, j);
            if j < pos {
                lemma_lookup(s, j);
            } else {
                lemma_lookup(s, j + 1);
            }
        }
        assert(entries_map(t) =~= entries_map(s).remove(k));
    }
    Some(entry.1)
}

} // verus!

verus! {

/// The characters that make a path unsafe to splice into a shell command, in
/// the order in which they are looked for.
pub open spec fn dangerous_chars() -> Seq<char> {
    seq!['`', '$', '(', ')', ';', '|', '&', '<', '>', '\n', '\r']
}

/// The first character of `list` that occurs in `p`.
pub open spec fn first_contained(list: Seq<char>, p: Seq<char>) -> Option<char>
    decreases list.len(),
{
    if list.len() == 0 {
        None
    } else if p.contains(list[0]) {
        Some(list[0])
    } else {
        first_contained(list.drop_first(), p)
    }
}

/// A path in single quotes, each single quote inside it written as `'\''`.
pub open spec fn shell_quoted(p: Seq<char>) -> Seq<char> {
    seq!['\''] + replace_all(p, seq!['\''], seq!['\'', '\\', '\'', '\'']) + seq!['\'']
}

/// Why a document cannot be converted.
pub enum DocumentError {
    /// The file name has no extension.
    NoExtension { path: String },
    /// No loader is configured for the (lowercased) extension.
    NoLoader { ext: String },
    /// The path holds a character that could inject shell commands.
    DangerousCharacter { ch: char, path: String },
    /// The loader command did not exit successfully; the message says how.
    LoaderFailed { message: String },
    /// The loader command's output is not UTF-8 text.
    NonUtf8Output,
}

/// The human-readable text of a document error.
pub open spec fn document_error_text(e: DocumentError) -> Seq<char> {
    match e {
        DocumentError::NoExtension { path } => "File has no extension: "@ + path@,
        DocumentError::NoLoader { ext } => "No loader configured for ."@ + ext@ + " files"@,
        DocumentError::DangerousCharacter { ch, path } => "File path contains potentially dangerous character '"@
            + seq![ch] + "': "@ + path@,
        DocumentError::LoaderFailed { message } => message@,
        DocumentError::NonUtf8Output => "Document loader produced non-UTF8 output"@,
    }
}

impl DocumentError {
    /// The human-readable text of this error.
    pub fn message(&self) -> (s: String)
        ensures
            s@ == document_error_text(*self),
    {
        match self {
            DocumentError::NoExtension { path } => {
                let mut s = owned("File has no extension: ");
                push_str(&mut s, path.as_str());
                s
            },
            DocumentError::NoLoader { ext } => {
                let mut s = owned("No loader configured for .");
                push_str(&mut s, ext.as_str());
                push_str(&mut s, " files");
                s
            },
            DocumentError::DangerousCharacter { ch, path } => {
                let mut s = owned("File path contains potentially dangerous character '");
                push_char(&mut s, *ch);
                push_str(&mut s, "': ");
                push_str(&mut s, path.as_str());
                s
            },
            DocumentError::LoaderFailed { message } => owned(message.as_str()),
            DocumentError::NonUtf8Output => owned("Document loader produced non-UTF8 output"),
        }
    }
}

/// What `sanitize_path` answers for a path.
pub open spec fn sanitize_outcome(path: Seq<char>, r: Result<String, DocumentError>) -> bool {
    match first_contained(dangerous_chars(), path) {
        Some(c) => r matches Err(DocumentError::DangerousCharacter { ch, path: p }) && ch == c
            && p@ == path,
        None => r matches Ok(s) && s@ == shell_quoted(path),
    }
}

/// Sanitize a file path for use in shell commands: refuse paths with
/// characters that could inject commands, and single-quote the rest.
pub fn sanitize_path(path: &str) -> (r: Result<String, DocumentError>)
    ensures
        sanitize_outcome(path@, r),
{
    let dangerous = ['`', '$', '(', ')', ';', '|', '&', '<', '>', '\n', '\r'];
    assert(dangerous@ == dangerous_chars());
    let mut i: usize = 0;
    assert(dangerous_chars().skip(0) =~= dangerous_chars());
    while i < 11
        invariant
            dangerous@ == dangerous_chars(),
            i <= 11,
            first_contained(dangerous_chars(), path@) == first_contained(
                dangerous_chars().skip(i as int),
                path@,
            ),
        decreases 11 - i,
    {
        let ghost rest = dangerous_chars().skip(i as int);
        assert(rest.drop_first() =~= dangerous_chars().skip(i + 1));
        assert(rest[0] == dangerous@[i as int]);
        let c = dangerous[i];
        if contains_char(path, c) {
            return Err(DocumentError::DangerousCharacter { ch: c, path: owned(path) });
        }
        i = i + 1;
    }
    assert(dangerous_chars().skip(11) =~= Seq::<char>::empty());
    proof {
        reveal_strlit("'");
        reveal_strlit("'\\''");
    }
    let escaped = replace_str(path, "'", "'\\''");
    let mut s = owned("'");
    push_str(&mut s, escaped.as_str());
    push_char(&mut s, '\'');
    proof {
        assert("'"@ =~= seq!['\'']);
        assert("'\\''"@ =~= seq!['\'', '\\', '\'', '\'']);
        assert(s@ =~= shell_quoted(path@));
    }
    Ok(s)
}

/// The installation hint shown when the loader for an extension fails.
pub open spec fn install_hint(ext: Seq<char>) -> Seq<char> {
    if ext == "pdf"@ {
        "Hint: Install poppler-utils (apt: poppler-utils, brew: poppler, dnf: poppler-utils)"@
    } else if ext == "docx"@ || ext == "epub"@ || ext == "html"@ || ext == "htm"@ {
        "Hint: Install pandoc (apt: pandoc, brew: pandoc, dnf: pandoc)"@
    } else if ext == "xlsx"@ {
        "Hint: Install xlsx2csv (pip: xlsx2csv)"@
    } else if ext == "pptx"@ {
        "Hint: Install LibreOffice (apt: libreoffice, brew: libreoffice)"@
    } else {
        "Hint: Check the loader command in your config.toml"@
    }
}

/// Get installation hints for common document tools.
pub fn get_install_hint(ext: &str) -> (r: &'static str)
    ensures
        r@ == install_hint(ext@),
{
    if str_equal(ext, "pdf") {
        "Hint: Install poppler-utils (apt: poppler-utils, brew: poppler, dnf: poppler-utils)"
    } else if str_equal(ext, "docx") || str_equal(ext, "epub") || str_equal(ext, "html")
        || str_equal(ext, "htm") {
        "Hint: Install pandoc (apt: pandoc, brew: pandoc, dnf: pandoc)"
    } else if str_equal(ext, "xlsx") {
        "Hint: Install xlsx2csv (pip: xlsx2csv)"
    } else if str_equal(ext, "pptx") {
        "Hint: Install LibreOffice (apt: libreoffice, brew: libreoffice)"
    } else {
        "Hint: Check the loader command in your config.toml"
    }
}

/// The text of the error reported when a loader command fails.
pub open spec fn loader_failure_text(ext: Seq<char>, cmd: Seq<char>, exit_code: int, stderr: Seq<char>) -> Seq<char> {
    "Document loader failed for ."@ + ext + " file.\nCommand: "@ + cmd + "\nExit code: "@
        + signed_decimal(exit_code) + "\nError: "@ + stderr + "\n"@ + install_hint(ext)
}

/// The error text for a failed loader command, given the lowercased
/// extension, the command, its exit code and its trimmed standard error.
pub fn loader_failure_message(ext: &str, cmd: &str, exit_code: i32, stderr: &str) -> (s: String)
    ensures
        s@ == loader_failure_text(ext@, cmd@, exit_code as int, stderr@),
{
    let mut s = owned("Document loader failed for .");
    push_str(&mut s, ext);
    push_str(&mut s, " file.\nCommand: ");
    push_str(&mut s, cmd);
    push_str(&mut s, "\nExit code: ");
    push_signed(&mut s, exit_code as i64);
    push_str(&mut s, "\nError: ");
    push_str(&mut s, stderr);
    push_str(&mut s, "\n");
    push_str(&mut s, get_install_hint(ext));
    proof {
        assert(s@ =~= loader_failure_text(ext@, cmd@, exit_code as int, stderr@));
    }
    s
}

/// `String::from_utf8`: the text the bytes encode, exactly when they are
/// valid UTF-8 (the refusal is handed back as `None`).
#[verifier::external_body]
fn text_from_utf8(bytes: Vec<u8>) -> (r: Option<String>)
    ensures
        match r {
            Some(s) => valid_utf8(bytes@) && s@ == decode_utf8(bytes@),
            None => !valid_utf8(bytes@),
        },
{
    String::from_utf8(bytes).ok()
}

/// What a loader command's run gives: its output as text when it exited
/// successfully and wrote UTF-8; the failure message (with the lowercased
/// extension, the command, the exit code or -1 when there is none, and the
/// trimmed standard error) when it did not exit successfully; the non-UTF-8
/// error otherwise.
pub open spec fn loader_outcome(
    ext: Seq<char>,
    cmd: Seq<char>,
    success: bool,
    exit_code: Option<i32>,
    stdout: Seq<u8>,
    stderr: Seq<char>,
    r: Result<String, DocumentError>,
) -> bool {
    if !success {
        r matches Err(DocumentError::LoaderFailed { message }) && message@ == loader_failure_text(
            lowercase(ext),
            cmd,
            match exit_code {
                Some(c) => c as int,
                None => -1,
            },
            trim(stderr),
        )
    } else if valid_utf8(stdout) {
        r matches Ok(text) && text@ == decode_utf8(stdout)
    } else {
        r matches Err(DocumentError::NonUtf8Output)
    }
}

/// The result of extracting text once the loader command (built by
/// `extract_command` for the extension `ext`) has run: whether it exited
/// successfully, its exit code, its standard output, and its standard error
/// as text.
pub fn loader_result(
    ext: &str,
    cmd: &str,
    success: bool,
    exit_code: Option<i32>,
    stdout: Vec<u8>,
    stderr: &str,
) -> (r: Result<String, DocumentError>)
    ensures
        loader_outcome(ext@, cmd@, success, exit_code, stdout@, stderr@, r),
{
    if !success {
        let ext_lower = to_lowercase(ext);
        let code: i32 = match exit_code {
            Some(c) => c,
            None => -1,
        };
        let err = trim_str(stderr);
        let message = loader_failure_message(ext_lower.as_str(), cmd, code, err.as_str());
        return Err(DocumentError::LoaderFailed { message });
    }
    match text_from_utf8(stdout) {
        Some(text) => Ok(text),
        None => Err(DocumentError::NonUtf8Output),
    }
}

} // verus!

verus! {

/// The duration of `secs` whole seconds, as `Duration::from_secs` makes it.
pub uninterp spec fn seconds(secs: u64) -> Duration;

/// `Duration::from_secs`: the duration of the given number of whole seconds.
/// The result is named by `seconds` of the argument; `Duration`'s inside is
/// opaque to the proofs, so nothing more is stated of it.
#[verifier::external_body]
fn duration_from_secs(secs: u64) -> (d: Duration)
    ensures
        d == seconds(secs),
{
    Duration::from_secs(secs)
}

/// The loaders every table starts from.
pub open spec fn default_loader_map() -> Map<Seq<char>, Seq<char>> {
    Map::empty().insert("pdf"@, "pdftotext $1 -"@).insert("docx"@, "pandoc --to plain $1"@).insert(
        "epub"@,
        "pandoc --to plain $1"@,
    ).insert("html"@, "pandoc --to plain $1"@).insert("htm"@, "pandoc --to plain $1"@)
}

/// `m` overridden by each (extension, command) pair of `custom` in turn,
/// extensions lowercased; a later pair wins over an earlier one.
pub open spec fn with_overrides(
    m: Map<Seq<char>, Seq<char>>,
    custom: Seq<(String, String)>,
) -> Map<Seq<char>, Seq<char>>
    decreases custom.len(),
{
    if custom.len() == 0 {
        m
    } else {
        with_overrides(m, custom.drop_last()).insert(
            lowercase(custom.last().0@),
            custom.last().1@,
        )
    }
}

/// Default document loaders (shell commands), as a sorted entry list.
fn default_loaders() -> (v: Vec<(String, String)>)
    ensures
        sorted_keys(v@),
        entries_map(v@) == default_loader_map(),
{
    let mut v: Vec<(String, String)> = Vec::new();
    assert(entries_map(v@) =~= Map::<Seq<char>, Seq<char>>::empty());
    // PDF via poppler-utils
    insert_entry(&mut v, owned("pdf"), owned("pdftotext $1 -"));
    // DOCX/EPUB/HTML via pandoc
    insert_entry(&mut v, owned("docx"), owned("pandoc --to plain $1"));
    insert_entry(&mut v, owned("epub"), owned("pandoc --to plain $1"));
    insert_entry(&mut v, owned("html"), owned("pandoc --to plain $1"));
    insert_entry(&mut v, owned("htm"), owned("pandoc --to plain $1"));
    v
}

/// Document loaders configuration: extension (lowercase) to shell command
/// template, where `$1` in the template is replaced with the file path.
pub struct DocumentLoaders {
    loaders: Vec<(String, String)>,
    timeout: Duration,
}

impl View for DocumentLoaders {
    type V = Map<Seq<char>, Seq<char>>;

    closed spec fn view(&self) -> Map<Seq<char>, Seq<char>> {
        entries_map(self.loaders@)
    }
}

/// What `extract_command` answers: the error for a missing extension, a
/// missing loader or a dangerous path (checked in that order), or the loader's
/// template with each `$1` replaced by the quoted path.
pub open spec fn extraction_outcome(
    loaders: Map<Seq<char>, Seq<char>>,
    ext: Option<Seq<char>>,
    path: Seq<char>,
    r: Result<String, DocumentError>,
) -> bool {
    match ext {
        None => r matches Err(DocumentError::NoExtension { path: p }) && p@ == path,
        Some(e) => if !loaders.dom().contains(lowercase(e)) {
            r matches Err(DocumentError::NoLoader { ext: x }) && x@ == lowercase(e)
        } else {
            match first_contained(dangerous_chars(), path) {
                Some(c) => r matches Err(DocumentError::DangerousCharacter { ch, path: p }) && ch
                    == c && p@ == path,
                None => r matches Ok(cmd) && cmd@ == replace_all(
                    loaders[lowercase(e)],
                    "$1"@,
                    shell_quoted(path),
                ),
            }
        },
    }
}

impl Default for DocumentLoaders {
    /// The default loaders and the default timeout.
    fn default() -> (r: Self)
        ensures
            r@ == default_loader_map(),
            r.spec_timeout() == seconds(DEFAULT_TIMEOUT_SECS),
    {
        DocumentLoaders { loaders: default_loaders(), timeout: duration_from_secs(DEFAULT_TIMEOUT_SECS) }
    }
}

impl DocumentLoaders {
    #[verifier::type_invariant]
    spec fn inv(self) -> bool {
        sorted_keys(self.loaders@)
    }

    /// The timeout for conversion commands.
    pub closed spec fn spec_timeout(&self) -> Duration {
        self.timeout
    }

    /// Create a new DocumentLoaders with default loaders.
    pub fn new() -> (r: Self)
        ensures
            r@ == default_loader_map(),
            r.spec_timeout() == seconds(DEFAULT_TIMEOUT_SECS),
    {
        DocumentLoaders::default()
    }

    /// Create DocumentLoaders with custom loaders merged over the defaults.
    pub fn with_custom(custom: &Vec<(String, String)>) -> (r: Self)
        ensures
            r@ == with_overrides(default_loader_map(), custom@),
            r.spec_timeout() == seconds(DEFAULT_TIMEOUT_SECS),
    {
        let mut loaders = default_loaders();
        let mut i: usize = 0;
        while i < custom.len()
            invariant
                i <= custom@.len(),
                sorted_keys(loaders@),
                entries_map(loaders@) == with_overrides(default_loader_map(), custom@.take(i as int)),
            decreases custom@.len() - i,
        {
            proof {
                assert(custom@.take(i + 1).drop_last() =~= custom@.take(i as int));
            }
            let ext = to_lowercase(custom[i].0.as_str());
            let cmd = custom[i].1.clone();
            insert_entry(&mut loaders, ext, cmd);
            i = i + 1;
        }
        assert(custom@.take(i as int) =~= custom@);
        DocumentLoaders { loaders, timeout: duration_from_secs(DEFAULT_TIMEOUT_SECS) }
    }

    /// Set timeout for conversion commands.
    pub fn with_timeout(self, timeout: Duration) -> (r: Self)
        ensures
            r@ == self@,
            r.spec_timeout() == timeout,
    {
        proof {
            use_type_invariant(&self);
        }
        DocumentLoaders { timeout, ..self }
    }

    /// The timeout for conversion commands.
    pub fn timeout(&self) -> (d: Duration)
        ensures
            d == self.spec_timeout(),
    {
        self.timeout
    }

    /// Check if a loader exists for the given extension (case-insensitive).
    pub fn has_loader(&self, ext: &str) -> (r: bool)
        ensures
            r == self@.dom().contains(lowercase(ext@)),
            is_ascii_text(ext@) ==> r == self@.dom().contains(ascii_lowercase(ext@)),
    {
        proof {
            use_type_invariant(self);
        }
        let key = to_lowercase(ext);
        find_key(&self.loaders, key.as_str()).0
    }

    /// The command template stored under exactly this extension.
    pub fn get_loader(&self, ext: &str) -> (r: Option<&String>)
        ensures
            match r {
                Some(c) => self@.dom().contains(ext@) && c@ == self@[ext@],
                None => !self@.dom().contains(ext@),
            },
    {
        proof {
            use_type_invariant(self);
        }
        let (found, pos) = find_key(&self.loaders, ext);
        if found {
            proof {
                lemma_lookup(self.loaders@, pos as int);
            }
            Some(&self.loaders[pos].1)
        } else {
            None
        }
    }

    /// List of supported extensions, in ascending order.
    pub fn supported_extensions(&self) -> (r: Vec<&str>)
        ensures
            forall|i: int, j: int| 0 <= i < j < r@.len() ==> seq_lt(#[trigger] r@[i]@, #[trigger] r@[j]@),
            forall|k: Seq<char>| self@.dom().contains(k) <==> exists|i: int| 0 <= i < r@.len() && #[trigger] r@[i]@ == k,
    {
        proof {
            use_type_invariant(self);
        }
        let mut exts: Vec<&str> = Vec::new();
        let mut i: usize = 0;
        while i < self.loaders.len()
            invariant
                sorted_keys(self.loaders@),
                i <= self.loaders@.len(),
                exts@.len() == i,
                forall|j: int| 0 <= j < i ==> (#[trigger] exts@[j])@ == self.loaders@[j].0@,
            decreases self.loaders@.len() - i,
        {
            exts.push(self.loaders[i].0.as_str());
            i = i + 1;
        }
        proof {
            assert forall|a: int, b: int| 0 <= a < b < exts@.len() implies seq_lt(#[trigger] exts@[a]@, #[trigger] exts@[b]@) by {
                assert(seq_lt(self.loaders@[a].0@, self.loaders@[b].0@));
            }
            assert forall|k: Seq<char>| self@.dom().contains(k) <==> exists|a: int| 0 <= a < exts@.len() && #[trigger] exts@[a]@ == k by {
                if self@.dom().contains(k) {
                    let a = key_index(self.loaders@, k);
                    assert(exts@[a]@ == k);
                }
                if exists|a: int| 0 <= a < exts@.len() && #[trigger] exts@[a]@ == k {
                    let a = choose|a: int| 0 <= a < exts@.len() && #[trigger] exts@[a]@ == k;
                    assert(self.loaders@[a].0@ == k);
                }
            }
        }
        exts
    }

    /// Add or update a loader for a specific extension (stored lowercase).
    pub fn set_loader(&mut self, ext: &str, command: &str)
        ensures
            final(self)@ == old(self)@.insert(lowercase(ext@), command@),
            is_ascii_text(ext@) ==> final(self)@ == old(self)@.insert(ascii_lowercase(ext@), command@),
            final(self).spec_timeout() == old(self).spec_timeout(),
    {
        proof {
            use_type_invariant(&*self);
        }
        let key = to_lowercase(ext);
        let mut loaders: Vec<(String, String)> = Vec::new();
        std::mem::swap(&mut loaders, &mut self.loaders);
        insert_entry(&mut loaders, key, owned(command));
        self.loaders = loaders;
    }

    /// Remove the loader for a specific extension (case-insensitive),
    /// handing back its command.
    pub fn remove_loader(&mut self, ext: &str) -> (r: Option<String>)
        ensures
            final(self)@ == old(self)@.remove(lowercase(ext@)),
            is_ascii_text(ext@) ==> final(self)@ == old(self)@.remove(ascii_lowercase(ext@)),
            final(self).spec_timeout() == old(self).spec_timeout(),
            match r {
                Some(c) => old(self)@.dom().contains(lowercase(ext@)) && c@ == old(self)@[lowercase(ext@)],
                None => !old(self)@.dom().contains(lowercase(ext@)),
            },
    {
        proof {
            use_type_invariant(&*self);
        }
        let key = to_lowercase(ext);
        let mut loaders: Vec<(String, String)> = Vec::new();
        std::mem::swap(&mut loaders, &mut self.loaders);
        let r = remove_entry(&mut loaders, key.as_str());
        self.loaders = loaders;
        r
    }

    /// The shell command that extracts the text of the file at `path`, whose
    /// extension (if it has one) is `ext`.
    pub fn extract_command(&self, ext: Option<&str>, path: &str) -> (r: Result<String, DocumentError>)
        ensures
            extraction_outcome(self@, match ext {
                Some(e) => Some(e@),
                None => None,
            }, path@, r),
    {
        let e = match ext {
            Some(e) => e,
            None => {
                return Err(DocumentError::NoExtension { path: owned(path) });
            },
        };
        let ext_lower = to_lowercase(e);
        let template = match self.get_loader(ext_lower.as_str()) {
            Some(t) => t,
            None => {
                return Err(DocumentError::NoLoader { ext: ext_lower });
            },
        };
        let sanitized = match sanitize_path(path) {
            Ok(s) => s,
            Err(err) => {
                return Err(err);
            },
        };
        proof {
            reveal_strlit("$1");
        }
        Ok(replace_str(template.as_str(), "$1", sanitized.as_str()))
    }
}


/// The default loader table: PDF files go through `pdftotext`, and Word,
/// EPUB and HTML files through `pandoc`'s plain-text writer; no other
/// extension has a default loader.
pub proof fn law_default_table()
    ensures
        default_loader_map().dom() == set!["pdf"@, "docx"@, "epub"@, "html"@, "htm"@],
        default_loader_map()["pdf"@] == "pdftotext $1 -"@,
        default_loader_map()["docx"@] == "pandoc --to plain $1"@,
        default_loader_map()["epub"@] == "pandoc --to plain $1"@,
        default_loader_map()["html"@] == "pandoc --to plain $1"@,
        default_loader_map()["htm"@] == "pandoc --to plain $1"@,
{
    reveal_strlit("pdf");
    reveal_strlit("docx");
    reveal_strlit("epub");
    reveal_strlit("html");
    reveal_strlit("htm");
    assert("pdf"@.len() == 3 && "docx"@.len() == 4 && "epub"@.len() == 4 && "html"@.len() == 4);
    assert("pdf"@ != "docx"@ && "pdf"@ != "epub"@ && "pdf"@ != "html"@);
    assert("pdf"@[0] != "htm"@[0]);
    assert("pdf"@ != "htm"@);
    assert(default_loader_map().dom() =~= set!["pdf"@, "docx"@, "epub"@, "html"@, "htm"@]);
}

} // verus!

verus! {

/// Setting a loader makes it the one found for that extension; removing it
/// afterwards hands back the command that was set and leaves the table as
/// removing it from the original table would.
pub proof fn law_set_then_remove(m: Map<Seq<char>, Seq<char>>, ext: Seq<char>, cmd: Seq<char>)
    ensures
        m.insert(lowercase(ext), cmd).dom().contains(lowercase(ext)),
        m.insert(lowercase(ext), cmd)[lowercase(ext)] == cmd,
        m.insert(lowercase(ext), cmd).remove(lowercase(ext)) == m.remove(lowercase(ext)),
        !m.insert(lowercase(ext), cmd).remove(lowercase(ext)).dom().contains(lowercase(ext)),
{
    assert(m.insert(lowercase(ext), cmd).remove(lowercase(ext)) =~= m.remove(lowercase(ext)));
}

/// Custom loaders add to the defaults and override them: the last custom
/// entry for an extension wins, and a default extension that no custom entry
/// names keeps its default command.
pub proof fn law_custom_over_defaults(custom: Seq<(String, String)>, k: Seq<char>)
    ensures
        custom.len() > 0 ==> with_overrides(default_loader_map(), custom)[lowercase(custom.last().0@)]
            == custom.last().1@,
        (forall|i: int| 0 <= i < custom.len() ==> lowercase(#[trigger] custom[i].0@) != k)
            && default_loader_map().dom().contains(k) ==> with_overrides(default_loader_map(), custom).dom().contains(k)
            && with_overrides(default_loader_map(), custom)[k] == default_loader_map()[k],
    decreases custom.len(),
{
    if custom.len() > 0 {
        let rest = custom.drop_last();
        if forall|i: int| 0 <= i < custom.len() ==> lowercase(#[trigger] custom[i].0@) != k {
            assert forall|i: int| 0 <= i < rest.len() implies lowercase(#[trigger] rest[i].0@) != k by {
                assert(rest[i] == custom[i]);
            }
            assert(lowercase(custom[custom.len() - 1].0@) != k);
        }
        law_custom_over_defaults(rest, k);
    }
}

/// Every character of a replacement result comes from the input or from the
/// replacement text.
proof fn lemma_replace_chars(s: Seq<char>, pat: Seq<char>, with: Seq<char>, c: char)
    requires
        replace_all(s, pat, with).contains(c),
    ensures
        s.contains(c) || with.contains(c),
    decreases s.len(),
{
    let r = replace_all(s, pat, with);
    let i = choose|i: int| 0 <= i < r.len() && r[i] == c;
    if pat.len() == 0 || s.len() < pat.len() {
    } else if s.take(pat.len() as int) == pat {
        let rest = s.skip(pat.len() as int);
        if i >= with.len() {
            assert(replace_all(rest, pat, with)[i - with.len()] == c);
            lemma_replace_chars(rest, pat, with, c);
            let j = choose|j: int| 0 <= j < rest.len() && rest[j] == c;
            if rest.contains(c) {
                assert(s[j + pat.len()] == c);
            }
        } else {
            assert(with[i] == c);
        }
    } else {
        if i == 0 {
            assert(s[0] == c);
        } else {
            let rest = s.drop_first();
            assert(replace_all(rest, pat, with)[i - 1] == c);
            lemma_replace_chars(rest, pat, with, c);
            if rest.contains(c) {
                let j = choose|j: int| 0 <= j < rest.len() && rest[j] == c;
                assert(s[j + 1] == c);
            }
        }
    }
}

/// A path that passes sanitizing comes out quoted without any character that
/// could inject a shell command.
pub proof fn law_quoted_path_is_inert(p: Seq<char>, c: char)
    requires
        first_contained(dangerous_chars(), p) is None,
        dangerous_chars().contains(c),
    ensures
        !shell_quoted(p).contains(c),
{
    lemma_first_contained_none(dangerous_chars(), p, c);
    let with = seq!['\'', '\\', '\'', '\''];
    let body = replace_all(p, seq!['\''], with);
    let q = shell_quoted(p);
    if q.contains(c) {
        let i = choose|i: int| 0 <= i < q.len() && q[i] == c;
        if i == 0 || i == q.len() - 1 {
            assert(c == '\'');
        } else {
            assert(body[i - 1] == c);
            lemma_replace_chars(p, seq!['\''], with, c);
            if with.contains(c) {
                let j = choose|j: int| 0 <= j < with.len() && with[j] == c;
                assert(c == '\'' || c == '\\');
            }
        }
        let k = choose|k: int| 0 <= k < dangerous_chars().len() && dangerous_chars()[k] == c;
        assert(dangerous_chars()[k] != '\'' && dangerous_chars()[k] != '\\');
    }
}

proof fn lemma_first_contained_none(list: Seq<char>, p: Seq<char>, c: char)
    requires
        first_contained(list, p) is None,
        list.contains(c),
    ensures
        !p.contains(c),
    decreases list.len(),
{
    let k = choose|k: int| 0 <= k < list.len() && list[k] == c;
    if k > 0 {
        assert(list.drop_first()[k - 1] == c);
        lemma_first_contained_none(list.drop_first(), p, c);
    }
}

} // verus!
