//! What the chat pane shows: the lines of each message, with the style of
//! each piece of text, and which lines fit. Painting them is left to the
//! caller.
use vstd::prelude::*;

use crate::strings::{chars_of, str_equal};
use crate::text::{owned, push_char, push_str};
use crate::tui::{App, AppMessage, AppView, MessageView};
use crate::whitespace::{trim, trim_str};

verus! {

broadcast use vstd::string::group_string_axioms;

/// The colour of a role label.
#[derive(Clone, Copy, PartialEq, Eq, Structural, Debug)]
pub enum RoleColor {
    Cyan,
    Green,
    DarkGray,
    Reset,
}

/// How a piece of text is styled.
#[derive(Clone, Copy, PartialEq, Eq, Structural, Debug)]
pub enum SegmentStyle {
    /// Unstyled.
    Raw,
    /// The selection marker column; bold when the message is selected.
    Prefix { bold: bool },
    /// A role label in its colour, bold.
    Role(RoleColor),
    /// The expand/collapse hint (yellow).
    Hint,
    /// A tool call's title (magenta).
    ToolTitle,
    /// A field label (dark gray).
    Label,
}

/// A piece of a line.
pub struct Segment {
    pub text: String,
    pub style: SegmentStyle,
}

/// The colour of the label of a role.
pub open spec fn role_color(role: Seq<char>) -> RoleColor {
    if role == "You"@ {
        RoleColor::Cyan
    } else if role == "Assistant"@ {
        RoleColor::Green
    } else if role == "System"@ {
        RoleColor::DarkGray
    } else {
        RoleColor::Reset
    }
}

/// The pieces of `s` between newlines (what `str::split('\n')` yields),
/// `cur` being the piece read so far.
pub open spec fn split_from(s: Seq<char>, cur: Seq<char>) -> Seq<Seq<char>>
    decreases s.len(),
{
    if s.len() == 0 {
        seq![cur]
    } else if s[0] == '\n' {
        seq![cur] + split_from(s.drop_first(), Seq::empty())
    } else {
        split_from(s.drop_first(), cur.push(s[0]))
    }
}

/// The pieces of `s` between newlines.
pub open spec fn split_newlines(s: Seq<char>) -> Seq<Seq<char>> {
    split_from(s, Seq::empty())
}

/// A piece without its final carriage return.
pub open spec fn strip_cr(x: Seq<char>) -> Seq<char> {
    if x.len() > 0 && x.last() == '\r' {
        x.drop_last()
    } else {
        x
    }
}

/// The lines of `s` (what `str::lines` yields): the pieces between
/// newlines, a carriage return before a newline dropped, and no empty line
/// after a final newline.
pub open spec fn lines_of(s: Seq<char>) -> Seq<Seq<char>> {
    if s.len() == 0 {
        Seq::empty()
    } else {
        let p = split_newlines(s);
        let k = if s.last() == '\n' {
            p.len() - 1
        } else {
            p.len() as int
        };
        Seq::new(k as nat, |i: int| if i < p.len() - 1 { strip_cr(p[i]) } else { p[i] })
    }
}

/// The marker before a message: `> ` when selected.
pub open spec fn prefix_text(selected: bool) -> Seq<char> {
    if selected {
        "> "@
    } else {
        "  "@
    }
}

/// A styled piece of text.
pub open spec fn seg(t: Seq<char>, s: SegmentStyle) -> (Seq<char>, SegmentStyle) {
    (t, s)
}

/// The lines of a text message.
pub open spec fn text_lines(selected: bool, role: Seq<char>, content: Seq<char>) -> Seq<Seq<(Seq<char>, SegmentStyle)>> {
    let p = split_newlines(content);
    seq![
        seq![
            seg(prefix_text(selected), SegmentStyle::Prefix { bold: selected }),
            seg(role + ": "@, SegmentStyle::Role(role_color(role))),
            seg(p[0], SegmentStyle::Raw),
        ],
    ] + Seq::new(
        (p.len() - 1) as nat,
        |i: int|
            seq![
                seg("  "@, SegmentStyle::Prefix { bold: selected }),
                seg("  "@ + p[i + 1], SegmentStyle::Raw),
            ],
    )
}

/// The lines of a tool call message.
pub open spec fn tool_lines(
    selected: bool,
    name: Seq<char>,
    arguments: Seq<char>,
    output: Option<Seq<char>>,
    expanded: bool,
) -> Seq<Seq<(Seq<char>, SegmentStyle)>> {
    let status = if output is Some {
        "[Done]"@
    } else {
        "[Running...]"@
    };
    let hint = if expanded {
        "[-] "@
    } else {
        "[+] "@
    };
    seq![
        seq![
            seg(prefix_text(selected), SegmentStyle::Prefix { bold: selected }),
            seg(hint, SegmentStyle::Hint),
            seg("Tool: "@ + name + " "@ + status, SegmentStyle::ToolTitle),
        ],
    ] + if expanded {
        seq![
            seq![
                seg("    "@, SegmentStyle::Raw),
                seg("Input: "@, SegmentStyle::Label),
                seg(trim(arguments), SegmentStyle::Raw),
            ],
        ] + match output {
            Some(o) => seq![
                seq![seg("    "@, SegmentStyle::Raw), seg("Output: "@, SegmentStyle::Label)],
            ] + Seq::new(
                lines_of(trim(o)).len(),
                |i: int|
                    seq![seg("      "@, SegmentStyle::Raw), seg(lines_of(trim(o))[i], SegmentStyle::Raw)],
            ),
            None => Seq::empty(),
        }
    } else {
        Seq::empty()
    }
}

/// The lines of one message.
pub open spec fn message_lines(m: MessageView, selected: bool) -> Seq<Seq<(Seq<char>, SegmentStyle)>> {
    match m {
        MessageView::Text { role, content } => text_lines(selected, role, content),
        MessageView::ToolCall { name, arguments, output, is_expanded } => tool_lines(
            selected,
            name,
            arguments,
            output,
            is_expanded,
        ),
    }
}

/// The lines of the first `n` messages.
pub open spec fn rendered(a: AppView, n: int) -> Seq<Seq<(Seq<char>, SegmentStyle)>>
    decreases n,
{
    if n <= 0 {
        Seq::empty()
    } else {
        rendered(a, n - 1) + message_lines(a.messages[n - 1], a.selected_index == Some(n - 1))
    }
}

/// The plain content of a rendered line.
pub open spec fn line_view(l: Seq<Segment>) -> Seq<(Seq<char>, SegmentStyle)> {
    l.map_values(|s: Segment| (s.text@, s.style))
}

/// The plain content of rendered lines.
pub open spec fn lines_view(v: Seq<Vec<Segment>>) -> Seq<Seq<(Seq<char>, SegmentStyle)>> {
    v.map_values(|l: Vec<Segment>| line_view(l@))
}

fn segment(text: String, style: SegmentStyle) -> (s: Segment)
    ensures
        s.text@ == text@,
        s.style == style,
{
    Segment { text, style }
}

/// The pieces of a string between newlines.
pub fn split_lines_raw(s: &str) -> (r: Vec<String>)
    ensures
        r@.map_values(|x: String| x@) == split_newlines(s@),
{
    let v = chars_of(s);
    let mut out: Vec<String> = Vec::new();
    let mut cur = String::new();
    let mut i: usize = 0;
    assert(s@.skip(0) =~= s@);
    assert(out@.map_values(|x: String| x@) =~= Seq::<Seq<char>>::empty());
    while i < v.len()
        invariant
            v@ == s@,
            i <= v@.len(),
            out@.map_values(|x: String| x@) + split_from(s@.skip(i as int), cur@) == split_newlines(s@),
        decreases v@.len() - i,
    {
        let c = v[i];
        let ghost rest = s@.skip(i as int);
        assert(rest.drop_first() =~= s@.skip(i + 1));
        assert(rest[0] == c);
        if c == '\n' {
            let ghost before = out@.map_values(|x: String| x@);
            let mut piece = String::new();
            std::mem::swap(&mut piece, &mut cur);
            out.push(piece);
            assert(out@.map_values(|x: String| x@) =~= before.push(piece@));
            assert(cur@ =~= Seq::<char>::empty());
            assert(out@.map_values(|x: String| x@) + split_from(s@.skip(i + 1), cur@) =~= before + (
            seq![piece@] + split_from(s@.skip(i + 1), Seq::empty())));
        } else {
            push_char(&mut cur, c);
        }
        i = i + 1;
    }
    let ghost before = out@.map_values(|x: String| x@);
    assert(s@.skip(i as int) =~= Seq::<char>::empty());
    out.push(cur);
    assert(out@.map_values(|x: String| x@) =~= before.push(cur@));
    out
}

proof fn lemma_split_nonempty(s: Seq<char>, cur: Seq<char>)
    ensures
        split_from(s, cur).len() >= 1,
    decreases s.len(),
{
    if s.len() > 0 {
        if s[0] == '\n' {
            lemma_split_nonempty(s.drop_first(), Seq::empty());
        } else {
            lemma_split_nonempty(s.drop_first(), cur.push(s[0]));
        }
    }
}

proof fn lemma_split_last_newline(s: Seq<char>, cur: Seq<char>)
    requires
        s.len() > 0,
        s.last() == '\n',
    ensures
        split_from(s, cur).last() == Seq::<char>::empty(),
    decreases s.len(),
{
    if s.len() == 1 {
        assert(s.drop_first() =~= Seq::<char>::empty());
    } else {
        assert(s.drop_first().last() == s.last());
        if s[0] == '\n' {
            lemma_split_last_newline(s.drop_first(), Seq::empty());
            lemma_split_nonempty(s.drop_first(), Seq::empty());
        } else {
            lemma_split_last_newline(s.drop_first(), cur.push(s[0]));
        }
    }
}

fn strip_cr_exec(x: String) -> (r: String)
    ensures
        r@ == strip_cr(x@),
{
    let v = chars_of(x.as_str());
    if v.len() > 0 && v[v.len() - 1] == '\r' {
        let mut r = String::new();
        let mut i: usize = 0;
        while i < v.len() - 1
            invariant
                v@ == x@,
                v@.len() > 0,
                i <= v@.len() - 1,
                r@ == x@.take(i as int),
            decreases v@.len() - i,
        {
            push_char(&mut r, v[i]);
            i = i + 1;
            assert(r@ =~= x@.take(i as int));
        }
        assert(x@.take(i as int) =~= x@.drop_last());
        r
    } else {
        x
    }
}

/// The lines of a string (`str::lines`).
pub fn lines_exec(s: &str) -> (r: Vec<String>)
    ensures
        r@.map_values(|x: String| x@) == lines_of(s@),
{
    if s.is_empty() {
        let r: Vec<String> = Vec::new();
        assert(r@.map_values(|x: String| x@) =~= lines_of(s@));
        return r;
    }
    let v = chars_of(s);
    let ends_nl = v[v.len() - 1] == '\n';
    let mut pieces = split_lines_raw(s);
    proof {
        lemma_split_nonempty(s@, Seq::empty());
    }
    let ghost p = split_newlines(s@);
    let total = pieces.len();
    if ends_nl {
        proof {
            lemma_split_last_newline(s@, Seq::empty());
        }
        pieces.pop();
    }
    let k = pieces.len();
    let mut out: Vec<String> = Vec::new();
    let mut i: usize = 0;
    assert forall|j: int| 0 <= j < pieces@.len() implies #[trigger] pieces@[j]@ == p[j] by {
        assert(pieces@.map_values(|x: String| x@)[j] == pieces@[j]@);
    }
    while pieces.len() > 0
        invariant
            s@.len() > 0,
            p == split_newlines(s@),
            p.len() == total,
            k == if s@.last() == '\n' { p.len() - 1 } else { p.len() as int },
            i + pieces@.len() == k,
            forall|j: int| 0 <= j < pieces@.len() ==> #[trigger] pieces@[j]@ == p[i + j],
            out@.len() == i,
            forall|j: int| 0 <= j < i ==> #[trigger] out@[j]@ == (if j < p.len() - 1 { strip_cr(p[j]) } else { p[j] }),
        decreases pieces@.len(),
    {
        let ghost before = pieces@;
        let x = pieces.remove(0);
        assert(x@ == p[i as int]);
        assert forall|j: int| 0 <= j < pieces@.len() implies #[trigger] pieces@[j]@ == p[i + 1 + j] by {
            assert(pieces@[j] == before[j + 1]);
        }
        if i + 1 < total {
            out.push(strip_cr_exec(x));
        } else {
            out.push(x);
        }
        i = i + 1;
    }
    assert(out@.map_values(|x: String| x@) =~= lines_of(s@));
    out
}

fn role_color_exec(role: &str) -> (c: RoleColor)
    ensures
        c == role_color(role@),
{
    if str_equal(role, "You") {
        RoleColor::Cyan
    } else if str_equal(role, "Assistant") {
        RoleColor::Green
    } else if str_equal(role, "System") {
        RoleColor::DarkGray
    } else {
        RoleColor::Reset
    }
}

fn prefix_exec(selected: bool) -> (s: String)
    ensures
        s@ == prefix_text(selected),
{
    if selected {
        owned("> ")
    } else {
        owned("  ")
    }
}

fn push_line(out: &mut Vec<Vec<Segment>>, line: Vec<Segment>)
    ensures
        lines_view(final(out)@) == lines_view(old(out)@).push(line_view(line@)),
{
    out.push(line);
    assert(lines_view(out@) =~= lines_view(old(out)@).push(line_view(line@)));
}

fn line2(a: Segment, b: Segment) -> (l: Vec<Segment>)
    ensures
        line_view(l@) == seq![(a.text@, a.style), (b.text@, b.style)],
{
    let mut l: Vec<Segment> = Vec::new();
    let ghost va = (a.text@, a.style);
    let ghost vb = (b.text@, b.style);
    l.push(a);
    l.push(b);
    assert(line_view(l@) =~= seq![va, vb]);
    l
}

fn line3(a: Segment, b: Segment, c: Segment) -> (l: Vec<Segment>)
    ensures
        line_view(l@) == seq![(a.text@, a.style), (b.text@, b.style), (c.text@, c.style)],
{
    let mut l: Vec<Segment> = Vec::new();
    let ghost va = (a.text@, a.style);
    let ghost vb = (b.text@, b.style);
    let ghost vc = (c.text@, c.style);
    l.push(a);
    l.push(b);
    l.push(c);
    assert(line_view(l@) =~= seq![va, vb, vc]);
    l
}

fn push_text_lines(out: &mut Vec<Vec<Segment>>, selected: bool, role: &str, content: &str)
    ensures
        lines_view(final(out)@) == lines_view(old(out)@) + text_lines(selected, role@, content@),
{
    let pieces = split_lines_raw(content);
    proof {
        lemma_split_nonempty(content@, Seq::empty());
    }
    let ghost p = split_newlines(content@);
    assert(pieces@[0]@ == p[0]);
    let ghost start = lines_view(out@);
    let mut label = owned(role);
    push_str(&mut label, ": ");
    let first = line3(
        segment(prefix_exec(selected), SegmentStyle::Prefix { bold: selected }),
        segment(label, SegmentStyle::Role(role_color_exec(role))),
        segment(pieces[0].clone(), SegmentStyle::Raw),
    );
    push_line(out, first);
    let ghost rest = Seq::new(
        (p.len() - 1) as nat,
        |i: int|
            seq![
                seg("  "@, SegmentStyle::Prefix { bold: selected }),
                seg("  "@ + p[i + 1], SegmentStyle::Raw),
            ],
    );
    let mut i: usize = 1;
    while i < pieces.len()
        invariant
            1 <= i <= pieces@.len(),
            pieces@.map_values(|x: String| x@) == p,
            lines_view(out@) == start + text_lines(selected, role@, content@).take(i as int),
            text_lines(selected, role@, content@) == seq![text_lines(selected, role@, content@)[0]] + rest,
            rest == Seq::new(
                (p.len() - 1) as nat,
                |i: int|
                    seq![
                        seg("  "@, SegmentStyle::Prefix { bold: selected }),
                        seg("  "@ + p[i + 1], SegmentStyle::Raw),
                    ],
            ),
        decreases pieces@.len() - i,
    {
        let mut body = owned("  ");
        push_str(&mut body, pieces[i].as_str());
        assert(pieces@[i as int]@ == p[i as int]);
        let l = line2(
            segment(owned("  "), SegmentStyle::Prefix { bold: selected }),
            segment(body, SegmentStyle::Raw),
        );
        push_line(out, l);
        assert(text_lines(selected, role@, content@).take(i + 1) =~= text_lines(selected, role@, content@).take(i as int).push(rest[i - 1]));
        i = i + 1;
    }
    assert(text_lines(selected, role@, content@).take(i as int) =~= text_lines(selected, role@, content@));
}

fn push_tool_lines(
    out: &mut Vec<Vec<Segment>>,
    selected: bool,
    name: &str,
    arguments: &str,
    output: &Option<String>,
    expanded: bool,
)
    ensures
        lines_view(final(out)@) == lines_view(old(out)@) + tool_lines(
            selected,
            name@,
            arguments@,
            crate::tui::opt_view(*output),
            expanded,
        ),
{
    let ghost start = lines_view(out@);
    let ghost all = tool_lines(selected, name@, arguments@, crate::tui::opt_view(*output), expanded);
    let mut title = owned("Tool: ");
    push_str(&mut title, name);
    push_str(&mut title, " ");
    match output {
        Some(_) => push_str(&mut title, "[Done]"),
        None => push_str(&mut title, "[Running...]"),
    }
    let hint = if expanded {
        owned("[-] ")
    } else {
        owned("[+] ")
    };
    let first = line3(
        segment(prefix_exec(selected), SegmentStyle::Prefix { bold: selected }),
        segment(hint, SegmentStyle::Hint),
        segment(title, SegmentStyle::ToolTitle),
    );
    push_line(out, first);
    if !expanded {
        assert(lines_view(out@) =~= start + all);
        return;
    }
    let input = line3(
        segment(owned("    "), SegmentStyle::Raw),
        segment(owned("Input: "), SegmentStyle::Label),
        segment(trim_str(arguments), SegmentStyle::Raw),
    );
    push_line(out, input);
    match output {
        None => {
            assert(lines_view(out@) =~= start + all);
        },
        Some(o) => {
            let head = line2(
                segment(owned("    "), SegmentStyle::Raw),
                segment(owned("Output: "), SegmentStyle::Label),
            );
            push_line(out, head);
            let trimmed = trim_str(o.as_str());
            let ls = lines_exec(trimmed.as_str());
            let ghost lv = lines_of(trim(o@));
            let ghost base = lines_view(out@);
            assert(base =~= start + all.take(3));
            let mut i: usize = 0;
            while i < ls.len()
                invariant
                    ls@.map_values(|x: String| x@) == lv,
                    lv == lines_of(trim(o@)),
                    i <= ls@.len(),
                    all.len() == 3 + lv.len(),
                    forall|j: int| 0 <= j < lv.len() ==> #[trigger] all[3 + j] == seq![seg("      "@, SegmentStyle::Raw), seg(lv[j], SegmentStyle::Raw)],
                    lines_view(out@) == start + all.take(3 + i),
                decreases ls@.len() - i,
            {
                assert(ls@[i as int]@ == lv[i as int]);
                let l = line2(segment(owned("      "), SegmentStyle::Raw), segment(ls[i].clone(), SegmentStyle::Raw));
                push_line(out, l);
                assert(all.take(3 + i + 1) =~= all.take(3 + i).push(all[3 + i as int]));
                i = i + 1;
            }
            assert(all.take(3 + i) =~= all);
        },
    }
}

/// The lines of the chat pane for the whole conversation.
pub fn render_lines(app: &App) -> (r: Vec<Vec<Segment>>)
    ensures
        lines_view(r@) == rendered(app@, app@.messages.len() as int),
{
    let mut out: Vec<Vec<Segment>> = Vec::new();
    assert(lines_view(out@) =~= rendered(app@, 0));
    let mut i: usize = 0;
    while i < app.messages.len()
        invariant
            i <= app@.messages.len(),
            lines_view(out@) == rendered(app@, i as int),
        decreases app@.messages.len() - i,
    {
        let selected = match app.selected_index {
            Some(s) => s == i,
            None => false,
        };
        assert(app@.messages[i as int] == app.messages@[i as int]@);
        match &app.messages[i] {
            AppMessage::Text { role, content } => {
                push_text_lines(&mut out, selected, role.as_str(), content.as_str());
            },
            AppMessage::ToolCall { name, arguments, output, is_expanded } => {
                push_tool_lines(&mut out, selected, name.as_str(), arguments.as_str(), output, *is_expanded);
            },
        }
        i = i + 1;
    }
    out
}

/// How many of `total` lines are scrolled off so that the last ones fit in
/// a pane `height` rows tall (two rows are its border).
pub fn hidden_lines(total: usize, height: u16) -> (n: usize)
    ensures
        n == if total > (if height >= 2 { height - 2 } else { 0 }) {
            total - (if height >= 2 { height - 2 } else { 0 })
        } else {
            0
        },
{
    let max_lines = height.saturating_sub(2) as usize;
    total.saturating_sub(max_lines)
}

/// The title of the chat pane.
pub fn chat_title(is_generating: bool) -> (t: &'static str)
    ensures
        t@ == if is_generating {
            " Chat (Generating...) "@
        } else {
            " Chat "@
        },
{
    if is_generating {
        " Chat (Generating...) "
    } else {
        " Chat "
    }
}

} // verus!
