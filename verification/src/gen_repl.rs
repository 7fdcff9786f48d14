//! The interactive Gen prompt: which slash command a line is, and what a
//! line asks the loop to do.
use vstd::prelude::*;
use vstd::string::StrSliceExecFns;

use crate::strings::str_equal;
use crate::text::{joined, owned, push_str};
use crate::whitespace::{split_words, trim, trim_str, views, words};

verus! {

broadcast use vstd::string::group_string_axioms;

/// A slash command of the Gen prompt, with its arguments.
pub enum GenCommand {
    /// `/quit`, `/exit`, `/q`
    Quit,
    /// `/help`, `/h`, `/?`
    Help,
    /// `/model` without a name: show the current model.
    ShowModel,
    /// `/model <name>`
    SetModel(String),
    /// `/models`
    Models,
    /// `/status`
    Status,
    /// `/context`
    Context,
    /// `/new`
    New,
    /// `/clear`
    Clear,
    /// `/compact`
    Compact,
    /// `/save`
    Save,
    /// `/memory` without a query: print its usage.
    MemoryUsage,
    /// `/memory <query>`
    Memory(String),
    /// `/reindex`
    Reindex,
    /// `/export` without a path: print the session.
    ExportShow,
    /// `/export <path>`
    ExportTo(String),
    /// `/sessions`
    Sessions,
    /// `/resume` without an ID: print its usage.
    ResumeUsage,
    /// `/resume <id>`
    Resume(String),
    /// `/search` without a query: print its usage.
    SearchUsage,
    /// `/search <query>`
    Search(String),
    /// `/skills`
    Skills,
    /// Not a known command: send the line to the agent.
    Send(String),
}

/// The words after the first, joined by single spaces.
pub open spec fn rest_joined(parts: Seq<Seq<char>>) -> Seq<char> {
    joined(parts.skip(1), " "@)
}

/// The first word, or nothing.
pub open spec fn first_word(parts: Seq<Seq<char>>) -> Seq<char> {
    if parts.len() > 0 {
        parts[0]
    } else {
        Seq::empty()
    }
}

/// Whether `r` is the command that the line `input` stands for.
pub open spec fn parsed_as(input: Seq<char>, r: GenCommand) -> bool {
    let parts = words(input);
    let cmd = first_word(parts);
    if cmd == "/quit"@ || cmd == "/exit"@ || cmd == "/q"@ {
        r is Quit
    } else if cmd == "/help"@ || cmd == "/h"@ || cmd == "/?"@ {
        r is Help
    } else if cmd == "/model"@ {
        if parts.len() < 2 {
            r is ShowModel
        } else {
            r matches GenCommand::SetModel(m) && m@ == parts[1]
        }
    } else if cmd == "/models"@ {
        r is Models
    } else if cmd == "/status"@ {
        r is Status
    } else if cmd == "/context"@ {
        r is Context
    } else if cmd == "/new"@ {
        r is New
    } else if cmd == "/clear"@ {
        r is Clear
    } else if cmd == "/compact"@ {
        r is Compact
    } else if cmd == "/save"@ {
        r is Save
    } else if cmd == "/memory"@ {
        if parts.len() < 2 {
            r is MemoryUsage
        } else {
            r matches GenCommand::Memory(q) && q@ == rest_joined(parts)
        }
    } else if cmd == "/reindex"@ {
        r is Reindex
    } else if cmd == "/export"@ {
        if parts.len() >= 2 {
            r matches GenCommand::ExportTo(p) && p@ == rest_joined(parts)
        } else {
            r is ExportShow
        }
    } else if cmd == "/sessions"@ {
        r is Sessions
    } else if cmd == "/resume"@ {
        if parts.len() < 2 {
            r is ResumeUsage
        } else {
            r matches GenCommand::Resume(id) && id@ == parts[1]
        }
    } else if cmd == "/search"@ {
        if parts.len() < 2 {
            r is SearchUsage
        } else {
            r matches GenCommand::Search(q) && q@ == rest_joined(parts)
        }
    } else if cmd == "/skills"@ {
        r is Skills
    } else {
        r matches GenCommand::Send(m) && m@ == input
    }
}

/// The words of `parts` from index `from` on, joined by `sep`.
pub fn join_from(parts: &Vec<String>, from: usize, sep: &str) -> (r: String)
    requires
        from <= parts@.len(),
    ensures
        r@ == joined(views(parts@).skip(from as int), sep@),
{
    let mut r = String::new();
    let mut i: usize = from;
    assert(views(parts@).skip(from as int).take(0) =~= Seq::<Seq<char>>::empty());
    while i < parts.len()
        invariant
            from <= i <= parts@.len(),
            r@ == joined(views(parts@).skip(from as int).take(i - from), sep@),
        decreases parts@.len() - i,
    {
        let ghost pre = views(parts@).skip(from as int).take(i - from);
        let ghost post = views(parts@).skip(from as int).take(i - from + 1);
        assert(post.drop_last() =~= pre);
        assert(post.last() == parts@[i as int]@);
        if i > from {
            push_str(&mut r, sep);
        }
        push_str(&mut r, parts[i].as_str());
        i = i + 1;
    }
    assert(views(parts@).skip(from as int).take(i - from) =~= views(parts@).skip(from as int));
    r
}

/// Which slash command the line `input` is.
pub fn parse_gen_command(input: &str) -> (r: GenCommand)
    ensures
        parsed_as(input@, r),
{
    let parts = split_words(input);
    let ghost ps = words(input@);
    assert(views(parts@) == ps);
    let cmd: &str = if parts.len() > 0 {
        assert(parts@[0]@ == ps[0]);
        parts[0].as_str()
    } else {
        ""
    };
    proof {
        reveal_strlit("");
    }
    assert(cmd@ == first_word(ps));
    if parts.len() > 1 {
        assert(parts@[1]@ == ps[1]);
    }
    if str_equal(cmd, "/quit") || str_equal(cmd, "/exit") || str_equal(cmd, "/q") {
        GenCommand::Quit
    } else if str_equal(cmd, "/help") || str_equal(cmd, "/h") || str_equal(cmd, "/?") {
        GenCommand::Help
    } else if str_equal(cmd, "/model") {
        if parts.len() < 2 {
            GenCommand::ShowModel
        } else {
            GenCommand::SetModel(parts[1].clone())
        }
    } else if str_equal(cmd, "/models") {
        GenCommand::Models
    } else if str_equal(cmd, "/status") {
        GenCommand::Status
    } else if str_equal(cmd, "/context") {
        GenCommand::Context
    } else if str_equal(cmd, "/new") {
        GenCommand::New
    } else if str_equal(cmd, "/clear") {
        GenCommand::Clear
    } else if str_equal(cmd, "/compact") {
        GenCommand::Compact
    } else if str_equal(cmd, "/save") {
        GenCommand::Save
    } else if str_equal(cmd, "/memory") {
        if parts.len() < 2 {
            GenCommand::MemoryUsage
        } else {
            GenCommand::Memory(join_from(&parts, 1, " "))
        }
    } else if str_equal(cmd, "/reindex") {
        GenCommand::Reindex
    } else if str_equal(cmd, "/export") {
        if parts.len() >= 2 {
            GenCommand::ExportTo(join_from(&parts, 1, " "))
        } else {
            GenCommand::ExportShow
        }
    } else if str_equal(cmd, "/sessions") {
        GenCommand::Sessions
    } else if str_equal(cmd, "/resume") {
        if parts.len() < 2 {
            GenCommand::ResumeUsage
        } else {
            GenCommand::Resume(parts[1].clone())
        }
    } else if str_equal(cmd, "/search") {
        if parts.len() < 2 {
            GenCommand::SearchUsage
        } else {
            GenCommand::Search(join_from(&parts, 1, " "))
        }
    } else if str_equal(cmd, "/skills") {
        GenCommand::Skills
    } else {
        GenCommand::Send(owned(input))
    }
}

/// What the interactive loop does with a line it read.
pub enum LineAction {
    /// Blank line: read the next one.
    Skip,
    /// A slash command.
    Command(GenCommand),
    /// A message for the agent.
    Chat(String),
}

/// Whether `r` is what the interactive loop does with the line `line`:
/// blank lines are skipped, lines starting with '/' are commands (parsed
/// after trimming), others are sent trimmed.
pub open spec fn line_action(line: Seq<char>, r: LineAction) -> bool {
    let t = trim(line);
    if t.len() == 0 {
        r is Skip
    } else if t[0] == '/' {
        r matches LineAction::Command(c) && parsed_as(t, c)
    } else {
        r matches LineAction::Chat(m) && m@ == t
    }
}

/// What the interactive loop does with a line it read.
pub fn classify_line(line: &str) -> (r: LineAction)
    ensures
        line_action(line@, r),
{
    let t = trim_str(line);
    if t.as_str().is_empty() {
        return LineAction::Skip;
    }
    let first = t.as_str().get_char(0);
    if first == '/' {
        LineAction::Command(parse_gen_command(t.as_str()))
    } else {
        LineAction::Chat(t)
    }
}

/// What the headless control loop does with a line it read.
pub enum ControlAction {
    /// Blank line: read the next one.
    Skip,
    /// `/quit`, `/exit` or `/q`: leave the loop.
    Quit,
    /// A message for the agent.
    Chat(String),
}

/// Whether `r` is what the headless control loop does with `line`.
pub open spec fn control_action(line: Seq<char>, r: ControlAction) -> bool {
    let t = trim(line);
    if t.len() == 0 {
        r is Skip
    } else if t == "/quit"@ || t == "/exit"@ || t == "/q"@ {
        r is Quit
    } else {
        r matches ControlAction::Chat(m) && m@ == t
    }
}

/// What the headless control loop does with a line it read.
pub fn classify_control_line(line: &str) -> (r: ControlAction)
    ensures
        control_action(line@, r),
{
    let t = trim_str(line);
    if t.as_str().is_empty() {
        ControlAction::Skip
    } else if str_equal(t.as_str(), "/quit") || str_equal(t.as_str(), "/exit") || str_equal(
        t.as_str(),
        "/q",
    ) {
        ControlAction::Quit
    } else {
        ControlAction::Chat(t)
    }
}

/// Whether `id` starts with `prefix`.
pub open spec fn has_prefix(id: Seq<char>, prefix: Seq<char>) -> bool {
    prefix.len() <= id.len() && id.take(prefix.len() as int) == prefix
}

/// Whether a string starts with a prefix (`str::starts_with`).
pub fn starts_with(s: &str, prefix: &str) -> (r: bool)
    ensures
        r == has_prefix(s@, prefix@),
{
    let sv = crate::strings::chars_of(s);
    let pv = crate::strings::chars_of(prefix);
    if pv.len() > sv.len() {
        return false;
    }
    let mut i: usize = 0;
    while i < pv.len()
        invariant
            sv@ == s@,
            pv@ == prefix@,
            pv@.len() <= sv@.len(),
            i <= pv@.len(),
            forall|j: int| 0 <= j < i ==> sv@[j] == pv@[j],
        decreases pv@.len() - i,
    {
        if sv[i] != pv[i] {
            assert(s@.take(prefix@.len() as int)[i as int] != prefix@[i as int]);
            return false;
        }
        i = i + 1;
    }
    assert(s@.take(prefix@.len() as int) =~= prefix@);
    true
}

/// Which saved sessions a `/resume` prefix selects.
pub enum ResumeMatch {
    /// No session ID starts with the prefix.
    NoMatch,
    /// Exactly one does: the session at this index.
    One(usize),
    /// Several do.
    Many,
}

/// The indices of the IDs that start with `prefix`.
pub open spec fn matching(ids: Seq<Seq<char>>, prefix: Seq<char>) -> Set<int> {
    Set::new(|i: int| 0 <= i < ids.len() && has_prefix(ids[i], prefix))
}

/// Which of the saved sessions `ids` the prefix selects.
pub fn resume_match(ids: &Vec<String>, prefix: &str) -> (r: ResumeMatch)
    ensures
        match r {
            ResumeMatch::NoMatch => matching(views(ids@), prefix@).len() == 0,
            ResumeMatch::One(i) => matching(views(ids@), prefix@) == set![i as int],
            ResumeMatch::Many => matching(views(ids@), prefix@).len() >= 2,
        },
        matching(views(ids@), prefix@).finite(),
{
    let ghost all = views(ids@);
    let ghost m = matching(all, prefix@);
    let mut found: Option<usize> = None;
    let mut count: usize = 0;
    let mut i: usize = 0;
    proof {
        lemma_matching_finite(all, prefix@, all.len() as int);
        lemma_matching_finite(all, prefix@, 0);
        assert(Set::new(|j: int| 0 <= j < 0 && has_prefix(all[j], prefix@)) =~= Set::<int>::empty());
    }
    while i < ids.len()
        invariant
            all == views(ids@),
            i <= ids@.len(),
            count <= 2,
            count == 0 ==> Set::new(|j: int| 0 <= j < i && has_prefix(all[j], prefix@)).len() == 0,
            count == 1 ==> (found matches Some(f) && Set::new(|j: int| 0 <= j < i && has_prefix(all[j], prefix@)) == set![f as int]),
            count == 2 ==> Set::new(|j: int| 0 <= j < i && has_prefix(all[j], prefix@)).len() >= 2,
            Set::new(|j: int| 0 <= j < i && has_prefix(all[j], prefix@)).finite(),
        decreases ids@.len() - i,
    {
        let ghost before = Set::new(|j: int| 0 <= j < i && has_prefix(all[j], prefix@));
        let ghost after = Set::new(|j: int| 0 <= j < i + 1 && has_prefix(all[j], prefix@));
        assert(all[i as int] == ids@[i as int]@);
        if starts_with(ids[i].as_str(), prefix) {
            assert(after =~= before.insert(i as int));
            if count == 0 {
                assert(before =~= Set::<int>::empty());
                found = Some(i);
                count = 1;
                assert(after =~= set![i as int]);
            } else if count == 1 {
                count = 2;
                let f = found.unwrap();
                assert(before.contains(f as int));
                assert(after.contains(i as int));
                assert(set![f as int, i as int].subset_of(after));
                proof {
                    lemma_matching_finite(all, prefix@, i + 1);
                    vstd::set_lib::lemma_len_subset(set![f as int, i as int], after);
                }
            } else {
                proof {
                    lemma_matching_finite(all, prefix@, i + 1);
                    vstd::set_lib::lemma_len_subset(before, after);
                }
            }
        } else {
            assert(after =~= before);
        }
        i = i + 1;
    }
    assert(Set::new(|j: int| 0 <= j < i && has_prefix(all[j], prefix@)) =~= m);
    if count == 0 {
        ResumeMatch::NoMatch
    } else if count == 1 {
        ResumeMatch::One(found.unwrap())
    } else {
        ResumeMatch::Many
    }
}

proof fn lemma_matching_finite(all: Seq<Seq<char>>, prefix: Seq<char>, n: int)
    requires
        0 <= n,
    ensures
        Set::new(|j: int| 0 <= j < n && has_prefix(all[j], prefix)).finite(),
        Set::new(|j: int| 0 <= j < n && has_prefix(all[j], prefix)).len() <= n,
    decreases n,
{
    let s = Set::new(|j: int| 0 <= j < n && has_prefix(all[j], prefix));
    if n == 0 {
        assert(s =~= Set::<int>::empty());
    } else {
        lemma_matching_finite(all, prefix, n - 1);
        let t = Set::new(|j: int| 0 <= j < n - 1 && has_prefix(all[j], prefix));
        if has_prefix(all[n - 1], prefix) {
            assert(s =~= t.insert(n - 1));
        } else {
            assert(s =~= t);
        }
    }
}


/// A list of two or more pieces joined by `sep` is its first piece, `sep`,
/// and the rest joined by `sep`.
pub proof fn lemma_joined_front(list: Seq<Seq<char>>, sep: Seq<char>)
    requires
        list.len() >= 2,
    ensures
        joined(list, sep) == list[0] + sep + joined(list.skip(1), sep),
    decreases list.len(),
{
    if list.len() == 2 {
        assert(list.drop_last().len() == 1);
        assert(list.skip(1).len() == 1);
        assert(list.skip(1)[0] == list[1]);
        assert(list.drop_last()[0] == list[0]);
    } else {
        lemma_joined_front(list.drop_last(), sep);
        assert(list.drop_last().skip(1) =~= list.skip(1).drop_last());
        assert(list.skip(1).last() == list.last());
        assert(list.drop_last()[0] == list[0]);
        assert(joined(list, sep) == joined(list.drop_last(), sep) + sep + list.last());
        assert(joined(list.skip(1), sep) == joined(list.skip(1).drop_last(), sep) + sep + list.skip(1).last());
        assert(list[0] + sep + joined(list.skip(1).drop_last(), sep) + sep + list.last() =~= list[0] + sep + (
        joined(list.skip(1).drop_last(), sep) + sep + list.last()));
    }
}

/// `/search` with further words searches for all of them, in order, joined
/// by single spaces (just the word when there is one); `/search` alone asks
/// for the usage.
pub proof fn law_search_takes_all_words(input: Seq<char>, r: GenCommand)
    requires
        parsed_as(input, r),
        words(input).len() >= 1,
        words(input)[0] == "/search"@,
    ensures
        words(input).len() == 1 ==> r is SearchUsage,
        words(input).len() == 2 ==> (r matches GenCommand::Search(q) && q@ == words(input)[1]),
        words(input).len() >= 3 ==> (r matches GenCommand::Search(q) && q@ == words(input)[1] + " "@ + joined(
            words(input).skip(2),
            " "@,
        )),
{
    let parts = words(input);
    lemma_command_words_differ();
    if parts.len() == 2 {
        assert(parts.skip(1).len() == 1);
        assert(parts.skip(1)[0] == parts[1]);
    } else if parts.len() >= 3 {
        lemma_joined_front(parts.skip(1), " "@);
        assert(parts.skip(1)[0] == parts[1]);
        assert(parts.skip(1).skip(1) =~= parts.skip(2));
    }
}

/// `/search` is none of the other command words.
proof fn lemma_command_words_differ()
    ensures
        "/search"@ != "/quit"@ && "/search"@ != "/exit"@ && "/search"@ != "/q"@,
        "/search"@ != "/help"@ && "/search"@ != "/h"@ && "/search"@ != "/?"@,
        "/search"@ != "/model"@ && "/search"@ != "/models"@ && "/search"@ != "/status"@,
        "/search"@ != "/context"@ && "/search"@ != "/new"@ && "/search"@ != "/clear"@,
        "/search"@ != "/compact"@ && "/search"@ != "/save"@ && "/search"@ != "/memory"@,
        "/search"@ != "/reindex"@ && "/search"@ != "/export"@ && "/search"@ != "/sessions"@,
        "/search"@ != "/resume"@,
{
    reveal_strlit("/search");
    reveal_strlit("/quit");
    reveal_strlit("/exit");
    reveal_strlit("/q");
    reveal_strlit("/help");
    reveal_strlit("/h");
    reveal_strlit("/?");
    reveal_strlit("/model");
    reveal_strlit("/models");
    reveal_strlit("/status");
    reveal_strlit("/context");
    reveal_strlit("/new");
    reveal_strlit("/clear");
    reveal_strlit("/compact");
    reveal_strlit("/save");
    reveal_strlit("/memory");
    reveal_strlit("/reindex");
    reveal_strlit("/export");
    reveal_strlit("/sessions");
    reveal_strlit("/resume");
    assert("/search"@.len() == 7);
    assert("/search"@[1] == 's' && "/search"@[2] == 'e');
    assert("/quit"@.len() == 5 && "/exit"@.len() == 5 && "/q"@.len() == 2 && "/help"@.len() == 5);
    assert("/h"@.len() == 2 && "/?"@.len() == 2 && "/model"@.len() == 6 && "/models"@.len() == 7);
    assert("/status"@.len() == 7 && "/status"@[2] == 't');
    assert("/context"@.len() == 8 && "/new"@.len() == 4 && "/clear"@.len() == 6);
    assert("/compact"@.len() == 8 && "/save"@.len() == 5 && "/memory"@.len() == 7 && "/memory"@[1] == 'm');
    assert("/reindex"@.len() == 8 && "/export"@.len() == 7 && "/export"@[1] == 'e');
    assert("/sessions"@.len() == 9 && "/resume"@.len() == 7 && "/resume"@[1] == 'r');
    assert("/models"@[1] == 'm');
}

} // verus!
