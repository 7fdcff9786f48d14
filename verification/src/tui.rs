//! The chat TUI: its state (input line, messages, selection) and how keys,
//! streamed agent events and a resumed session change it. Drawing the state
//! and reading the terminal are left to the caller.
use vstd::prelude::*;

use crate::document::{entries_map, insert_entry, remove_entry, sorted_keys};
use crate::strings::str_equal;
use crate::text::{decimal, owned, push_decimal, push_str};
use crate::whitespace::{trim, trim_str};

verus! {

broadcast use vstd::string::group_string_axioms;

/// Arguments of the `tui` command.
pub struct TuiArgs {
    /// Model to use (overrides config)
    pub model: Option<String>,
    /// Session ID to resume
    pub session: Option<String>,
    /// Resume the most recent session
    pub resume: bool,
}

/// Which session the TUI starts with.
pub enum SessionChoice {
    /// The session with this ID.
    Resume(String),
    /// The most recent session of the agent, if there is one.
    ResumeLast,
    /// A new session.
    New,
}

/// Which session the TUI starts with: the one named, else the most recent
/// one when asked to resume, else a new one.
pub fn session_choice(args: TuiArgs) -> (r: SessionChoice)
    ensures
        match args.session {
            Some(id) => r == SessionChoice::Resume(id),
            None => if args.resume {
                r is ResumeLast
            } else {
                r is New
            },
        },
{
    match args.session {
        Some(id) => SessionChoice::Resume(id),
        None => if args.resume {
            SessionChoice::ResumeLast
        } else {
            SessionChoice::New
        },
    }
}

/// A message shown in the chat pane.
pub enum AppMessage {
    Text { role: String, content: String },
    ToolCall { name: String, arguments: String, output: Option<String>, is_expanded: bool },
}

/// The plain content of a chat pane message.
pub ghost enum MessageView {
    Text { role: Seq<char>, content: Seq<char> },
    ToolCall { name: Seq<char>, arguments: Seq<char>, output: Option<Seq<char>>, is_expanded: bool },
}

/// The view of an optional string.
pub open spec fn opt_view(o: Option<String>) -> Option<Seq<char>> {
    match o {
        Some(s) => Some(s@),
        None => None,
    }
}

impl View for AppMessage {
    type V = MessageView;

    open spec fn view(&self) -> MessageView {
        match self {
            AppMessage::Text { role, content } => MessageView::Text { role: role@, content: content@ },
            AppMessage::ToolCall { name, arguments, output, is_expanded } => MessageView::ToolCall {
                name: name@,
                arguments: arguments@,
                output: opt_view(*output),
                is_expanded: *is_expanded,
            },
        }
    }
}

/// The TUI state.
pub struct App {
    pub input: String,
    pub messages: Vec<AppMessage>,
    pub is_generating: bool,
    pub selected_index: Option<usize>,
}

/// The plain content of the TUI state.
pub ghost struct AppView {
    pub input: Seq<char>,
    pub messages: Seq<MessageView>,
    pub is_generating: bool,
    pub selected_index: Option<int>,
}

impl View for App {
    type V = AppView;

    open spec fn view(&self) -> AppView {
        AppView {
            input: self.input@,
            messages: self.messages@.map_values(|m: AppMessage| m@),
            is_generating: self.is_generating,
            selected_index: match self.selected_index {
                Some(i) => Some(i as int),
                None => None,
            },
        }
    }
}

/// The header line of a new TUI.
pub open spec fn header_text(
    version: Seq<char>,
    agent_id: Seq<char>,
    model: Seq<char>,
    chunk_count: nat,
    has_embeddings: bool,
) -> Seq<char> {
    "LocalGPT v"@ + version + " | Agent: "@ + agent_id + " | Model: "@ + model + " | Memory: "@
        + decimal(chunk_count) + " chunks"@ + if has_embeddings {
        " | Embeddings: enabled"@
    } else {
        Seq::empty()
    }
}

/// The usage line shown below the header.
pub open spec fn usage_text() -> Seq<char> {
    "Use Up/Down to select, Ctrl+O to expand tools. Esc/Ctrl+C to quit."@
}

/// A key press, as the TUI distinguishes them.
pub enum Key {
    /// Ctrl+C
    CtrlC,
    /// Ctrl+O
    CtrlO,
    Esc,
    Up,
    Down,
    Enter,
    Char(char),
    Backspace,
    /// Any other key.
    Other,
}

/// What the event loop does after a key.
pub enum KeyAction {
    /// Leave the TUI.
    Quit,
    /// Redraw and wait for the next event.
    Redraw,
    /// Send this message to the agent and stream its answer.
    Submit(String),
}

/// The messages with the tool call at `sel`, if any, expanded or collapsed.
pub open spec fn toggled(msgs: Seq<MessageView>, sel: Option<int>) -> Seq<MessageView> {
    match sel {
        Some(i) => if 0 <= i < msgs.len() {
            match msgs[i] {
                MessageView::ToolCall { name, arguments, output, is_expanded } => msgs.update(
                    i,
                    MessageView::ToolCall { name, arguments, output, is_expanded: !is_expanded },
                ),
                _ => msgs,
            }
        } else {
            msgs
        },
        None => msgs,
    }
}

/// The selection after Up: the previous message, or the last one when at
/// the top or when nothing is selected.
pub open spec fn selection_up(a: AppView) -> Option<int> {
    match a.selected_index {
        Some(i) if i > 0 => Some(i - 1),
        _ => if a.messages.len() > 0 {
            Some(a.messages.len() - 1)
        } else {
            a.selected_index
        },
    }
}

/// The selection after Down: the next message, if there is one.
pub open spec fn selection_down(a: AppView) -> Option<int> {
    match a.selected_index {
        Some(i) if i + 1 < a.messages.len() => Some(i + 1),
        _ => a.selected_index,
    }
}

/// A text message.
pub open spec fn text_view(role: Seq<char>, content: Seq<char>) -> MessageView {
    MessageView::Text { role, content }
}

/// How a key changes the TUI and what the loop does next.
pub open spec fn key_outcome(a: AppView, b: AppView, key: Key, r: KeyAction) -> bool {
    match key {
        Key::CtrlC => b == a && r is Quit,
        Key::Esc => b == a && r is Quit,
        Key::CtrlO => r is Redraw && b == AppView { messages: toggled(a.messages, a.selected_index), ..a },
        Key::Up => r is Redraw && b == AppView { selected_index: selection_up(a), ..a },
        Key::Down => r is Redraw && b == AppView { selected_index: selection_down(a), ..a },
        Key::Enter => if a.is_generating {
            b == a && r is Redraw
        } else if trim(a.input).len() == 0 {
            r is Redraw && b == AppView { input: Seq::empty(), ..a }
        } else {
            &&& r matches KeyAction::Submit(m) && m@ == trim(a.input)
            &&& b == AppView {
                input: Seq::empty(),
                messages: a.messages.push(text_view("You"@, trim(a.input))).push(
                    text_view("Assistant"@, Seq::empty()),
                ),
                is_generating: true,
                selected_index: Some(a.messages.len() + 1 as int),
            }
        },
        Key::Char(c) => r is Redraw && b == if a.is_generating {
            a
        } else {
            AppView { input: a.input.push(c), ..a }
        },
        Key::Backspace => r is Redraw && b == if a.is_generating || a.input.len() == 0 {
            a
        } else {
            AppView { input: a.input.drop_last(), ..a }
        },
        Key::Other => b == a && r is Redraw,
    }
}

/// An event of the agent's streamed answer.
pub enum StreamEvent {
    /// More answer text.
    Content(String),
    /// A tool call started.
    ToolCallStart { name: String, arguments: String },
    /// The running tool call finished with this output.
    ToolCallEnd { output: String },
    /// The answer is complete.
    Done,
    /// The stream failed.
    Error(String),
}

/// How a streamed event changes the TUI, and whether streaming stops.
pub open spec fn stream_outcome(a: AppView, b: AppView, ev: StreamEvent, stop: bool) -> bool {
    match ev {
        StreamEvent::Content(text) => !stop && if a.messages.len() > 0
            && a.messages.last() is Text {
            b == AppView {
                messages: a.messages.update(
                    a.messages.len() - 1,
                    text_view(a.messages.last()->Text_role, a.messages.last()->Text_content + text@),
                ),
                ..a
            }
        } else {
            b == AppView {
                messages: a.messages.push(text_view("Assistant"@, text@)),
                selected_index: Some(a.messages.len() as int),
                ..a
            }
        },
        StreamEvent::ToolCallStart { name, arguments } => !stop && b == AppView {
            messages: a.messages.push(
                MessageView::ToolCall {
                    name: name@,
                    arguments: arguments@,
                    output: None,
                    is_expanded: false,
                },
            ),
            selected_index: Some(a.messages.len() as int),
            ..a
        },
        StreamEvent::ToolCallEnd { output } => !stop && if a.messages.len() > 0
            && a.messages.last() is ToolCall {
            b == AppView {
                messages: a.messages.update(
                    a.messages.len() - 1,
                    MessageView::ToolCall {
                        name: a.messages.last()->ToolCall_name,
                        arguments: a.messages.last()->ToolCall_arguments,
                        output: Some(output@),
                        is_expanded: a.messages.last()->ToolCall_is_expanded,
                    },
                ),
                ..a
            }
        } else {
            b == a
        },
        StreamEvent::Done => !stop && b == a,
        StreamEvent::Error(e) => stop && b == AppView {
            messages: a.messages.push(text_view("System"@, "[Error: "@ + e@ + "]"@)),
            ..a
        },
    }
}

/// `String::pop`: removes the last character, if any.
#[verifier::external_body]
fn pop_char(s: &mut String)
    ensures
        old(s)@.len() > 0 ==> final(s)@ == old(s)@.drop_last(),
        old(s)@.len() == 0 ==> final(s)@ == old(s)@,
{
    s.pop();
}

fn clone_opt(s: &Option<String>) -> (r: Option<String>)
    ensures
        r == *s,
{
    match s {
        Some(x) => Some(x.clone()),
        None => None,
    }
}

fn text_message(role: &str, content: String) -> (m: AppMessage)
    ensures
        m@ == text_view(role@, content@),
{
    AppMessage::Text { role: owned(role), content }
}

impl App {
    /// A new TUI state: the header and usage lines, an empty input, nothing
    /// selected.
    pub fn new(agent_id: &str, model: &str, chunk_count: usize, has_embeddings: bool, version: &str) -> (app: App)
        ensures
            app@.input.len() == 0,
            app@.messages == seq![
                text_view("System"@, header_text(version@, agent_id@, model@, chunk_count as nat, has_embeddings)),
                text_view("System"@, usage_text()),
            ],
            !app@.is_generating,
            app@.selected_index is None,
    {
        let mut header = owned("LocalGPT v");
        push_str(&mut header, version);
        push_str(&mut header, " | Agent: ");
        push_str(&mut header, agent_id);
        push_str(&mut header, " | Model: ");
        push_str(&mut header, model);
        push_str(&mut header, " | Memory: ");
        push_decimal(&mut header, chunk_count as u64);
        push_str(&mut header, " chunks");
        if has_embeddings {
            push_str(&mut header, " | Embeddings: enabled");
        }
        let mut messages: Vec<AppMessage> = Vec::new();
        messages.push(text_message("System", header));
        messages.push(
            text_message(
                "System",
                owned("Use Up/Down to select, Ctrl+O to expand tools. Esc/Ctrl+C to quit."),
            ),
        );
        let app = App { input: String::new(), messages, is_generating: false, selected_index: None };
        assert(app@.messages =~= seq![
            text_view("System"@, header_text(version@, agent_id@, model@, chunk_count as nat, has_embeddings)),
            text_view("System"@, usage_text()),
        ]);
        app
    }

    /// Applies a key press.
    pub fn handle_key(&mut self, key: Key) -> (r: KeyAction)
        ensures
            key_outcome(old(self)@, final(self)@, key, r),
    {
        let ghost a = self@;
        match key {
            Key::CtrlC => KeyAction::Quit,
            Key::Esc => KeyAction::Quit,
            Key::CtrlO => {
                if let Some(idx) = self.selected_index {
                    if idx < self.messages.len() {
                        let replacement = match &self.messages[idx] {
                            AppMessage::ToolCall { name, arguments, output, is_expanded } => Some(
                                AppMessage::ToolCall {
                                    name: name.clone(),
                                    arguments: arguments.clone(),
                                    output: clone_opt(output),
                                    is_expanded: !*is_expanded,
                                },
                            ),
                            _ => None,
                        };
                        if let Some(m) = replacement {
                            self.messages.set(idx, m);
                            assert(self@.messages =~= toggled(a.messages, a.selected_index));
                        }
                    }
                }
                KeyAction::Redraw
            },
            Key::Up => {
                match self.selected_index {
                    Some(idx) if idx > 0 => {
                        self.selected_index = Some(idx - 1);
                    },
                    _ => {
                        if self.messages.len() > 0 {
                            self.selected_index = Some(self.messages.len() - 1);
                        }
                    },
                }
                KeyAction::Redraw
            },
            Key::Down => {
                match self.selected_index {
                    Some(idx) => {
                        if idx < self.messages.len() && idx + 1 < self.messages.len() {
                            self.selected_index = Some(idx + 1);
                        }
                    },
                    None => {},
                }
                KeyAction::Redraw
            },
            Key::Enter => {
                if self.is_generating {
                    return KeyAction::Redraw;
                }
                let input = trim_str(self.input.as_str());
                self.input = String::new();
                if input.as_str().is_empty() {
                    return KeyAction::Redraw;
                }
                let shown = input.clone();
                self.messages.push(text_message("You", shown));
                self.is_generating = true;
                self.messages.push(text_message("Assistant", String::new()));
                self.selected_index = Some(self.messages.len() - 1);
                assert(self@.messages =~= a.messages.push(text_view("You"@, trim(a.input))).push(
                    text_view("Assistant"@, Seq::empty()),
                ));
                KeyAction::Submit(input)
            },
            Key::Char(c) => {
                if !self.is_generating {
                    crate::text::push_char(&mut self.input, c);
                }
                KeyAction::Redraw
            },
            Key::Backspace => {
                if !self.is_generating {
                    pop_char(&mut self.input);
                }
                KeyAction::Redraw
            },
            Key::Other => KeyAction::Redraw,
        }
    }

    /// Applies an event of the streamed answer; true when streaming stops.
    pub fn apply_stream_event(&mut self, ev: StreamEvent) -> (stop: bool)
        ensures
            stream_outcome(old(self)@, final(self)@, ev, stop),
    {
        let ghost a = self@;
        match ev {
            StreamEvent::Content(text) => {
                let n = self.messages.len();
                if n > 0 {
                    let replacement = match &self.messages[n - 1] {
                        AppMessage::Text { role, content } => {
                            let mut c = content.clone();
                            push_str(&mut c, text.as_str());
                            Some(AppMessage::Text { role: role.clone(), content: c })
                        },
                        _ => None,
                    };
                    if let Some(m) = replacement {
                        self.messages.set(n - 1, m);
                        assert(self@.messages =~= a.messages.update(
                            a.messages.len() - 1,
                            text_view(a.messages.last()->Text_role, a.messages.last()->Text_content + text@),
                        ));
                        return false;
                    }
                }
                self.messages.push(text_message("Assistant", text));
                self.selected_index = Some(self.messages.len() - 1);
                assert(self@.messages =~= a.messages.push(text_view("Assistant"@, text@)));
                false
            },
            StreamEvent::ToolCallStart { name, arguments } => {
                self.messages.push(
                    AppMessage::ToolCall { name, arguments, output: None, is_expanded: false },
                );
                self.selected_index = Some(self.messages.len() - 1);
                assert(self@.messages =~= a.messages.push(
                    MessageView::ToolCall {
                        name: name@,
                        arguments: arguments@,
                        output: None,
                        is_expanded: false,
                    },
                ));
                false
            },
            StreamEvent::ToolCallEnd { output } => {
                let n = self.messages.len();
                if n > 0 {
                    let replacement = match &self.messages[n - 1] {
                        AppMessage::ToolCall { name, arguments, is_expanded, .. } => Some(
                            AppMessage::ToolCall {
                                name: name.clone(),
                                arguments: arguments.clone(),
                                output: Some(output),
                                is_expanded: *is_expanded,
                            },
                        ),
                        _ => None,
                    };
                    if let Some(m) = replacement {
                        self.messages.set(n - 1, m);
                        assert(self@.messages =~= a.messages.update(
                            a.messages.len() - 1,
                            MessageView::ToolCall {
                                name: a.messages.last()->ToolCall_name,
                                arguments: a.messages.last()->ToolCall_arguments,
                                output: Some(output@),
                                is_expanded: a.messages.last()->ToolCall_is_expanded,
                            },
                        ));
                    }
                }
                false
            },
            StreamEvent::Done => false,
            StreamEvent::Error(e) => {
                let mut content = owned("[Error: ");
                push_str(&mut content, e.as_str());
                push_str(&mut content, "]");
                self.messages.push(text_message("System", content));
                assert(self@.messages =~= a.messages.push(text_view("System"@, "[Error: "@ + e@ + "]"@)));
                true
            },
        }
    }

    /// Records that the answer stream could not be started.
    pub fn stream_failed(&mut self, error: &str)
        ensures
            final(self)@ == (AppView {
                messages: old(self)@.messages.push(text_view("System"@, "Error starting stream: "@ + error@)),
                ..old(self)@
            }),
    {
        let ghost a = self@;
        let mut content = owned("Error starting stream: ");
        push_str(&mut content, error);
        self.messages.push(text_message("System", content));
        assert(self@.messages =~= a.messages.push(text_view("System"@, "Error starting stream: "@ + error@)));
    }

    /// Ends an answer: input is accepted again and the last message is
    /// selected.
    pub fn finish_generation(&mut self)
        requires
            old(self).messages@.len() > 0,
        ensures
            final(self)@ == (AppView {
                is_generating: false,
                selected_index: Some(old(self)@.messages.len() - 1),
                ..old(self)@
            }),
    {
        self.is_generating = false;
        self.selected_index = Some(self.messages.len() - 1);
    }
}


/// Moving the selection: Down selects the next message when there is one and
/// otherwise leaves the selection; Up selects the previous message, or the
/// last one from the top or from no selection. Neither touches the input,
/// the messages or the generating flag, and Up after a Down that moved
/// comes back to where it started.
pub proof fn law_selection_moves(a: AppView, b: AppView, c: AppView, r1: KeyAction, r2: KeyAction, i: int)
    requires
        key_outcome(a, b, Key::Down, r1),
    ensures
        r1 is Redraw,
        b.input == a.input && b.messages == a.messages && b.is_generating == a.is_generating,
        a.selected_index == Some(i) && 0 <= i && i + 1 < a.messages.len() ==> b.selected_index
            == Some(i + 1),
        a.selected_index == Some(i) && i + 1 >= a.messages.len() ==> b.selected_index == Some(i),
        a.selected_index is None ==> b.selected_index is None,
        key_outcome(b, c, Key::Up, r2) ==> {
            &&& r2 is Redraw
            &&& (a.selected_index == Some(i) && 0 <= i && i + 1 < a.messages.len() ==> c.selected_index
                == Some(i))
        },
{
}

/// Up selects the previous message; from the first message, or with nothing
/// selected, it selects the last message (when there are messages).
pub proof fn law_selection_up(a: AppView, b: AppView, r: KeyAction, i: int)
    requires
        key_outcome(a, b, Key::Up, r),
    ensures
        r is Redraw,
        b.input == a.input && b.messages == a.messages && b.is_generating == a.is_generating,
        a.selected_index == Some(i) && i > 0 ==> b.selected_index == Some(i - 1),
        a.messages.len() > 0 && (a.selected_index is None || a.selected_index == Some(0int))
            ==> b.selected_index == Some(a.messages.len() - 1),
{
}

} // verus!

verus! {

/// The author of a session message.
#[derive(Clone, Copy, PartialEq, Eq, Structural)]
pub enum Role {
    System,
    User,
    Assistant,
    Tool,
}

/// A tool call requested by the assistant in a session message.
pub struct ToolCallRecord {
    pub id: String,
    pub name: String,
    pub arguments: String,
}

/// A message of a saved session.
pub struct SessionMessage {
    pub role: Role,
    pub content: String,
    pub tool_call_id: Option<String>,
    pub tool_calls: Option<Vec<ToolCallRecord>>,
}

/// The label under which a role's messages are shown.
pub open spec fn role_label(r: Role) -> Seq<char> {
    match r {
        Role::User => "You"@,
        Role::Assistant => "Assistant"@,
        Role::System => "System"@,
        Role::Tool => "Tool"@,
    }
}

/// The tool call messages for `calls`, each taking (and so removing) the
/// pending output recorded under its ID; and the pending outputs left.
pub open spec fn calls_pass(
    calls: Seq<ToolCallRecord>,
    pending: Map<Seq<char>, Seq<char>>,
) -> (Seq<MessageView>, Map<Seq<char>, Seq<char>>)
    decreases calls.len(),
{
    if calls.len() == 0 {
        (Seq::empty(), pending)
    } else {
        let c = calls[0];
        let out = if pending.dom().contains(c.id@) {
            Some(pending[c.id@])
        } else {
            None
        };
        let rest = calls_pass(calls.drop_first(), pending.remove(c.id@));
        (
            seq![
                MessageView::ToolCall {
                    name: c.name@,
                    arguments: c.arguments@,
                    output: out,
                    is_expanded: false,
                },
            ] + rest.0,
            rest.1,
        )
    }
}

/// The tool call messages of a session message, and the pending outputs left.
pub open spec fn message_calls(
    m: SessionMessage,
    pending: Map<Seq<char>, Seq<char>>,
) -> (Seq<MessageView>, Map<Seq<char>, Seq<char>>) {
    match m.tool_calls {
        Some(cs) => calls_pass(cs@, pending),
        None => (Seq::empty(), pending),
    }
}

/// The text message of a session message, if it has text.
pub open spec fn message_text(m: SessionMessage) -> Seq<MessageView> {
    if m.content@.len() > 0 {
        seq![text_view(role_label(m.role), m.content@)]
    } else {
        Seq::empty()
    }
}

/// The chat pane messages for a session, read in order: system messages are
/// skipped, tool results are kept aside under their call ID, and each other
/// message contributes its tool calls and then its text, if any.
pub open spec fn history_pass(
    msgs: Seq<SessionMessage>,
    pending: Map<Seq<char>, Seq<char>>,
) -> Seq<MessageView>
    decreases msgs.len(),
{
    if msgs.len() == 0 {
        Seq::empty()
    } else {
        let m = msgs[0];
        let rest = msgs.drop_first();
        match m.role {
            Role::System => history_pass(rest, pending),
            Role::Tool => history_pass(
                rest,
                match m.tool_call_id {
                    Some(id) => pending.insert(id@, m.content@),
                    None => pending,
                },
            ),
            _ => {
                let calls = message_calls(m, pending);
                calls.0 + message_text(m) + history_pass(rest, calls.1)
            },
        }
    }
}

/// Whether a call has this name and these arguments.
pub open spec fn call_matches(c: ToolCallRecord, name: Seq<char>, arguments: Seq<char>) -> bool {
    c.name@ == name && c.arguments@ == arguments
}

/// The first call from `from` on that matches.
pub open spec fn first_matching_call(
    cs: Seq<ToolCallRecord>,
    name: Seq<char>,
    arguments: Seq<char>,
    from: int,
) -> Option<int>
    decreases cs.len() - from,
{
    if from < 0 || from >= cs.len() {
        None
    } else if call_matches(cs[from], name, arguments) {
        Some(from)
    } else {
        first_matching_call(cs, name, arguments, from + 1)
    }
}

/// The first message from `from` on with a matching tool call.
pub open spec fn first_call_message(
    raw: Seq<SessionMessage>,
    name: Seq<char>,
    arguments: Seq<char>,
    from: int,
) -> Option<int>
    decreases raw.len() - from,
{
    if from < 0 || from >= raw.len() {
        None
    } else if raw[from].tool_calls matches Some(cs) && first_matching_call(
        cs@,
        name,
        arguments,
        0,
    ) is Some {
        Some(from)
    } else {
        first_call_message(raw, name, arguments, from + 1)
    }
}

/// The first tool result from `from` on for the call with this ID.
pub open spec fn first_tool_result(raw: Seq<SessionMessage>, id: Seq<char>, from: int) -> Option<int>
    decreases raw.len() - from,
{
    if from < 0 || from >= raw.len() {
        None
    } else if raw[from].role == Role::Tool && opt_view(raw[from].tool_call_id) == Some(id) {
        Some(from)
    } else {
        first_tool_result(raw, id, from + 1)
    }
}

/// The output found in the session for a call with this name and these
/// arguments: the first message with such a call, the first such call in
/// it, and the first tool result for that call's ID.
pub open spec fn found_output(raw: Seq<SessionMessage>, name: Seq<char>, arguments: Seq<char>) -> Option<Seq<char>> {
    match first_call_message(raw, name, arguments, 0) {
        Some(k) => match raw[k].tool_calls {
            Some(cs) => match first_matching_call(cs@, name, arguments, 0) {
                Some(j) => match first_tool_result(raw, cs@[j].id@, 0) {
                    Some(t) => Some(raw[t].content@),
                    None => None,
                },
                None => None,
            },
            None => None,
        },
        None => None,
    }
}

/// A pane message with a missing tool output filled in from the session.
pub open spec fn patched(m: MessageView, raw: Seq<SessionMessage>) -> MessageView {
    match m {
        MessageView::ToolCall { name, arguments, output: None, is_expanded } => MessageView::ToolCall {
            name,
            arguments,
            output: found_output(raw, name, arguments),
            is_expanded,
        },
        _ => m,
    }
}

} // verus!

verus! {

/// The views of a list of pane messages.
pub open spec fn message_views(v: Seq<AppMessage>) -> Seq<MessageView> {
    v.map_values(|m: AppMessage| m@)
}

fn clone_string(s: &String) -> (r: String)
    ensures
        r@ == s@,
{
    s.clone()
}

fn take_calls(calls: &Vec<ToolCallRecord>, pending: &mut Vec<(String, String)>, out: &mut Vec<AppMessage>)
    requires
        sorted_keys(old(pending)@),
    ensures
        sorted_keys(final(pending)@),
        message_views(final(out)@) == message_views(old(out)@) + calls_pass(calls@, entries_map(old(pending)@)).0,
        entries_map(final(pending)@) == calls_pass(calls@, entries_map(old(pending)@)).1,
{
    let ghost out0 = message_views(out@);
    let ghost m0 = entries_map(pending@);
    let mut i: usize = 0;
    assert(calls@.skip(0) =~= calls@);
    assert(message_views(out@) + calls_pass(calls@, m0).0 =~= out0 + calls_pass(calls@, m0).0);
    while i < calls.len()
        invariant
            i <= calls@.len(),
            sorted_keys(pending@),
            message_views(out@) + calls_pass(calls@.skip(i as int), entries_map(pending@)).0 == out0
                + calls_pass(calls@, m0).0,
            calls_pass(calls@.skip(i as int), entries_map(pending@)).1 == calls_pass(calls@, m0).1,
        decreases calls@.len() - i,
    {
        let ghost m = entries_map(pending@);
        let ghost rest = calls@.skip(i as int);
        assert(rest.drop_first() =~= calls@.skip(i + 1));
        assert(rest[0] == calls@[i as int]);
        let c = &calls[i];
        let output = remove_entry(pending, c.id.as_str());
        let ghost before = message_views(out@);
        out.push(
            AppMessage::ToolCall {
                name: clone_string(&c.name),
                arguments: clone_string(&c.arguments),
                output,
                is_expanded: false,
            },
        );
        assert(message_views(out@) =~= before.push(message_views(out@).last()));
        assert(message_views(out@) + calls_pass(calls@.skip(i + 1), entries_map(pending@)).0 =~= before
            + calls_pass(rest, m).0);
        i = i + 1;
    }
    assert(calls@.skip(i as int) =~= Seq::<ToolCallRecord>::empty());
    assert(message_views(out@) + Seq::<MessageView>::empty() =~= message_views(out@));
}

/// The pane messages for the messages of a resumed session.
pub fn history_messages(raw: &Vec<SessionMessage>) -> (r: Vec<AppMessage>)
    ensures
        message_views(r@) == history_pass(raw@, Map::empty()),
{
    let mut out: Vec<AppMessage> = Vec::new();
    let mut pending: Vec<(String, String)> = Vec::new();
    assert(entries_map(pending@) =~= Map::<Seq<char>, Seq<char>>::empty());
    assert(raw@.skip(0) =~= raw@);
    assert(message_views(out@) =~= Seq::<MessageView>::empty());
    let mut i: usize = 0;
    while i < raw.len()
        invariant
            i <= raw@.len(),
            sorted_keys(pending@),
            message_views(out@) + history_pass(raw@.skip(i as int), entries_map(pending@))
                == history_pass(raw@, Map::empty()),
        decreases raw@.len() - i,
    {
        let ghost m = entries_map(pending@);
        let ghost rest = raw@.skip(i as int);
        assert(rest.drop_first() =~= raw@.skip(i + 1));
        assert(rest[0] == raw@[i as int]);
        let msg = &raw[i];
        match msg.role {
            Role::System => {},
            Role::Tool => {
                match &msg.tool_call_id {
                    Some(id) => {
                        insert_entry(&mut pending, clone_string(id), clone_string(&msg.content));
                    },
                    None => {},
                }
            },
            _ => {
                let ghost before = message_views(out@);
                match &msg.tool_calls {
                    Some(cs) => {
                        take_calls(cs, &mut pending, &mut out);
                    },
                    None => {},
                }
                let ghost mid = message_views(out@);
                if !msg.content.as_str().is_empty() {
                    let label = match msg.role {
                        Role::User => "You",
                        Role::Assistant => "Assistant",
                        Role::System => "System",
                        Role::Tool => "Tool",
                    };
                    out.push(text_message(label, clone_string(&msg.content)));
                    assert(message_views(out@) =~= mid.push(text_view(role_label(msg.role), msg.content@)));
                } else {
                    assert(mid + Seq::<MessageView>::empty() =~= mid);
                }
                let ghost calls = message_calls(*msg, m);
                let ghost text = message_text(*msg);
                assert(message_views(out@) =~= before + calls.0 + text);
                assert(entries_map(pending@) == calls.1);
                assert(history_pass(rest, m) == calls.0 + text + history_pass(raw@.skip(i + 1), calls.1));
                assert(message_views(out@) + history_pass(raw@.skip(i + 1), entries_map(pending@)) =~= before
                    + history_pass(rest, m));
            },
        }
        i = i + 1;
    }
    assert(raw@.skip(i as int) =~= Seq::<SessionMessage>::empty());
    assert(message_views(out@) + Seq::<MessageView>::empty() =~= message_views(out@));
    out
}

fn find_matching_call(cs: &Vec<ToolCallRecord>, name: &str, arguments: &str) -> (r: Option<usize>)
    ensures
        match r {
            Some(j) => j < cs@.len() && first_matching_call(cs@, name@, arguments@, 0) == Some(j as int),
            None => first_matching_call(cs@, name@, arguments@, 0) is None,
        },
{
    let mut j: usize = 0;
    while j < cs.len()
        invariant
            j <= cs@.len(),
            first_matching_call(cs@, name@, arguments@, 0) == first_matching_call(cs@, name@, arguments@, j as int),
        decreases cs@.len() - j,
    {
        if str_equal(cs[j].name.as_str(), name) && str_equal(cs[j].arguments.as_str(), arguments) {
            return Some(j);
        }
        j = j + 1;
    }
    None
}

fn find_tool_result(raw: &Vec<SessionMessage>, id: &str) -> (r: Option<usize>)
    ensures
        match r {
            Some(t) => t < raw@.len() && first_tool_result(raw@, id@, 0) == Some(t as int),
            None => first_tool_result(raw@, id@, 0) is None,
        },
{
    let mut t: usize = 0;
    while t < raw.len()
        invariant
            t <= raw@.len(),
            first_tool_result(raw@, id@, 0) == first_tool_result(raw@, id@, t as int),
        decreases raw@.len() - t,
    {
        let is_tool = match raw[t].role {
            Role::Tool => true,
            _ => false,
        };
        if is_tool {
            match &raw[t].tool_call_id {
                Some(x) => {
                    if str_equal(x.as_str(), id) {
                        return Some(t);
                    }
                },
                None => {},
            }
        }
        t = t + 1;
    }
    None
}

/// The output recorded in the session for a call with this name and these
/// arguments, if any.
pub fn find_output(raw: &Vec<SessionMessage>, name: &str, arguments: &str) -> (r: Option<String>)
    ensures
        opt_view(r) == found_output(raw@, name@, arguments@),
{
    let mut k: usize = 0;
    while k < raw.len()
        invariant
            k <= raw@.len(),
            first_call_message(raw@, name@, arguments@, 0) == first_call_message(raw@, name@, arguments@, k as int),
        decreases raw@.len() - k,
    {
        match &raw[k].tool_calls {
            Some(cs) => {
                match find_matching_call(cs, name, arguments) {
                    Some(j) => {
                        assert(first_call_message(raw@, name@, arguments@, 0) == Some(k as int));
                        return match find_tool_result(raw, cs[j].id.as_str()) {
                            Some(t) => Some(clone_string(&raw[t].content)),
                            None => None,
                        };
                    },
                    None => {},
                }
            },
            None => {},
        }
        k = k + 1;
    }
    None
}

impl App {
    /// Shows a resumed session: its messages are appended, missing tool
    /// outputs are filled in from the session, and the last message is
    /// selected.
    pub fn load_history(&mut self, raw: &Vec<SessionMessage>)
        ensures
            final(self)@.messages == (old(self)@.messages + history_pass(raw@, Map::empty())).map_values(
                |m: MessageView| patched(m, raw@),
            ),
            final(self)@.input == old(self)@.input,
            final(self)@.is_generating == old(self)@.is_generating,
            final(self)@.selected_index == if final(self)@.messages.len() == 0 {
                None
            } else {
                Some(final(self)@.messages.len() - 1)
            },
    {
        let ghost a = self@;
        let shown = history_messages(raw);
        let mut k: usize = 0;
        let ghost all0 = self@.messages;
        while k < shown.len()
            invariant
                k <= shown@.len(),
                self@.input == a.input,
                self@.is_generating == a.is_generating,
                message_views(self.messages@) == all0 + message_views(shown@).take(k as int),
            decreases shown@.len() - k,
        {
            let m = match &shown[k] {
                AppMessage::Text { role, content } => AppMessage::Text {
                    role: clone_string(role),
                    content: clone_string(content),
                },
                AppMessage::ToolCall { name, arguments, output, is_expanded } => AppMessage::ToolCall {
                    name: clone_string(name),
                    arguments: clone_string(arguments),
                    output: clone_opt(output),
                    is_expanded: *is_expanded,
                },
            };
            let ghost before = message_views(self.messages@);
            self.messages.push(m);
            assert(message_views(self.messages@) =~= before.push(shown@[k as int]@));
            assert(message_views(shown@).take(k + 1) =~= message_views(shown@).take(k as int).push(
                shown@[k as int]@,
            ));
            k = k + 1;
        }
        assert(message_views(shown@).take(k as int) =~= message_views(shown@));
        let ghost all = message_views(self.messages@);
        assert(all == a.messages + history_pass(raw@, Map::empty()));
        let mut i: usize = 0;
        while i < self.messages.len()
            invariant
                i <= self.messages@.len(),
                self.messages@.len() == all.len(),
                self@.input == a.input,
                self@.is_generating == a.is_generating,
                forall|j: int| 0 <= j < i ==> #[trigger] message_views(self.messages@)[j] == patched(all[j], raw@),
                forall|j: int| i <= j < all.len() ==> #[trigger] message_views(self.messages@)[j] == all[j],
            decreases all.len() - i,
        {
            let replacement = match &self.messages[i] {
                AppMessage::ToolCall { name, arguments, output: None, is_expanded } => {
                    match find_output(raw, name.as_str(), arguments.as_str()) {
                        Some(o) => Some(
                            AppMessage::ToolCall {
                                name: clone_string(name),
                                arguments: clone_string(arguments),
                                output: Some(o),
                                is_expanded: *is_expanded,
                            },
                        ),
                        None => None,
                    }
                },
                _ => None,
            };
            let ghost old_views = message_views(self.messages@);
            assert(old_views[i as int] == all[i as int]);
            match replacement {
                Some(r) => {
                    self.messages.set(i, r);
                    assert(message_views(self.messages@) =~= old_views.update(i as int, patched(all[i as int], raw@)));
                },
                None => {
                    assert(patched(all[i as int], raw@) == all[i as int]);
                },
            }
            i = i + 1;
        }
        assert(message_views(self.messages@) =~= all.map_values(|m: MessageView| patched(m, raw@)));
        if self.messages.len() == 0 {
            self.selected_index = None;
        } else {
            self.selected_index = Some(self.messages.len() - 1);
        }
    }
}

} // verus!
