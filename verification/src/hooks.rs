//! Event hooks management: list, add, remove, enable, disable and test the
//! hooks of the configuration.
//!
//! `run` decides what a `hooks` command does to the list of configured hooks
//! and what it reports; loading and saving the configuration, asking for
//! confirmation and running a hook's command are left to the caller.
use vstd::prelude::*;

use crate::strings::{lowercase, str_equal, to_lowercase};
use crate::text::{joined, owned, push_str};
use crate::whitespace::{trim, trim_str};

verus! {

broadcast use vstd::string::group_string_axioms;

/// A configured event hook.
pub struct HookConfig {
    pub name: String,
    pub event: String,
    pub command: String,
    pub filter: Option<String>,
    pub enabled: bool,
}

/// Arguments of the `hooks` command.
pub struct HooksArgs {
    pub command: HooksCommands,
}

/// The `hooks` subcommands.
pub enum HooksCommands {
    /// List all configured hooks
    List,
    /// Add a new event hook
    Add(AddArgs),
    /// Remove a hook by name
    Remove(RemoveArgs),
    /// Enable a disabled hook
    Enable(EnableArgs),
    /// Disable a hook without removing it
    Disable(DisableArgs),
    /// Test a hook by simulating an event
    Test(TestArgs),
}

/// Arguments of `hooks add`.
pub struct AddArgs {
    /// Event type
    pub event: String,
    /// Command to execute (shell command)
    pub command: String,
    /// Unique name for this hook (generated if not provided)
    pub name: Option<String>,
    /// Only trigger when this condition is met
    pub filter: Option<String>,
}

/// Arguments of `hooks remove`.
pub struct RemoveArgs {
    /// Name of the hook to remove
    pub name: String,
    /// Skip confirmation prompt
    pub force: bool,
}

/// Arguments of `hooks enable`.
pub struct EnableArgs {
    /// Name of the hook to enable
    pub name: String,
}

/// Arguments of `hooks disable`.
pub struct DisableArgs {
    /// Name of the hook to disable
    pub name: String,
}

/// Arguments of `hooks test`.
pub struct TestArgs {
    /// Name of the hook to test
    pub name: String,
    /// JSON payload to pass to the hook (simulated event data)
    pub payload: Option<String>,
}

/// Supported hook events.
pub open spec fn valid_events() -> Seq<Seq<char>> {
    seq![
        "onMessage"@,
        "onToolCall"@,
        "onSessionStart"@,
        "onSessionEnd"@,
        "beforeToolCall"@,
        "afterToolCall"@,
        "onHeartbeat"@,
        "onError"@,
    ]
}

/// The supported events, in order.
pub fn valid_event_names() -> (r: [&'static str; 8])
    ensures
        r@.map_values(|e: &str| e@) == valid_events(),
{
    let r = [
        "onMessage",
        "onToolCall",
        "onSessionStart",
        "onSessionEnd",
        "beforeToolCall",
        "afterToolCall",
        "onHeartbeat",
        "onError",
    ];
    assert(r@.map_values(|e: &str| e@) =~= valid_events());
    r
}

/// Whether `event` is one of the supported events.
pub fn is_valid_event(event: &str) -> (r: bool)
    ensures
        r == valid_events().contains(event@),
{
    let events = valid_event_names();
    let mut i: usize = 0;
    while i < 8
        invariant
            events@.map_values(|e: &str| e@) == valid_events(),
            i <= 8,
            forall|j: int| 0 <= j < i ==> valid_events()[j] != event@,
        decreases 8 - i,
    {
        assert(valid_events()[i as int] == events@[i as int]@);
        if str_equal(event, events[i]) {
            return true;
        }
        i = i + 1;
    }
    false
}

/// The supported events separated by ", ".
pub fn valid_events_list() -> (s: String)
    ensures
        s@ == joined(valid_events(), ", "@),
{
    let events = valid_event_names();
    let mut s = owned(events[0]);
    let mut i: usize = 1;
    assert(valid_events().take(1).drop_last() =~= Seq::<Seq<char>>::empty());
    assert(s@ == joined(valid_events().take(1), ", "@)) by {
        assert(valid_events()[0] == events@[0]@);
    }
    while i < 8
        invariant
            events@.map_values(|e: &str| e@) == valid_events(),
            1 <= i <= 8,
            s@ == joined(valid_events().take(i as int), ", "@),
        decreases 8 - i,
    {
        assert(valid_events()[i as int] == events@[i as int]@);
        assert(valid_events().take(i + 1).drop_last() =~= valid_events().take(i as int));
        push_str(&mut s, ", ");
        push_str(&mut s, events[i]);
        i = i + 1;
    }
    assert(valid_events().take(8) =~= valid_events());
    s
}

/// Why a hooks command fails.
pub enum HookError {
    /// The event is not one of the supported events.
    InvalidEvent { event: String },
    /// A hook with this name exists already.
    DuplicateName { name: String },
    /// No hook has this name.
    NotFound { name: String },
}

/// The human-readable text of a hooks error.
pub open spec fn hook_error_text(e: HookError) -> Seq<char> {
    match e {
        HookError::InvalidEvent { event } => "Invalid event type '"@ + event@ + "'. Valid events: "@
            + joined(valid_events(), ", "@),
        HookError::DuplicateName { name } => "A hook named '"@ + name@
            + "' already exists. Use a different name with --name."@,
        HookError::NotFound { name } => "Hook '"@ + name@ + "' not found"@,
    }
}

impl HookError {
    /// The human-readable text of this error.
    pub fn message(&self) -> (s: String)
        ensures
            s@ == hook_error_text(*self),
    {
        match self {
            HookError::InvalidEvent { event } => {
                let mut s = owned("Invalid event type '");
                push_str(&mut s, event.as_str());
                push_str(&mut s, "'. Valid events: ");
                let list = valid_events_list();
                push_str(&mut s, list.as_str());
                s
            },
            HookError::DuplicateName { name } => {
                let mut s = owned("A hook named '");
                push_str(&mut s, name.as_str());
                push_str(&mut s, "' already exists. Use a different name with --name.");
                s
            },
            HookError::NotFound { name } => {
                let mut s = owned("Hook '");
                push_str(&mut s, name.as_str());
                push_str(&mut s, "' not found");
                s
            },
        }
    }
}

/// What a hooks command did, for the caller to report (and, where the
/// hooks changed, to save).
pub enum HookOutcome {
    /// The hooks are to be listed; nothing changed.
    Listed,
    /// A hook was added under this name.
    Added { name: String },
    /// The hook at this index is to be removed once the user confirms;
    /// nothing changed yet.
    ConfirmRemoval { index: usize },
    /// The hook was removed.
    Removed { name: String },
    /// The hook was enabled already; nothing changed.
    AlreadyEnabled { name: String },
    /// The hook was enabled.
    Enabled { name: String },
    /// The hook was disabled already; nothing changed.
    AlreadyDisabled { name: String },
    /// The hook was disabled.
    Disabled { name: String },
    /// The hook is to be run with this event and payload; nothing changed.
    Test { name: String, event: String, command: String, payload: String },
}

impl HookOutcome {
    /// Whether the hooks changed, so that the configuration must be saved.
    pub fn changes_config(&self) -> (r: bool)
        ensures
            r == (self is Added || self is Removed || self is Enabled || self is Disabled),
    {
        match self {
            HookOutcome::Added { .. } => true,
            HookOutcome::Removed { .. } => true,
            HookOutcome::Enabled { .. } => true,
            HookOutcome::Disabled { .. } => true,
            _ => false,
        }
    }
}

/// The index of the first hook named `name`, if any.
pub open spec fn first_named(hooks: Seq<HookConfig>, name: Seq<char>) -> Option<int> {
    if exists|i: int| 0 <= i < hooks.len() && #[trigger] hooks[i].name@ == name {
        Some(
            choose|i: int|
                0 <= i < hooks.len() && #[trigger] hooks[i].name@ == name && forall|j: int|
                    0 <= j < i ==> hooks[j].name@ != name,
        )
    } else {
        None
    }
}

/// Whether `i` is the index of the first hook named `name`.
pub open spec fn is_first_named(hooks: Seq<HookConfig>, name: Seq<char>, i: int) -> bool {
    &&& 0 <= i < hooks.len()
    &&& hooks[i].name@ == name
    &&& forall|j: int| 0 <= j < i ==> hooks[j].name@ != name
}

fn find_hook(hooks: &Vec<HookConfig>, name: &str) -> (r: Option<usize>)
    ensures
        match r {
            Some(i) => is_first_named(hooks@, name@, i as int),
            None => forall|j: int| 0 <= j < hooks@.len() ==> #[trigger] hooks@[j].name@ != name@,
        },
{
    let mut i: usize = 0;
    while i < hooks.len()
        invariant
            i <= hooks@.len(),
            forall|j: int| 0 <= j < i ==> #[trigger] hooks@[j].name@ != name@,
        decreases hooks@.len() - i,
    {
        if str_equal(hooks[i].name.as_str(), name) {
            return Some(i);
        }
        i = i + 1;
    }
    None
}

/// The first hook named `name` is the one at index `i`.
proof fn lemma_first_named(hooks: Seq<HookConfig>, name: Seq<char>, i: int)
    requires
        is_first_named(hooks, name, i),
    ensures
        first_named(hooks, name) == Some(i),
{
    assert(hooks[i].name@ == name);
    let k = choose|k: int|
        0 <= k < hooks.len() && #[trigger] hooks[k].name@ == name && forall|j: int|
            0 <= j < k ==> hooks[j].name@ != name;
    assert(is_first_named(hooks, name, k));
    if k < i {
        assert(hooks[k].name@ != name);
    }
    if k > i {
        assert(hooks[i].name@ != name);
    }
}

/// The name generated for a hook on `event` at time `stamp`.
pub open spec fn generated_name(event: Seq<char>, stamp: Seq<char>) -> Seq<char> {
    "hook-"@ + lowercase(event) + "-"@ + stamp
}

/// The hook that `hooks add` creates under `name`.
pub open spec fn new_hook_matches(h: HookConfig, args: AddArgs, name: Seq<char>) -> bool {
    &&& h.name@ == name
    &&& h.event == args.event
    &&& h.command == args.command
    &&& h.filter == args.filter
    &&& h.enabled
}

/// `hooks` with the `enabled` flag of the hook at `i` set to `on`.
pub open spec fn with_enabled(hooks: Seq<HookConfig>, i: int, on: bool) -> Seq<HookConfig> {
    hooks.update(
        i,
        HookConfig {
            name: hooks[i].name,
            event: hooks[i].event,
            command: hooks[i].command,
            filter: hooks[i].filter,
            enabled: on,
        },
    )
}

/// The payload sent by `hooks test` when none is given.
pub open spec fn default_payload() -> Seq<char> {
    "{\"test\": true}"@
}

/// The hooks are unchanged and the answer is that no hook has this name.
pub open spec fn not_found(
    old_hooks: Seq<HookConfig>,
    new_hooks: Seq<HookConfig>,
    r: Result<HookOutcome, HookError>,
    wanted: String,
) -> bool {
    &&& new_hooks == old_hooks
    &&& r matches Err(HookError::NotFound { name }) && name == wanted
}

/// What `run` does for `hooks add`.
pub open spec fn add_outcome(
    a: AddArgs,
    stamp: Seq<char>,
    old_hooks: Seq<HookConfig>,
    new_hooks: Seq<HookConfig>,
    r: Result<HookOutcome, HookError>,
) -> bool {
    if !valid_events().contains(a.event@) {
        &&& new_hooks == old_hooks
        &&& r matches Err(HookError::InvalidEvent { event }) && event == a.event
    } else {
        match r {
            Ok(HookOutcome::Added { name }) => {
                &&& match a.name {
                    Some(n) => name == n,
                    None => name@ == generated_name(a.event@, stamp),
                }
                &&& forall|j: int| 0 <= j < old_hooks.len() ==> #[trigger] old_hooks[j].name@ != name@
                &&& new_hooks.len() == old_hooks.len() + 1
                &&& new_hooks.drop_last() == old_hooks
                &&& new_hook_matches(new_hooks.last(), a, name@)
            },
            Err(HookError::DuplicateName { name }) => {
                &&& match a.name {
                    Some(n) => name == n,
                    None => name@ == generated_name(a.event@, stamp),
                }
                &&& exists|j: int| 0 <= j < old_hooks.len() && #[trigger] old_hooks[j].name@ == name@
                &&& new_hooks == old_hooks
            },
            _ => false,
        }
    }
}

/// What `run` does for `hooks enable` (`on`) or `hooks disable` (`!on`).
pub open spec fn toggle_outcome(
    wanted: String,
    on: bool,
    old_hooks: Seq<HookConfig>,
    new_hooks: Seq<HookConfig>,
    r: Result<HookOutcome, HookError>,
) -> bool {
    match first_named(old_hooks, wanted@) {
        None => not_found(old_hooks, new_hooks, r, wanted),
        Some(i) => if old_hooks[i].enabled == on {
            &&& new_hooks == old_hooks
            &&& if on {
                r matches Ok(HookOutcome::AlreadyEnabled { name }) && name == wanted
            } else {
                r matches Ok(HookOutcome::AlreadyDisabled { name }) && name == wanted
            }
        } else {
            &&& new_hooks == with_enabled(old_hooks, i, on)
            &&& if on {
                r matches Ok(HookOutcome::Enabled { name }) && name == wanted
            } else {
                r matches Ok(HookOutcome::Disabled { name }) && name == wanted
            }
        },
    }
}

/// What `run` does for each command: the hooks after the command and the
/// outcome reported, or the error.
pub open spec fn run_outcome(
    args: HooksArgs,
    stamp: Seq<char>,
    old_hooks: Seq<HookConfig>,
    new_hooks: Seq<HookConfig>,
    r: Result<HookOutcome, HookError>,
) -> bool {
    match args.command {
        HooksCommands::List => new_hooks == old_hooks && r == Ok::<HookOutcome, HookError>(
            HookOutcome::Listed,
        ),
        HooksCommands::Add(a) => add_outcome(a, stamp, old_hooks, new_hooks, r),
        HooksCommands::Remove(a) => match first_named(old_hooks, a.name@) {
            None => not_found(old_hooks, new_hooks, r, a.name),
            Some(i) => if a.force {
                &&& new_hooks == old_hooks.remove(i)
                &&& r matches Ok(HookOutcome::Removed { name }) && name == a.name
            } else {
                &&& new_hooks == old_hooks
                &&& r == Ok::<HookOutcome, HookError>(HookOutcome::ConfirmRemoval { index: i as usize })
            },
        },
        HooksCommands::Enable(a) => toggle_outcome(a.name, true, old_hooks, new_hooks, r),
        HooksCommands::Disable(a) => toggle_outcome(a.name, false, old_hooks, new_hooks, r),
        HooksCommands::Test(a) => match first_named(old_hooks, a.name@) {
            None => not_found(old_hooks, new_hooks, r, a.name),
            Some(i) => {
                &&& new_hooks == old_hooks
                &&& r matches Ok(HookOutcome::Test { name, event, command, payload })
                    && name == old_hooks[i].name && event == old_hooks[i].event
                    && command == old_hooks[i].command && payload@ == match a.payload {
                    Some(p) => p@,
                    None => default_payload(),
                }
            },
        },
    }
}

fn clone_hook_string(s: &String) -> (r: String)
    ensures
        r == *s,
{
    s.clone()
}

/// Apply a `hooks` command to the configured hooks. `stamp` is the current
/// time as `%Y%m%d-%H%M%S`, used to name a hook added without a name.
pub fn run(args: HooksArgs, stamp: &str, hooks: &mut Vec<HookConfig>) -> (r: Result<HookOutcome, HookError>)
    ensures
        run_outcome(args, stamp@, old(hooks)@, final(hooks)@, r),
{
    match args.command {
        HooksCommands::List => Ok(HookOutcome::Listed),
        HooksCommands::Add(a) => {
            if !is_valid_event(a.event.as_str()) {
                return Err(HookError::InvalidEvent { event: a.event });
            }
            let name = match a.name {
                Some(n) => n,
                None => {
                    let mut n = owned("hook-");
                    let lower = to_lowercase(a.event.as_str());
                    push_str(&mut n, lower.as_str());
                    push_str(&mut n, "-");
                    push_str(&mut n, stamp);
                    assert(n@ == generated_name(a.event@, stamp@));
                    n
                },
            };
            match find_hook(hooks, name.as_str()) {
                Some(i) => {
                    assert(hooks@[i as int].name@ == name@);
                    return Err(HookError::DuplicateName { name });
                },
                None => {},
            }
            let stored = clone_hook_string(&name);
            hooks.push(
                HookConfig {
                    name: stored,
                    event: a.event,
                    command: a.command,
                    filter: a.filter,
                    enabled: true,
                },
            );
            assert(hooks@.drop_last() =~= old(hooks)@);
            Ok(HookOutcome::Added { name })
        },
        HooksCommands::Remove(a) => {
            match find_hook(hooks, a.name.as_str()) {
                None => Err(HookError::NotFound { name: a.name }),
                Some(i) => {
                    proof {
                        lemma_first_named(hooks@, a.name@, i as int);
                    }
                    if !a.force {
                        return Ok(HookOutcome::ConfirmRemoval { index: i });
                    }
                    hooks.remove(i);
                    Ok(HookOutcome::Removed { name: a.name })
                },
            }
        },
        HooksCommands::Enable(a) => {
            match find_hook(hooks, a.name.as_str()) {
                None => Err(HookError::NotFound { name: a.name }),
                Some(i) => {
                    proof {
                        lemma_first_named(hooks@, a.name@, i as int);
                    }
                    if hooks[i].enabled {
                        return Ok(HookOutcome::AlreadyEnabled { name: a.name });
                    }
                    set_enabled(hooks, i, true);
                    Ok(HookOutcome::Enabled { name: a.name })
                },
            }
        },
        HooksCommands::Disable(a) => {
            match find_hook(hooks, a.name.as_str()) {
                None => Err(HookError::NotFound { name: a.name }),
                Some(i) => {
                    proof {
                        lemma_first_named(hooks@, a.name@, i as int);
                    }
                    if !hooks[i].enabled {
                        return Ok(HookOutcome::AlreadyDisabled { name: a.name });
                    }
                    set_enabled(hooks, i, false);
                    Ok(HookOutcome::Disabled { name: a.name })
                },
            }
        },
        HooksCommands::Test(a) => {
            match find_hook(hooks, a.name.as_str()) {
                None => Err(HookError::NotFound { name: a.name }),
                Some(i) => {
                    proof {
                        lemma_first_named(hooks@, a.name@, i as int);
                    }
                    let payload = match a.payload {
                        Some(p) => p,
                        None => owned("{\"test\": true}"),
                    };
                    Ok(
                        HookOutcome::Test {
                            name: clone_hook_string(&hooks[i].name),
                            event: clone_hook_string(&hooks[i].event),
                            command: clone_hook_string(&hooks[i].command),
                            payload,
                        },
                    )
                },
            }
        },
    }
}

fn set_enabled(hooks: &mut Vec<HookConfig>, i: usize, on: bool)
    requires
        i < old(hooks)@.len(),
    ensures
        final(hooks)@ == with_enabled(old(hooks)@, i as int, on),
{
    let h = HookConfig {
        name: clone_hook_string(&hooks[i].name),
        event: clone_hook_string(&hooks[i].event),
        command: clone_hook_string(&hooks[i].command),
        filter: clone_opt(&hooks[i].filter),
        enabled: on,
    };
    hooks.set(i, h);
}

fn clone_opt(s: &Option<String>) -> (r: Option<String>)
    ensures
        r == *s,
{
    match s {
        Some(x) => Some(x.clone()),
        None => None,
    }
}

/// Whether an answer to the removal prompt confirms it: after trimming, it
/// is `y` in either case.
pub fn confirmed(answer: &str) -> (r: bool)
    ensures
        r == (trim(answer@) == "y"@ || trim(answer@) == "Y"@),
{
    let t = trim_str(answer);
    str_equal(t.as_str(), "y") || str_equal(t.as_str(), "Y")
}

} // verus!

verus! {

/// No two hooks share a name.
pub open spec fn unique_names(hooks: Seq<HookConfig>) -> bool {
    forall|i: int, j: int|
        0 <= i < hooks.len() && 0 <= j < hooks.len() && i != j ==> #[trigger] hooks[i].name@
            != #[trigger] hooks[j].name@
}

/// Every hooks command keeps hook names unique: adding refuses a name in
/// use, and the other commands only remove hooks or change their flag.
pub proof fn law_run_keeps_names_unique(
    args: HooksArgs,
    stamp: Seq<char>,
    old_hooks: Seq<HookConfig>,
    new_hooks: Seq<HookConfig>,
    r: Result<HookOutcome, HookError>,
)
    requires
        unique_names(old_hooks),
        run_outcome(args, stamp, old_hooks, new_hooks, r),
    ensures
        unique_names(new_hooks),
{
    match args.command {
        HooksCommands::Add(a) => {
            if valid_events().contains(a.event@) {
                if let Ok(HookOutcome::Added { name }) = r {
                    assert forall|i: int, j: int|
                        0 <= i < new_hooks.len() && 0 <= j < new_hooks.len() && i != j implies #[trigger] new_hooks[i].name@
                        != #[trigger] new_hooks[j].name@ by {
                        let n = old_hooks.len() as int;
                        if i < n && j < n {
                            assert(new_hooks[i] == new_hooks.drop_last()[i]);
                            assert(new_hooks[j] == new_hooks.drop_last()[j]);
                        } else if i < n {
                            assert(new_hooks[i] == old_hooks[i]);
                        } else {
                            assert(new_hooks[j] == old_hooks[j]);
                        }
                    }
                }
            }
        },
        HooksCommands::Remove(a) => {
            if let Some(k) = first_named(old_hooks, a.name@) {
                if a.force {
                    assert forall|i: int, j: int|
                        0 <= i < new_hooks.len() && 0 <= j < new_hooks.len() && i != j implies #[trigger] new_hooks[i].name@
                        != #[trigger] new_hooks[j].name@ by {
                        let oi = if i < k { i } else { i + 1 };
                        let oj = if j < k { j } else { j + 1 };
                        assert(new_hooks[i] == old_hooks[oi]);
                        assert(new_hooks[j] == old_hooks[oj]);
                    }
                }
            }
        },
        HooksCommands::Enable(a) => {
            if let Some(k) = first_named(old_hooks, a.name@) {
                assert forall|i: int, j: int|
                    0 <= i < new_hooks.len() && 0 <= j < new_hooks.len() && i != j implies #[trigger] new_hooks[i].name@
                    != #[trigger] new_hooks[j].name@ by {
                    assert(new_hooks[i].name == old_hooks[i].name);
                    assert(new_hooks[j].name == old_hooks[j].name);
                }
            }
        },
        HooksCommands::Disable(a) => {
            if let Some(k) = first_named(old_hooks, a.name@) {
                assert forall|i: int, j: int|
                    0 <= i < new_hooks.len() && 0 <= j < new_hooks.len() && i != j implies #[trigger] new_hooks[i].name@
                    != #[trigger] new_hooks[j].name@ by {
                    assert(new_hooks[i].name == old_hooks[i].name);
                    assert(new_hooks[j].name == old_hooks[j].name);
                }
            }
        },
        _ => {},
    }
}

/// Disabling an enabled hook and enabling it again restores the hooks.
pub proof fn law_disable_then_enable(hooks: Seq<HookConfig>, i: int)
    requires
        0 <= i < hooks.len(),
        hooks[i].enabled,
    ensures
        with_enabled(with_enabled(hooks, i, false), i, true) == hooks,
{
    assert(with_enabled(with_enabled(hooks, i, false), i, true) =~= hooks);
}

/// With unique names, adding a hook and then force-removing it by its name
/// restores the hooks.
pub proof fn law_add_then_remove(old_hooks: Seq<HookConfig>, added: Seq<HookConfig>, name: Seq<char>)
    requires
        unique_names(old_hooks),
        added.len() == old_hooks.len() + 1,
        added.drop_last() == old_hooks,
        added.last().name@ == name,
        forall|j: int| 0 <= j < old_hooks.len() ==> #[trigger] old_hooks[j].name@ != name,
    ensures
        first_named(added, name) == Some(old_hooks.len() as int),
        added.remove(old_hooks.len() as int) == old_hooks,
{
    let n = old_hooks.len() as int;
    assert forall|j: int| 0 <= j < n implies added[j].name@ != name by {
        assert(added[j] == added.drop_last()[j]);
    }
    lemma_first_named(added, name, n);
    assert(added.remove(n) =~= old_hooks);
}

} // verus!
