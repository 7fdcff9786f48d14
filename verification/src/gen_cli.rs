//! The `gen` subcommand of the CLI, which hands over to the `localgpt-gen`
//! binary: the arguments that binary is started with.
use vstd::prelude::*;

use crate::text::owned;

verus! {

broadcast use vstd::string::group_string_axioms;

/// Arguments of the `gen` subcommand.
pub struct GenArgs {
    pub command: Option<GenCommands>,
    /// Initial prompt (interactive mode only)
    pub prompt: Option<String>,
    /// Load a glTF/GLB scene at startup
    pub scene: Option<String>,
}

/// The `gen` subcommands.
pub enum GenCommands {
    /// Run as MCP server (stdio)
    McpServer,
    /// Control an external avatar (headless)
    Control {
        /// URL of the external app
        url: String,
        /// Initial prompt
        prompt: Option<String>,
    },
}

/// The single-element list of an optional argument.
pub open spec fn optional_arg(o: Option<String>) -> Seq<Seq<char>> {
    match o {
        Some(s) => seq![s@],
        None => Seq::empty(),
    }
}

/// The arguments `localgpt-gen` is started with: the global flags, then the
/// subcommand (or the initial prompt).
pub open spec fn child_args_spec(args: GenArgs, agent_id: Seq<char>, verbose: bool) -> Seq<Seq<char>> {
    seq!["--agent"@, agent_id] + (if verbose {
        seq!["--verbose"@]
    } else {
        Seq::empty()
    }) + match args.scene {
        Some(s) => seq!["--scene"@, s@],
        None => Seq::empty(),
    } + match args.command {
        Some(GenCommands::McpServer) => seq!["mcp-server"@],
        Some(GenCommands::Control { url, prompt }) => seq!["control"@, url@] + optional_arg(prompt),
        None => optional_arg(args.prompt),
    }
}

/// The views of a list of strings.
pub open spec fn arg_views(v: Seq<String>) -> Seq<Seq<char>> {
    v.map_values(|x: String| x@)
}

fn push_arg(v: &mut Vec<String>, s: String)
    ensures
        arg_views(final(v)@) == arg_views(old(v)@).push(s@),
{
    v.push(s);
    assert(arg_views(v@) =~= arg_views(old(v)@).push(s@));
}

/// The arguments `localgpt-gen` is started with for `gen`.
pub fn child_args(args: GenArgs, agent_id: &str, verbose: bool) -> (r: Vec<String>)
    ensures
        arg_views(r@) == child_args_spec(args, agent_id@, verbose),
{
    let ghost spec_args = args;
    let mut v: Vec<String> = Vec::new();
    push_arg(&mut v, owned("--agent"));
    push_arg(&mut v, owned(agent_id));
    if verbose {
        push_arg(&mut v, owned("--verbose"));
    }
    match args.scene {
        Some(s) => {
            push_arg(&mut v, owned("--scene"));
            push_arg(&mut v, s);
        },
        None => {},
    }
    match args.command {
        Some(GenCommands::McpServer) => {
            push_arg(&mut v, owned("mcp-server"));
        },
        Some(GenCommands::Control { url, prompt }) => {
            push_arg(&mut v, owned("control"));
            push_arg(&mut v, url);
            match prompt {
                Some(p) => {
                    push_arg(&mut v, p);
                },
                None => {},
            }
        },
        None => {
            match args.prompt {
                Some(p) => {
                    push_arg(&mut v, p);
                },
                None => {},
            }
        },
    }
    assert(arg_views(v@) =~= child_args_spec(spec_args, agent_id@, verbose));
    v
}

} // verus!
