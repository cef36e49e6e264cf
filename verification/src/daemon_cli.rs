//! The command line of the daemon (`raragd`).
use crate::chunking::types::opt_view;
use crate::cli::{has_arg, has_flag, opt_value, option_value, word_at};
use crate::text::views;
use vstd::prelude::*;

verus! {

#[derive(Debug, Clone, PartialEq, Eq)]
pub enum Command {
    PrintConfig,
    Serve(ServeConfig),
    Help,
}

/// How `raragd serve` runs: its socket and configuration file, and the
/// test switches for deterministic embeddings and an in-memory vector
/// store.
#[derive(Debug, Clone, PartialEq, Eq)]
pub struct ServeConfig {
    pub socket_path: Option<String>,
    pub config_path: Option<String>,
    pub deterministic_embeddings: bool,
    pub memory_vector_store: bool,
}

pub enum CommandView {
    PrintConfig,
    Serve {
        socket_path: Option<Seq<char>>,
        config_path: Option<Seq<char>>,
        deterministic_embeddings: bool,
        memory_vector_store: bool,
    },
    Help,
}

impl View for Command {
    type V = CommandView;

    open spec fn view(&self) -> CommandView {
        match self {
            Command::PrintConfig => CommandView::PrintConfig,
            Command::Help => CommandView::Help,
            Command::Serve(c) => CommandView::Serve {
                socket_path: opt_view(c.socket_path),
                config_path: opt_view(c.config_path),
                deterministic_embeddings: c.deterministic_embeddings,
                memory_vector_store: c.memory_vector_store,
            },
        }
    }
}

/// Help wins over everything, then `--print-config`; `serve` as the first
/// word runs the daemon; anything else asks for help.
pub open spec fn daemon_command(args: Seq<Seq<char>>) -> CommandView {
    if has_arg(args, "--help"@) || has_arg(args, "-h"@) {
        CommandView::Help
    } else if has_arg(args, "--print-config"@) {
        CommandView::PrintConfig
    } else if word_at(args, 1) == Some("serve"@) {
        CommandView::Serve {
            socket_path: opt_value(args, "--socket"@),
            config_path: opt_value(args, "--config"@),
            deterministic_embeddings: has_arg(args, "--test-deterministic-embeddings"@),
            memory_vector_store: has_arg(args, "--test-memory-vector-store"@),
        }
    } else {
        CommandView::Help
    }
}

pub fn parse_args(args: &[String]) -> (r: Result<Command, String>)
    ensures
        r is Ok && r->Ok_0@ == daemon_command(views(args@)),
{
    if has_flag(args, "--help") || has_flag(args, "-h") {
        return Ok(Command::Help);
    }
    if has_flag(args, "--print-config") {
        return Ok(Command::PrintConfig);
    }
    if args.len() > 1 && crate::text::str_equal(args[1].as_str(), "serve") {
        return Ok(
            Command::Serve(
                ServeConfig {
                    socket_path: option_value(args, "--socket"),
                    config_path: option_value(args, "--config"),
                    deterministic_embeddings: has_flag(args, "--test-deterministic-embeddings"),
                    memory_vector_store: has_flag(args, "--test-memory-vector-store"),
                },
            ),
        );
    }
    Ok(Command::Help)
}

/// The path of a local database URL (`file:<path>`).
pub fn local_database_path(database_url: &str) -> (r: Result<String, String>)
    ensures
        crate::text::occurs_at(database_url@, "file:"@, 0) ==> r is Ok && r->Ok_0@ == database_url@.skip(5),
        !crate::text::occurs_at(database_url@, "file:"@, 0) ==> r is Err && r->Err_0@
            == "unsupported local database url: "@ + database_url@,
{
    proof {
        reveal_strlit("file:");
    }
    if crate::text::str_starts_with(database_url, "file:") {
        let cs = crate::text::chars_of(database_url);
        assert(cs@.subrange(5, cs@.len() as int) =~= database_url@.skip(5));
        Ok(crate::text::string_from_range(cs.as_slice(), 5, cs.len()))
    } else {
        let mut e = crate::chunking::types::lit("unsupported local database url: ");
        crate::text::push_str(&mut e, database_url);
        Err(e)
    }
}

} // verus!
