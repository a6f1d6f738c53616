//! The commands of the command line.
//!
//! ```text
//! endpoint create [name]
//! endpoint read [name]
//! ping listen [name]
//! ping connect [name] <target>
//! sync listen <name>
//! sync push <from> <to>
//! ```
//!
//! Where a name may be left out, the alias `secret` is meant.

use crate::text::{same_text, texts};
use vstd::prelude::*;

verus! {

/// What the command line asks for.
#[derive(Debug, PartialEq, Eq)]
pub enum Command {
    /// Make a new key and store it under this alias.
    EndpointCreate(String),
    /// Show the public key of this alias.
    EndpointRead(String),
    /// Wait for a ping as this alias.
    PingListen(String),
    /// Ping, as the first alias, the peer with the second as its identity.
    PingConnect(String, String),
    /// Receive synchronizations as this alias.
    SyncListen(String),
    /// Push the mirror directory of the first alias to the second.
    SyncPush(String, String),
    /// Anything else: the usage is shown and the program fails.
    Unknown,
}

/// A command, with its names as characters.
pub enum CommandView {
    EndpointCreate(Seq<char>),
    EndpointRead(Seq<char>),
    PingListen(Seq<char>),
    PingConnect(Seq<char>, Seq<char>),
    SyncListen(Seq<char>),
    SyncPush(Seq<char>, Seq<char>),
    Unknown,
}

impl View for Command {
    type V = CommandView;

    open spec fn view(&self) -> CommandView {
        match *self {
            Command::EndpointCreate(a) => CommandView::EndpointCreate(a@),
            Command::EndpointRead(a) => CommandView::EndpointRead(a@),
            Command::PingListen(a) => CommandView::PingListen(a@),
            Command::PingConnect(a, b) => CommandView::PingConnect(a@, b@),
            Command::SyncListen(a) => CommandView::SyncListen(a@),
            Command::SyncPush(a, b) => CommandView::SyncPush(a@, b@),
            Command::Unknown => CommandView::Unknown,
        }
    }
}

/// The alias that is meant where none is given.
pub open spec fn default_alias() -> Seq<char> {
    "secret"@
}

/// The command that the arguments spell.
pub open spec fn command_of(args: Seq<Seq<char>>) -> CommandView {
    if args.len() < 2 || args.len() > 4 {
        CommandView::Unknown
    } else if args[0] == "endpoint"@ && args[1] == "create"@ {
        if args.len() == 2 {
            CommandView::EndpointCreate(default_alias())
        } else if args.len() == 3 {
            CommandView::EndpointCreate(args[2])
        } else {
            CommandView::Unknown
        }
    } else if args[0] == "endpoint"@ && args[1] == "read"@ {
        if args.len() == 2 {
            CommandView::EndpointRead(default_alias())
        } else if args.len() == 3 {
            CommandView::EndpointRead(args[2])
        } else {
            CommandView::Unknown
        }
    } else if args[0] == "ping"@ && args[1] == "listen"@ {
        if args.len() == 2 {
            CommandView::PingListen(default_alias())
        } else if args.len() == 3 {
            CommandView::PingListen(args[2])
        } else {
            CommandView::Unknown
        }
    } else if args[0] == "ping"@ && args[1] == "connect"@ {
        if args.len() == 3 {
            CommandView::PingConnect(default_alias(), args[2])
        } else if args.len() == 4 {
            CommandView::PingConnect(args[2], args[3])
        } else {
            CommandView::Unknown
        }
    } else if args[0] == "sync"@ && args[1] == "listen"@ {
        if args.len() == 3 {
            CommandView::SyncListen(args[2])
        } else {
            CommandView::Unknown
        }
    } else if args[0] == "sync"@ && args[1] == "push"@ {
        if args.len() == 4 {
            CommandView::SyncPush(args[2], args[3])
        } else {
            CommandView::Unknown
        }
    } else {
        CommandView::Unknown
    }
}

/// The alias at place `i` of the arguments, or `secret` where the
/// arguments end before it.
fn alias_at(args: &Vec<String>, i: usize) -> (alias: String)
    ensures
        alias@ == if i < args@.len() {
            args@[i as int]@
        } else {
            default_alias()
        },
{
    if i < args.len() {
        args[i].clone()
    } else {
        String::from_str("secret")
    }
}

/// Reads the arguments of the command line, without the program's name.
pub fn parse_command(args: &Vec<String>) -> (command: Command)
    ensures
        command@ == command_of(texts(args@)),
{
    let n = args.len();
    if n < 2 || n > 4 {
        return Command::Unknown;
    }
    let group = args[0].as_str();
    let verb = args[1].as_str();
    if same_text(group, "endpoint") && same_text(verb, "create") {
        if n <= 3 {
            Command::EndpointCreate(alias_at(args, 2))
        } else {
            Command::Unknown
        }
    } else if same_text(group, "endpoint") && same_text(verb, "read") {
        if n <= 3 {
            Command::EndpointRead(alias_at(args, 2))
        } else {
            Command::Unknown
        }
    } else if same_text(group, "ping") && same_text(verb, "listen") {
        if n <= 3 {
            Command::PingListen(alias_at(args, 2))
        } else {
            Command::Unknown
        }
    } else if same_text(group, "ping") && same_text(verb, "connect") {
        if n == 3 {
            Command::PingConnect(String::from_str("secret"), args[2].clone())
        } else if n == 4 {
            Command::PingConnect(args[2].clone(), args[3].clone())
        } else {
            Command::Unknown
        }
    } else if same_text(group, "sync") && same_text(verb, "listen") {
        if n == 3 {
            Command::SyncListen(args[2].clone())
        } else {
            Command::Unknown
        }
    } else if same_text(group, "sync") && same_text(verb, "push") {
        if n == 4 {
            Command::SyncPush(args[2].clone(), args[3].clone())
        } else {
            Command::Unknown
        }
    } else {
        Command::Unknown
    }
}

} // verus!
