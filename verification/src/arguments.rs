//! The command-line surface of the tool, as plain data. A thin front end
//! owns the actual argument parsing and hands a value of these types in.

use vstd::prelude::*;

verus! {

/// Top-level invocation: one subcommand plus the global switches.
#[derive(Debug)]
pub struct Arguments {
    pub command: Command,
    /// Print additional debug information.
    pub debug: bool,
    /// Omit the blank line between servers.
    pub no_space: bool,
}

/// The two things the tool can do.
#[derive(Debug)]
pub enum Command {
    /// Listen for servers opened to LAN; `once` stops after the first.
    Lan { once: bool },
    /// Query a list of servers.
    Ping(PingCommand),
}

/// Options of the `ping` subcommand.
#[derive(Debug)]
pub struct PingCommand {
    /// Server addresses to query.
    pub servers: Vec<String>,
    /// Omit the list of sampled player names.
    pub no_players: bool,
    /// Host names to send in the handshake instead of the dialled ones.
    pub hosts: Vec<String>,
    /// Print additional fields of the status reply.
    pub verbose: bool,
    /// Maximum width of all rendered lines, in columns.
    pub width: usize,
    /// Columns of space after the server icon.
    pub padding: Option<u16>,
    /// Height of the server icon, in terminal rows.
    pub icon_size: u16,
}

} // verus!
