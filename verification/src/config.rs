//! Server configuration.
use vstd::prelude::*;
use vstd::string::*;

use crate::text;
use crate::text::{concat2, concat5, decimal_text};

verus! {

/// The name of the configuration file where none is given.
pub const DEFAULT_CONFIG_FILENAME: &'static str = "touch_config.toml";

/// What stands in the configuration file where there was none.
pub const DEFAULT_CONFIG_STR: &'static str = "# Storage directory\nstorage_directory = \"db_files/\"\n\n# TCP socket to accept connections\ntcp_socket = \"127.0.0.1:7070\"\n\n# Max connection at a time\nmax_connections = 100\n\n# Allowed values:\n# - 1 => Info\n# - 2 => Warn\n# - 3 => Error\nlog_level = 1\n\n# Signifies when database can do background merges of parts, depending on database load\nbackground_merge_available_under = 5";

/// How much is logged.
#[derive(Debug, Clone, Copy, PartialEq, Eq, Structural)]
pub enum LogLevel {
    Info,
    Warn,
    Error,
}

/// An address to accept connections at.
#[derive(Debug, Clone, Copy, PartialEq, Eq)]
pub struct SocketAddress {
    pub octets: (u8, u8, u8, u8),
    pub port: u16,
}

/// Server configuration
#[derive(Debug)]
pub struct Config {
    /// Socket for running TCP connection
    pub tcp_socket: SocketAddress,
    /// Storage directory
    pub storage_directory: String,
    /// Logging level.
    /// ### Allowed values:
    /// - 1 => Info
    /// - 2 => Warn
    /// - 3 => Error
    pub log_level: u8,
    /// Max concurrent connections.
    pub max_connections: usize,
    /// Signifies when database can do background merges of parts, depending on database load
    pub background_merge_available_under: usize,
}

/// The level that a number stands for.
pub open spec fn level_of(n: u8) -> LogLevel {
    if n == 2 {
        LogLevel::Warn
    } else if n == 3 {
        LogLevel::Error
    } else {
        LogLevel::Info
    }
}

/// The name of a level.
pub open spec fn level_name(level: LogLevel) -> Seq<char> {
    match level {
        LogLevel::Info => "Info"@,
        LogLevel::Warn => "Warn"@,
        LogLevel::Error => "Error"@,
    }
}

/// An address as it is written: four numbers with dots between them, a colon, and the port.
pub open spec fn address_text(a: SocketAddress) -> Seq<char> {
    text::decimal(a.octets.0 as nat) + "."@ + text::decimal(a.octets.1 as nat) + "."@ + (text::decimal(
        a.octets.2 as nat,
    ) + "."@ + text::decimal(a.octets.3 as nat) + ":"@ + text::decimal(a.port as nat))
}

impl SocketAddress {
    /// The address as it is written.
    pub fn to_text(&self) -> (r: String)
        ensures
            r@ == address_text(*self),
    {
        let end = concat5(
            decimal_text(self.octets.2 as u64).as_str(),
            ".",
            decimal_text(self.octets.3 as u64).as_str(),
            ":",
            decimal_text(self.port as u64).as_str(),
        );
        concat5(
            decimal_text(self.octets.0 as u64).as_str(),
            ".",
            decimal_text(self.octets.1 as u64).as_str(),
            ".",
            end.as_str(),
        )
    }
}

impl LogLevel {
    /// The name of the level.
    pub fn name(&self) -> (r: &'static str)
        ensures
            r@ == level_name(*self),
    {
        match self {
            LogLevel::Info => "Info",
            LogLevel::Warn => "Warn",
            LogLevel::Error => "Error",
        }
    }
}

impl Config {
    /// Get TCP socket address from configuration
    pub fn get_tcp_socket_addr(&self) -> (r: SocketAddress)
        ensures
            r == self.tcp_socket,
    {
        self.tcp_socket
    }

    /// Get database directory from configuration
    pub fn get_db_dir(&self) -> (r: &String)
        ensures
            *r == self.storage_directory,
    {
        &self.storage_directory
    }

    /// Get logging level from configuration
    pub fn get_log_level(&self) -> (r: LogLevel)
        ensures
            r == level_of(self.log_level),
    {
        match self.log_level {
            2 => LogLevel::Warn,
            3 => LogLevel::Error,
            _ => LogLevel::Info,
        }
    }

    /// Get max connections from configuration
    pub fn get_max_connections(&self) -> (r: usize)
        ensures
            r == self.max_connections,
    {
        self.max_connections
    }

    /// Provides the background merge availability threshold.
    ///
    /// The threshold value used to determine when background merges are allowed
    /// meaning, that database is under low load
    pub fn get_background_merge_available_under(&self) -> (r: usize)
        ensures
            r == self.background_merge_available_under,
    {
        self.background_merge_available_under
    }
}

/// What is logged when the server has started.
pub fn log_startup_info(config: &Config) -> (r: Vec<String>)
    ensures
        r@.len() == 3,
        r@[0]@ == "TCP server listening on "@ + address_text(config.tcp_socket),
        r@[1]@ == "Database directory: "@ + config.storage_directory@,
        r@[2]@ == "Log level: "@ + level_name(level_of(config.log_level)),
{
    let mut lines: Vec<String> = Vec::new();
    lines.push(concat2("TCP server listening on ", config.get_tcp_socket_addr().to_text().as_str()));
    lines.push(concat2("Database directory: ", config.get_db_dir().as_str()));
    lines.push(concat2("Log level: ", config.get_log_level().name()));
    lines
}

/// Refuses machines whose addresses have 32 bits.
pub fn reject_32bit_systems() -> (r: Result<(), String>)
    ensures
        match r {
            Ok(_) => usize::BITS != 32,
            Err(text) => usize::BITS == 32 && text@
                == "32bit systems are not supported, as they are not optimal for OLAP workloads (where the number of rows could exceed easily exceed "@
                + text::decimal(u32::MAX as nat) + ")."@,
        },
{
    if usize::BITS == 32 {
        Err(
            text::concat3(
                "32bit systems are not supported, as they are not optimal for OLAP workloads (where the number of rows could exceed easily exceed ",
                decimal_text(u32::MAX as u64).as_str(),
                ").",
            ),
        )
    } else {
        Ok(())
    }
}

} // verus!
