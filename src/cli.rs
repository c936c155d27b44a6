//! What a user can ask of the tool.

use crate::sgd::SGDCommands;
use vstd::prelude::*;

verus! {

/// A request: a command, and the configuration, printer and style to use.
#[derive(Clone)]
pub struct Args {
    pub command: Commands,
    /// The configuration file; the default one when `None`.
    pub config_file: Option<String>,
    /// Printer from the configuration to use.
    pub printer: String,
    /// Style from the configuration to use.
    pub style: String,
}

/// Which protocol prints.
#[derive(Copy, Clone, PartialEq, Eq, PartialOrd, Ord, Debug, Structural)]
pub enum PrintMode {
    Jetdirect,
    Cups,
}

#[derive(Clone)]
pub enum Commands {
    /// Send a label or settings file to the printer.
    File { name: String },
    /// Print a message, one word per line, `count` times.
    Message { msg: Vec<String>, count: i32 },
    /// Send raw label markup to the printer `count` times.
    Raw { msg: String, count: i32 },
    /// Send a set/get/do command.
    Sgd { command: SGDCommands },
    /// Send files over FTP.
    Ftp { command: FTPCommands },
    /// List the configured styles.
    Styles,
    /// List the configured printers.
    Printers,
}

#[derive(Clone)]
pub enum FTPCommands {
    Put { name: String },
}

} // verus!
