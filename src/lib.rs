//! Command protocol core for label printers: building command payloads,
//! deciding when a printer's reply has ended, and driving one connection
//! per command.

pub mod sgd;
pub mod framer;
pub mod jetdirect;
pub mod zpl;
pub mod config;
pub mod cli;
pub mod dispatch;
