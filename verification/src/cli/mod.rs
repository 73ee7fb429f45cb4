//! The command-line interface's library half: the entry points the binary
//! calls, testable without spawning a process.

pub mod critique;

pub use critique::run_critique_echo;
