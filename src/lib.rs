//! Runs a shell command on behalf of a host program, coordinating the wait for
//! the child with an interrupt handler over one take-once slot, and resolves a
//! single exit code for every way the child can end.
pub mod echo;
pub mod outcome;
pub mod shell;
pub mod slot;
