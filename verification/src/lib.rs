//! Interface extraction and client generation for on-chain programs.
//!
//! A program module declares entry points, the accounts they work on, the
//! records it stores and the errors it reports. This library turns those
//! declarations into an interface model and the model into the source text
//! of a client:
//!
//! * [`syntax`] holds the declarations of a module as a loader hands them
//!   over, and [`conventions`] the words and numbers by which the framework
//!   in use marks them;
//! * [`extract`] builds the interface model of [`idl`] from them;
//! * [`program_client_generator`] writes the client text, with the records
//!   that programs share merged by [`shared_types`];
//! * [`pipeline`] runs the stages in order and takes in what the loader and
//!   the formatter report;
//! * [`laws`] states what holds of all of this on every input.
//!
//! Every executable function comes with a contract that says exactly what it
//! returns; the contracts are proved with Verus.
//!
//! [`command`] holds the decisions of the command-line front end, and
//! [`token`] and [`protocol`] the rules of two sample programs that the tool
//! is tried on.

pub mod collect;
pub mod command;
pub mod conventions;
pub mod extract;
pub mod idl;
pub mod laws;
pub mod pipeline;
pub mod program_client_generator;
pub mod protocol;
pub mod shared_types;
pub mod syntax;
pub mod text;
pub mod token;
