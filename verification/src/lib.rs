//! The second stage of a NixOS boot: everything between the moment that the real root file system
//! is in place and the moment that systemd takes over.
//!
//! The sequence is a machine.  [`machine::run`] starts it, [`machine::Machine::request`] hands out
//! one request at a time, and [`machine::Machine::resume`] takes the reply to it, until nothing is
//! left to be done.  Whoever drives the machine performs the requests, and what follows from a reply
//! is decided here;
//! [`machine::exec_systemd`] starts a second machine, which hands over to init.
//!
//! - [`request`], [`task`]: requests, replies, and the steps that connect them.
//! - [`boot`]: what is found out first, and the stages that follow from it.
//! - [`mounts`], [`store`], [`files`], [`stdio`], [`activation`], [`handoff`]: the stages.
//! - [`flags`], [`shell`], [`text`]: mount flags, text for the shell, and text in general.
//! - [`machine`]: which reply leads to which steps.
//! - [`trace`]: the runs of a machine.
//! - [`effects`]: what each reply leads to, in the words of the requests themselves.
//! - [`conduct`], [`order`], [`outcome`], [`success`], [`capture`], [`termination`], [`tracing`]: what
//!   holds of every run, whatever the replies are.
//!
//! Every function states exactly which steps it returns, over the views of its arguments.

pub mod activation;
pub mod boot;
pub mod capture;
pub mod conduct;
pub mod effects;
pub mod files;
pub mod flags;
pub mod handoff;
pub mod machine;
pub mod mounts;
pub mod order;
pub mod outcome;
pub mod request;
pub mod shell;
pub mod stdio;
pub mod store;
pub mod success;
pub mod task;
pub mod termination;
pub mod text;
pub mod trace;
pub mod tracing;
