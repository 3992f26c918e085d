//! Core state-machine library for a terminal dashboard that manages a fleet
//! of remote hosts: application state and view transitions, host filtering
//! and sorting, a bounded-concurrency health-scan scheduler, a tolerant
//! metrics parser, connection history, and a tunnel manager that tracks
//! local port forwards.
//!
//! All I/O (terminal, processes, network, disk, clocks) lives outside this
//! crate; the library works on plain values handed in by its caller.

pub mod text;

pub mod app;

pub mod config;

pub mod dispatch;

pub mod filter;

pub mod groups;

pub mod server;

pub mod health;

pub mod history;

pub mod sort;

pub mod mosh;

pub mod tunnel;
