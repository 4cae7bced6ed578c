//! Core of a DNS resolver benchmark.
//!
//! A run asks each of a list of DNS servers to resolve one name a number
//! of times, measures how long each answer takes, and ranks the servers.
//! This library holds what such a run decides and computes:
//!
//! - `servers`, `custom`, `parse`, `bench`: the list of servers, whether
//!   built in or read from a file, with the gateway and the system's own
//!   servers added;
//! - `queue`, `worker`, `timeout`, `sink`, `pool`: the attempts against
//!   each server, with a timeout that adapts to a server that does not
//!   answer, and the queue and the list of results that the workers share;
//! - `result`, `duration`: the measurements and the record that sums them up;
//! - `output`, `xml`: what the printed results show beside the numbers;
//! - `args`, `cli`, `config`, `commands`, `app`: the settings and the
//!   command line;
//! - `gateway`, `system`: reading what the operating system says about
//!   its routes and name servers;
//! - `net`, `text`: addresses and text as plain values.
//!
//! Nothing here reads a file, opens a socket, starts a thread or prints:
//! callers do that and hand plain values to these functions.

pub mod app;
pub mod args;
pub mod bench;
pub mod cli;
pub mod commands;
pub mod config;
pub mod custom;
pub mod duration;
pub mod gateway;
pub mod net;
pub mod output;
pub mod parse;
pub mod pool;
pub mod queue;
pub mod result;
pub mod servers;
pub mod sink;
pub mod system;
pub mod text;
pub mod timeout;
pub mod worker;
pub mod xml;
