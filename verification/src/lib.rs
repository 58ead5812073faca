//! The decisions of a TCP/UDP port forwarder, verified.
//!
//! A forwarder listens on a local address and relays what arrives there to
//! a remote address, for any number of rules at once. This library holds
//! everything that such a program decides: how the command line and the
//! configuration file are read ([`cli`], [`config_file`]), what makes a
//! valid rule ([`forward_config`], [`addr`]), who is let in and how many at
//! a time ([`admission`]), what becomes of each TCP connection
//! ([`tcp_relay`]) and of each UDP session ([`udp_relay`]), and when the
//! engine of a rule is done ([`engine`]). Sockets, threads and clocks are
//! left to the program around it, which reports events to the library and
//! carries out the actions that it answers with.

pub mod text;
pub mod addr;
pub mod forward_config;
pub mod pattern;
pub mod cli;
pub mod config_file;
pub mod admission;
pub mod tcp_relay;
pub mod udp_relay;
pub mod engine;
