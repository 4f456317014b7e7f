//! Reachability, latency and path measurement over IPv4 with ICMP echo probes.
//!
//! The crate holds the decisions of the measurement stack as verified state
//! machines and byte-level codecs: sockets, timers and tasks belong to the
//! program that drives them.
//!
//! - `echo`, `multiplexer`, `probe`: the packets of a probe, and the engine
//!   that matches answers to the probes in flight.
//! - `traceroute`, `measure_route`, `list_route_nodes`, `route_graph`: the
//!   measurements of a route.
//! - `scan`, `monitor`, `result_stream`: the sweep of many targets and the
//!   file it writes.
//! - `cursor`, `configuration`, `args`, `legacy`: which targets are swept,
//!   and how a scan is set up.

pub mod args;
pub mod configuration;
pub mod cursor;
pub mod echo;
pub mod internet;
pub mod legacy;
pub mod list_route_nodes;
pub mod measure_route;
pub mod monitor;
pub mod multiplexer;
pub mod probe;
pub mod result_stream;
pub mod route_graph;
pub mod scan;
pub mod traceroute;
pub mod wire;
