//! Decision logic of a layer-4 reverse proxy: which upstream a connection is
//! routed to, how a cached address resolution ages, what is sent to and
//! accepted from a chained HTTP proxy, and how many connections a listener
//! may serve at once. Sockets, tasks and files are left to the caller: it
//! hands in what it read and does what it is told.
//!
//! - `config`: the configuration and its validation;
//! - `upstream`: the upstreams, and how one is read from its URL;
//! - `server`: the listeners made from a configuration;
//! - `listener`: the accept loop and its permits;
//! - `sni`, `hello`: the server names of a TLS ClientHello;
//! - `routing`: the choice of an upstream for a connection;
//! - `resolver`, `clock`: the cache of resolved addresses and its clock;
//! - `connect`: the CONNECT request to an upstream proxy and its reply;
//! - `relay`: what a finished relay reports;
//! - `locate`: where the configuration file is looked for;
//! - `text`, `first`: helpers.

pub mod text;
pub mod first;
pub mod sni;
pub mod hello;
pub mod connect;
pub mod resolver;
pub mod upstream;
pub mod config;
pub mod routing;
pub mod listener;
pub mod server;
pub mod relay;
pub mod clock;
pub mod locate;
