//! Client-side state synchronization for a networked multiplayer simulation.
//!
//! The crate is organised as three layers.  `msg` defines the wire
//! vocabulary: the client-to-server and server-to-client messages and the
//! plain data they carry.  `codec` gives each message a self-contained byte
//! frame in the crate's own binary framing and proves that encoding and
//! decoding are exact inverses; a peer that speaks a different
//! schema-stable encoding (such as the tagged JSON the bundled application
//! exchanges with its server) is converted at the transport boundary, and
//! the core receives the decoded messages themselves.  `game`
//! reconciles inbound server messages into the local mirror of the remote
//! actors, and `conn` tracks the connection life cycle as an explicit state
//! machine whose transitions are driven by I/O outcomes reported by the
//! embedding application.  `client` ties the connection state and the
//! reconciler together behind the per-tick submit/drain interface, and `net`
//! holds the local-address selection rule used for the initial registration.

pub mod client;
pub mod codec;
pub mod conn;
pub mod game;
pub mod msg;
pub mod net;
