//! Protocol logic of a small QUIC file server and its client: stateless
//! retry tokens, connection-ID derivation, admission of incoming packets,
//! HTTP/0.9 request parsing, the bookkeeping of partially sent responses,
//! and the client's request.

pub mod address;
pub mod buf;
pub mod client;
pub mod conn_id;
pub mod packet;
pub mod random;
pub mod request;
pub mod server;
pub mod token;
pub mod table;
