//! A userspace data plane for the Global Data Plane (GDP): a name-addressed
//! datagram protocol carried over UDP/IPv4/Ethernet.
//!
//! - `gdp`: the GDP header codec and the GDP layer over a UDP datagram.
//! - `packet`: the Ethernet, IPv4 and UDP layers, their byte codec and
//!   length/checksum reconciliation.
//! - `dtls`: the AES-256-GCM wrapper around the UDP payload.
//! - `store`: the forwarding table, with per-entry expiry.
//! - `rib`: RIB queries and replies.
//! - `switch`: header rewrites and the per-packet decisions of both roles.
//! - `pipeline`: action dispatch over batches, and frame ingress/egress.

pub mod gdp;
pub mod packet;
pub mod dtls;
pub mod store;
pub mod rib;
pub mod switch;
pub mod pipeline;
