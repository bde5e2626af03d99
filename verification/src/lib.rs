//! IPv4 subnet arithmetic: prefix/mask conversion, bit counting, binary and
//! dotted-decimal rendering, and network/broadcast/host-range computation.

pub mod mask;
pub mod parse;
pub mod render;
pub mod report;
pub mod subnet;
