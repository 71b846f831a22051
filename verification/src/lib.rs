//! Verified core of a mesh node: the Noise handshakes of its link and session
//! layers, the network-change detector, the bookkeeping rules of its stream
//! transports, and the readers for its packaging metadata.
//!
//! Everything here works on plain values. Sockets, clocks, files and async
//! tasks belong to the program around the library.

pub mod net;
pub mod netmon;
pub mod noise;
pub mod packaging;
pub mod packaging_laws;
pub mod text;
pub mod text_laws;
pub mod transport;
pub mod vecmap;
