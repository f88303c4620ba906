//! Decoders for Art-Net and streaming-ACN traffic, and the registry that
//! tracks every device seen on a lighting-control network.
pub mod artnet;
pub mod capture;
pub mod frame;
pub mod ingest;
pub mod interfaces;
pub mod registry;
pub mod sacn;
pub mod source;
pub mod store;
pub mod text;
pub mod trackers;
