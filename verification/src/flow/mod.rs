//! Flow observation: records of observed traffic, their normalisation from
//! native samples, and their projection into a graph. Observation only: no
//! part of it can act on the network.
pub mod model;
pub mod win32;
pub mod adapters;
pub mod graph;
