//! Clusters of file paths: how far through the file tree a family of processes
//! has reached.

pub mod clustering;
pub mod distance;
