//! A parallel sentinel-file finder: searches directory trees for directories
//! that contain an entry whose name equals, or fully matches, a configured
//! sentinel, stopping descent into a directory once its sentinel is found.
//!
//! The verified core is the quiescent work queue (`sync_reader`), the
//! per-directory traversal decisions (`worker`), and the sentinel matcher
//! (`matcher`). The blocking shell around the queue (locks, condition
//! variables, directory I/O, threads) lives outside the library and drives
//! these components.

pub mod matcher;
pub mod sink;
pub mod sync_reader;
pub mod worker;
