//! Resolution of a batch of book requests against a bibliographic search
//! service, retrieval of the matched files and their packaging into one
//! archive. The library holds the decisions; the network, the save prompt
//! and the file system stay with the caller, who hands over what came back.

pub mod archive;
pub mod coordinator;
pub mod downloads;
pub mod fetcher;
pub mod matcher;
pub mod model;
pub mod report;
pub mod sanitize;
pub mod searcher;
pub mod text;
pub mod transport;
