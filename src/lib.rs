//! Query expansion, result extraction and fetch orchestration for a dork-based
//! OSINT harvester. The library holds the decisions and the transformations;
//! the program around it reads files, talks to the network and writes to the
//! console, and hands the library plain values.

pub mod text;
pub mod logger;
pub mod query;
pub mod extract;
pub mod request;
pub mod orchestrator;
pub mod plan;
pub mod report;
