//! Retrieval and extraction of a network-speed-test XML configuration.
//!
//! The library parses an XML configuration document as an event stream and
//! surfaces the attribute lists of four named elements (`client`, `times`,
//! `download`, `upload`) through a typed result with a unified error type.
//! The HTTP fetch that obtains the document is an I/O concern and lives with
//! the caller; the orchestrator here takes the fetch outcome as a value.

pub mod config;
pub mod error;
pub mod laws;
pub mod parser;
pub mod scan;

pub use config::Config;
pub use config::get_config;
pub use error::SpeedtestError;
pub use error::XmlFault;
pub use parser::Attribute;
pub use parser::StartTag;
pub use parser::XmlParser;
