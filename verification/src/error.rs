//! The unified error type of the fetch-and-extract pipeline.

use vstd::prelude::*;

verus! {

/// Why an XML lookup failed: either the markup could not be parsed, or the
/// document ended before a start tag with the requested name appeared.
#[derive(Debug, Clone, Copy, PartialEq, Eq, Structural)]
pub enum XmlFault {
    /// The document is not well-formed markup (bad tag syntax, an unclosed
    /// tag, a mismatched or stray end tag, an unterminated attribute value).
    Malformed,
    /// The document is well-formed but holds no start tag with the
    /// requested local name.
    ElementNotFound,
}

/// The error of the whole pipeline. Exactly one kind per failure: a
/// transport failure, a body-read or decoding failure, or an XML failure.
/// No partial configuration is ever surfaced alongside one of these.
#[derive(Debug)]
pub enum SpeedtestError {
    /// A body-read or UTF-8 decoding failure, with a description.
    Other(String),
    /// An HTTP transport failure (connection, timeout, DNS), with a
    /// description.
    Http(String),
    /// A failure to locate an element in the document.
    XmlParse(XmlFault),
}

impl SpeedtestError {
    /// True of the XML kind alone; lookups never surface another kind.
    pub open spec fn is_xml(&self) -> bool {
        self is XmlParse
    }
}

impl From<XmlFault> for SpeedtestError {
    /// Lossless conversion at the XML boundary: the fault is kept as-is.
    fn from(fault: XmlFault) -> (e: SpeedtestError) {
        SpeedtestError::XmlParse(fault)
    }
}

impl vstd::std_specs::convert::FromSpecImpl<XmlFault> for SpeedtestError {
    open spec fn obeys_from_spec() -> bool {
        true
    }

    open spec fn from_spec(fault: XmlFault) -> SpeedtestError {
        SpeedtestError::XmlParse(fault)
    }
}

} // verus!
