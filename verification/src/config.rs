//! The orchestrator: from the outcome of one document fetch to the
//! aggregate configuration record.
//!
//! The fetch itself is an I/O concern of the surrounding program; it hands
//! in either the document text or the transport or read error it ran into.
//! On a fetched document the four target elements are looked up in a fixed
//! order — `client`, `times`, `download`, `upload` — and the first failure
//! wins: nothing past it is looked up, and no partial record is ever
//! returned.

use vstd::prelude::*;
use crate::error::SpeedtestError;
use crate::parser::Attribute;
use crate::parser::XmlParser;
use crate::parser::attrs_view;
use crate::parser::lookup_err;
use crate::scan::found_attrs;
use crate::scan::scan;

verus! {

/// The aggregate result of a successful run: the attribute groups of the
/// four target elements, each in document order.  Fully populated or not
/// constructed at all.
#[derive(Debug)]
pub struct Config {
    pub client: Vec<Attribute>,
    pub times: Vec<Attribute>,
    pub download: Vec<Attribute>,
    pub upload: Vec<Attribute>,
}

/// The contract of assembling a configuration from a fetched document:
/// the first of the four lookups (in the fixed order `client`, `times`,
/// `download`, `upload`) that does not find its element decides the error;
/// where all four find theirs, the record holds exactly their attribute
/// lists.
pub open spec fn config_result_matches(doc: Seq<char>, r: Result<Config, SpeedtestError>) -> bool {
    let sc = scan(doc, "client"@);
    let st = scan(doc, "times"@);
    let sd = scan(doc, "download"@);
    let su = scan(doc, "upload"@);
    if !(sc is Found) {
        r == Err::<Config, SpeedtestError>(lookup_err(sc))
    } else if !(st is Found) {
        r == Err::<Config, SpeedtestError>(lookup_err(st))
    } else if !(sd is Found) {
        r == Err::<Config, SpeedtestError>(lookup_err(sd))
    } else if !(su is Found) {
        r == Err::<Config, SpeedtestError>(lookup_err(su))
    } else {
        r matches Ok(c) && attrs_view(c.client@) == found_attrs(sc) && attrs_view(c.times@)
            == found_attrs(st) && attrs_view(c.download@) == found_attrs(sd) && attrs_view(
            c.upload@,
        ) == found_attrs(su)
    }
}

/// The whole pipeline after the fetch.  A failed fetch is returned as it
/// stands — no lookup is attempted on any document, and the error keeps
/// its kind.  A fetched document is scanned for the four target elements
/// in the fixed order, short-circuiting on the first failure.
pub fn get_config(fetched: Result<String, SpeedtestError>) -> (r: Result<Config, SpeedtestError>)
    ensures
        fetched matches Err(e) ==> r == Err::<Config, SpeedtestError>(e),
        fetched matches Ok(body) ==> config_result_matches(body@, r),
{
    let body = match fetched {
        Err(e) => {
            return Err(e);
        },
        Ok(b) => b,
    };
    let parser = XmlParser::new(body);
    let client = match parser.find_key_attrs("client") {
        Ok(a) => a,
        Err(e) => {
            return Err(e);
        },
    };
    let times = match parser.find_key_attrs("times") {
        Ok(a) => a,
        Err(e) => {
            return Err(e);
        },
    };
    let download = match parser.find_key_attrs("download") {
        Ok(a) => a,
        Err(e) => {
            return Err(e);
        },
    };
    let upload = match parser.find_key_attrs("upload") {
        Ok(a) => a,
        Err(e) => {
            return Err(e);
        },
    };
    Ok(Config { client, times, download, upload })
}

} // verus!
