//! The library's guarantees, stated and proved as laws over the contracts
//! of the lookup and of the orchestrator.

use vstd::prelude::*;
use crate::config::Config;
use crate::config::config_result_matches;
use crate::error::SpeedtestError;
use crate::parser::Attribute;
use crate::parser::attrs_view;
use crate::parser::find_attrs_ok;
use crate::parser::lookup_err;
use crate::scan::found_attrs;
use crate::scan::scan;

verus! {

/// For every document in which all four target elements are present, an
/// assembled configuration succeeds, and its four groups are exactly the
/// attribute lists of those elements in document order — whatever other,
/// unrelated elements the document holds.
pub proof fn lemma_complete_document(doc: Seq<char>, r: Result<Config, SpeedtestError>)
    requires
        config_result_matches(doc, r),
        scan(doc, "client"@) is Found,
        scan(doc, "times"@) is Found,
        scan(doc, "download"@) is Found,
        scan(doc, "upload"@) is Found,
    ensures
        r is Ok,
        attrs_view(r->Ok_0.client@) == found_attrs(scan(doc, "client"@)),
        attrs_view(r->Ok_0.times@) == found_attrs(scan(doc, "times"@)),
        attrs_view(r->Ok_0.download@) == found_attrs(scan(doc, "download"@)),
        attrs_view(r->Ok_0.upload@) == found_attrs(scan(doc, "upload"@)),
{
}

/// If any of the four target elements is missing (or the document breaks
/// before it), assembling fails with the XML error kind, and the first of
/// the four lookups, in the fixed order, that does not find its element
/// decides the error: nothing past it plays any part in the result.
pub proof fn lemma_missing_element_fails(doc: Seq<char>, r: Result<Config, SpeedtestError>)
    requires
        config_result_matches(doc, r),
        !(scan(doc, "client"@) is Found) || !(scan(doc, "times"@) is Found) || !(scan(
            doc,
            "download"@,
        ) is Found) || !(scan(doc, "upload"@) is Found),
    ensures
        r is Err,
        r->Err_0 is XmlParse,
        !(scan(doc, "client"@) is Found) ==> r == Err::<Config, SpeedtestError>(
            lookup_err(scan(doc, "client"@)),
        ),
        scan(doc, "client"@) is Found && !(scan(doc, "times"@) is Found) ==> r == Err::<
            Config,
            SpeedtestError,
        >(lookup_err(scan(doc, "times"@))),
        scan(doc, "client"@) is Found && scan(doc, "times"@) is Found && !(scan(
            doc,
            "download"@,
        ) is Found) ==> r == Err::<Config, SpeedtestError>(lookup_err(scan(doc, "download"@))),
        scan(doc, "client"@) is Found && scan(doc, "times"@) is Found && scan(
            doc,
            "download"@,
        ) is Found && !(scan(doc, "upload"@) is Found) ==> r == Err::<Config, SpeedtestError>(
            lookup_err(scan(doc, "upload"@)),
        ),
{
}

/// A lookup is a pure function of the document and the key: two results
/// that both meet its contract on the same inputs agree — the same
/// attribute group, or the very same error.
pub proof fn lemma_lookup_idempotent(
    doc: Seq<char>,
    key: Seq<char>,
    r1: Result<Vec<Attribute>, SpeedtestError>,
    r2: Result<Vec<Attribute>, SpeedtestError>,
)
    requires
        find_attrs_ok(doc, key, r1),
        find_attrs_ok(doc, key, r2),
    ensures
        r1 is Ok <==> r2 is Ok,
        r1 is Ok ==> attrs_view(r1->Ok_0@) == attrs_view(r2->Ok_0@),
        r1 is Err ==> r1->Err_0 == r2->Err_0,
{
}

/// A lookup never surfaces a transport or read error: whatever the
/// document — malformed markup included — a failure is of the XML kind.
pub proof fn lemma_lookup_errors_are_xml(
    doc: Seq<char>,
    key: Seq<char>,
    r: Result<Vec<Attribute>, SpeedtestError>,
)
    requires
        find_attrs_ok(doc, key, r),
    ensures
        r is Err ==> r->Err_0 is XmlParse,
{
}

} // verus!
