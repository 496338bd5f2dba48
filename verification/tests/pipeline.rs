use speedtest::get_config;
use speedtest::Attribute;
use speedtest::SpeedtestError;
use speedtest::XmlFault;
use speedtest::XmlParser;

const EXAMPLE: &str = "<settings><client ip=\"1.2.3.4\" isp=\"Acme\"/><times dl=\"1\" ul=\"1\"/><download testlength=\"10\"/><upload testlength=\"20\"/></settings>";

fn pairs(attrs: &[Attribute]) -> Vec<(String, String)> {
    attrs.iter().map(|a| (a.name.clone(), a.value.clone())).collect()
}

fn pair(name: &str, value: &str) -> (String, String) {
    (name.to_string(), value.to_string())
}

#[test]
fn example_document_yields_all_four_groups() {
    let c = get_config(Ok(EXAMPLE.to_string())).unwrap();
    assert_eq!(pairs(&c.client), vec![pair("ip", "1.2.3.4"), pair("isp", "Acme")]);
    assert_eq!(pairs(&c.times), vec![pair("dl", "1"), pair("ul", "1")]);
    assert_eq!(pairs(&c.download), vec![pair("testlength", "10")]);
    assert_eq!(pairs(&c.upload), vec![pair("testlength", "20")]);
}

#[test]
fn unrelated_elements_do_not_disturb_the_groups() {
    let doc = "<?xml version=\"1.0\" encoding=\"UTF-8\"?><settings><!-- licence notice --><server-config threadcount=\"4\"/><client ip=\"9.8.7.6\" lat=\"47.1\" lon=\"8.5\" isp=\"Acme\"/><odometer start=\"123\"/><times dl1=\"5000000\" ul1=\"1000000\"/><download testlength=\"10\" threadsperurl=\"4\"/><upload ratio=\"5\" maxchunkcount=\"50\"/></settings>";
    let c = get_config(Ok(doc.to_string())).unwrap();
    assert_eq!(
        pairs(&c.client),
        vec![pair("ip", "9.8.7.6"), pair("lat", "47.1"), pair("lon", "8.5"), pair("isp", "Acme")]
    );
    assert_eq!(pairs(&c.times), vec![pair("dl1", "5000000"), pair("ul1", "1000000")]);
    assert_eq!(pairs(&c.download), vec![pair("testlength", "10"), pair("threadsperurl", "4")]);
    assert_eq!(pairs(&c.upload), vec![pair("ratio", "5"), pair("maxchunkcount", "50")]);
}

#[test]
fn missing_element_fails_with_element_not_found() {
    let doc = "<settings><client ip=\"1.2.3.4\"/><times dl=\"1\"/><download t=\"10\"/></settings>";
    let e = get_config(Ok(doc.to_string())).unwrap_err();
    assert!(matches!(e, SpeedtestError::XmlParse(XmlFault::ElementNotFound)));
}

#[test]
fn first_missing_element_decides_the_error() {
    // `client` is absent and the markup breaks in the unclosed `download`
    // tag.  The `client` lookup runs first, scans the whole document, and
    // hits the malformed tail, so the pipeline's error is `Malformed` from
    // that first lookup; no later lookup plays a part.
    let doc = "<settings><times dl=\"1\"/><download t=\"1\"";
    let e = get_config(Ok(doc.to_string())).unwrap_err();
    assert!(matches!(e, SpeedtestError::XmlParse(XmlFault::Malformed)));
}

#[test]
fn absent_client_with_later_elements_present() {
    let doc = "<settings><times dl=\"1\"/><download t=\"1\"/><upload t=\"2\"/></settings>";
    let e = get_config(Ok(doc.to_string())).unwrap_err();
    assert!(matches!(e, SpeedtestError::XmlParse(XmlFault::ElementNotFound)));
}

#[test]
fn failed_fetch_is_returned_as_is() {
    let e = get_config(Err(SpeedtestError::Http("connection refused".to_string()))).unwrap_err();
    match e {
        SpeedtestError::Http(msg) => assert_eq!(msg, "connection refused"),
        other => panic!("wrong kind: {:?}", other),
    }
}

#[test]
fn failed_body_read_is_returned_as_is() {
    let e = get_config(Err(SpeedtestError::Other("invalid utf-8".to_string()))).unwrap_err();
    match e {
        SpeedtestError::Other(msg) => assert_eq!(msg, "invalid utf-8"),
        other => panic!("wrong kind: {:?}", other),
    }
}

#[test]
fn lookup_is_idempotent() {
    let p = XmlParser::new(EXAMPLE.to_string());
    let a1 = p.find_key_attrs("client").unwrap();
    let a2 = p.find_key_attrs("client").unwrap();
    assert_eq!(a1, a2);
    let e1 = p.find_key_attrs("nothere").unwrap_err();
    let e2 = p.find_key_attrs("nothere").unwrap_err();
    assert!(matches!(e1, SpeedtestError::XmlParse(XmlFault::ElementNotFound)));
    assert!(matches!(e2, SpeedtestError::XmlParse(XmlFault::ElementNotFound)));
}

#[test]
fn malformed_document_fails_every_lookup() {
    // An unclosed tag: the document ends while `settings` is still open.
    let p = XmlParser::new("<settings><client ip=\"1.2.3.4\">".to_string());
    for key in ["times", "download", "upload", "settings2"] {
        let e = p.find_key_attrs(key).unwrap_err();
        assert!(matches!(e, SpeedtestError::XmlParse(XmlFault::Malformed)));
    }
    // The element before the break is still found: the scan stops at it.
    assert!(p.find_key_attrs("client").is_ok());
    assert!(p.find_key_attrs("settings").is_ok());
}

#[test]
fn unterminated_attribute_value_is_malformed() {
    let p = XmlParser::new("<settings><client ip=\"1.2.3.4/></settings>".to_string());
    let e = p.find_key_attrs("client").unwrap_err();
    assert!(matches!(e, SpeedtestError::XmlParse(XmlFault::Malformed)));
}

#[test]
fn mismatched_end_tag_is_malformed() {
    let p = XmlParser::new("<settings><inner></wrong></settings><client a=\"1\"/>".to_string());
    let e = p.find_key_attrs("client").unwrap_err();
    assert!(matches!(e, SpeedtestError::XmlParse(XmlFault::Malformed)));
}

#[test]
fn stray_angle_bracket_is_malformed() {
    let p = XmlParser::new("< settings><client a=\"1\"/></settings>".to_string());
    let e = p.find_key_attrs("client").unwrap_err();
    assert!(matches!(e, SpeedtestError::XmlParse(XmlFault::Malformed)));
}

#[test]
fn empty_document_has_no_elements() {
    let p = XmlParser::new(String::new());
    let e = p.find_key_attrs("client").unwrap_err();
    assert!(matches!(e, SpeedtestError::XmlParse(XmlFault::ElementNotFound)));
}

#[test]
fn element_with_no_attributes_yields_an_empty_group() {
    let p = XmlParser::new("<settings><times></times></settings>".to_string());
    let a = p.find_key_attrs("times").unwrap();
    assert!(a.is_empty());
}

#[test]
fn duplicate_attributes_are_kept_in_document_order() {
    let p = XmlParser::new("<client a=\"1\" a=\"2\" b=\"3\" a=\"1\"/>".to_string());
    let a = p.find_key_attrs("client").unwrap();
    assert_eq!(pairs(&a), vec![pair("a", "1"), pair("a", "2"), pair("b", "3"), pair("a", "1")]);
}

#[test]
fn qualified_name_matches_by_local_part() {
    let p = XmlParser::new("<s:settings><s:client ip=\"1.2.3.4\"/></s:settings>".to_string());
    let t = p.find_key("client").unwrap();
    assert_eq!(t.name, "s:client");
    assert_eq!(pairs(&t.attributes), vec![pair("ip", "1.2.3.4")]);
}

#[test]
fn find_key_returns_the_full_start_tag() {
    let p = XmlParser::new(EXAMPLE.to_string());
    let t = p.find_key("times").unwrap();
    assert_eq!(t.name, "times");
    assert_eq!(pairs(&t.attributes), vec![pair("dl", "1"), pair("ul", "1")]);
}

#[test]
fn single_quoted_values_and_loose_spacing_are_accepted() {
    let p = XmlParser::new("<client  ip = '10.0.0.1'   isp = \"A B\" />".to_string());
    let a = p.find_key_attrs("client").unwrap();
    assert_eq!(pairs(&a), vec![pair("ip", "10.0.0.1"), pair("isp", "A B")]);
}

#[test]
fn prolog_comments_and_doctype_are_skipped() {
    let doc = "<?xml version=\"1.0\"?><!DOCTYPE settings><!-- a <client> mentioned in a comment is not an element --><settings><client real=\"yes\"/></settings>";
    let p = XmlParser::new(doc.to_string());
    let a = p.find_key_attrs("client").unwrap();
    assert_eq!(pairs(&a), vec![pair("real", "yes")]);
}

#[test]
fn the_first_matching_element_wins() {
    let p = XmlParser::new("<s><client n=\"first\"/><client n=\"second\"/></s>".to_string());
    let a = p.find_key_attrs("client").unwrap();
    assert_eq!(pairs(&a), vec![pair("n", "first")]);
}

#[test]
fn attribute_values_are_kept_as_written() {
    let p = XmlParser::new("<client note=\"a &amp; b\"/>".to_string());
    let a = p.find_key_attrs("client").unwrap();
    assert_eq!(pairs(&a), vec![pair("note", "a &amp; b")]);
}

#[test]
fn error_conversion_keeps_the_fault() {
    let e = SpeedtestError::from(XmlFault::ElementNotFound);
    assert!(matches!(e, SpeedtestError::XmlParse(XmlFault::ElementNotFound)));
    let e = SpeedtestError::from(XmlFault::Malformed);
    assert!(matches!(e, SpeedtestError::XmlParse(XmlFault::Malformed)));
}
