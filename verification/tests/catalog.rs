use nexus::catalog::{parse_catalog, ParseError};

#[test]
fn full_record_is_decoded_exactly() {
    let doc = "[{\"uuid\":\"550e8400-e29b-41d4-a716-446655440000\",\
\"name\":\"alpha\",\"description\":\"the first\",\
\"version\":\"1.2.3-alpha.1+build.5\",\
\"url\":\"https://example.com/alpha.tar.gz\",\"checksum\":\"deadbeef\"}]";
    let modules = parse_catalog(doc).expect("well-formed document must decode");
    assert_eq!(modules.len(), 1);
    let m = &modules[0];
    assert_eq!(m.uuid, 0x550e8400_e29b_41d4_a716_446655440000);
    assert_eq!(m.name, "alpha");
    assert_eq!(m.description, "the first");
    assert_eq!(m.version.major, 1);
    assert_eq!(m.version.minor, 2);
    assert_eq!(m.version.patch, 3);
    assert_eq!(m.version.pre, "alpha.1");
    assert_eq!(m.version.build, "build.5");
    assert_eq!(m.url, "https://example.com/alpha.tar.gz");
    assert_eq!(m.checksum, "deadbeef");
}

#[test]
fn plain_version_has_empty_pre_release_and_build() {
    let doc = "[{\"uuid\":\"550e8400-e29b-41d4-a716-446655440000\",\
\"name\":\"n\",\"description\":\"d\",\"version\":\"10.20.30\",\
\"url\":\"u\",\"checksum\":\"c\"}]";
    let modules = parse_catalog(doc).expect("document must decode");
    let v = &modules[0].version;
    assert_eq!((v.major, v.minor, v.patch), (10, 20, 30));
    assert_eq!(v.pre, "");
    assert_eq!(v.build, "");
}

#[test]
fn extra_fields_are_ignored() {
    let doc = "[{\"uuid\":\"550e8400-e29b-41d4-a716-446655440000\",\
\"name\":\"n\",\"description\":\"d\",\"version\":\"1.0.0\",\
\"url\":\"u\",\"checksum\":\"c\",\"license\":\"MIT\"}]";
    let modules = parse_catalog(doc).expect("document must decode");
    assert_eq!(modules[0].name, "n");
}

#[test]
fn empty_array_is_an_empty_catalog() {
    let modules = parse_catalog("[]").expect("an empty array is a valid catalog");
    assert!(modules.is_empty());
}

#[test]
fn malformed_json_is_a_syntax_error() {
    assert_eq!(parse_catalog("not json at all"), Err(ParseError::Syntax));
    assert_eq!(parse_catalog(""), Err(ParseError::Syntax));
    assert_eq!(parse_catalog("{\"uuid\":\"x\"}"), Err(ParseError::Syntax));
    assert_eq!(parse_catalog("[1,2]"), Err(ParseError::Syntax));
}

#[test]
fn non_text_field_value_is_a_syntax_error() {
    // The document must be an array of string-to-string objects.
    assert_eq!(parse_catalog("[{\"uuid\":5}]"), Err(ParseError::Syntax));
}

#[test]
fn missing_field_is_rejected() {
    let doc = "[{\"uuid\":\"550e8400-e29b-41d4-a716-446655440000\",\
\"name\":\"alpha\",\"description\":\"d\",\"version\":\"1.0.0\",\
\"url\":\"u\"}]";
    assert_eq!(parse_catalog(doc), Err(ParseError::MissingField));
    assert_eq!(parse_catalog("[{}]"), Err(ParseError::MissingField));
}

#[test]
fn bad_identifier_is_rejected() {
    let doc = "[{\"uuid\":\"not-a-valid-id-format\",\
\"name\":\"n\",\"description\":\"d\",\"version\":\"1.0.0\",\
\"url\":\"u\",\"checksum\":\"c\"}]";
    assert_eq!(parse_catalog(doc), Err(ParseError::InvalidId));
}

#[test]
fn bad_version_is_rejected() {
    let doc = "[{\"uuid\":\"550e8400-e29b-41d4-a716-446655440000\",\
\"name\":\"n\",\"description\":\"d\",\"version\":\"one.two\",\
\"url\":\"u\",\"checksum\":\"c\"}]";
    assert_eq!(parse_catalog(doc), Err(ParseError::InvalidVersion));
}

#[test]
fn first_bad_record_rejects_the_whole_document() {
    let doc = "[{\"uuid\":\"550e8400-e29b-41d4-a716-446655440000\",\
\"name\":\"n\",\"description\":\"d\",\"version\":\"1.0.0\",\
\"url\":\"u\",\"checksum\":\"c\"},\
{\"uuid\":\"broken\",\"name\":\"n2\",\"description\":\"d2\",\
\"version\":\"1.0.0\",\"url\":\"u2\",\"checksum\":\"c2\"}]";
    // Decoding is total: one bad record rejects the document as a whole.
    assert_eq!(parse_catalog(doc), Err(ParseError::InvalidId));
}

#[test]
fn records_keep_document_order() {
    let doc = "[{\"uuid\":\"00000000-0000-0000-0000-000000000002\",\
\"name\":\"second\",\"description\":\"d\",\"version\":\"1.0.0\",\
\"url\":\"u\",\"checksum\":\"c\"},\
{\"uuid\":\"00000000-0000-0000-0000-000000000001\",\
\"name\":\"first\",\"description\":\"d\",\"version\":\"1.0.0\",\
\"url\":\"u\",\"checksum\":\"c\"}]";
    let modules = parse_catalog(doc).expect("document must decode");
    assert_eq!(modules[0].uuid, 2);
    assert_eq!(modules[1].uuid, 1);
}
