use nexus::model::Module;
use nexus::registry::{RefreshError, Registry};

const TTL_MS: u64 = 60_000;

const DOC_AB: &str = "[\
{\"uuid\":\"aaaaaaaa-aaaa-aaaa-aaaa-aaaaaaaaaaaa\",\"name\":\"alpha\",\
\"description\":\"first module\",\"version\":\"1.0.0\",\
\"url\":\"https://example.com/alpha\",\"checksum\":\"111\"},\
{\"uuid\":\"bbbbbbbb-bbbb-bbbb-bbbb-bbbbbbbbbbbb\",\"name\":\"beta\",\
\"description\":\"second module\",\"version\":\"2.1.3\",\
\"url\":\"https://example.com/beta\",\"checksum\":\"222\"}]";

const DOC_C: &str = "[\
{\"uuid\":\"cccccccc-cccc-cccc-cccc-cccccccccccc\",\"name\":\"gamma\",\
\"description\":\"third module\",\"version\":\"0.9.0\",\
\"url\":\"https://example.com/gamma\",\"checksum\":\"333\"}]";

const ID_A: u128 = 0xaaaaaaaa_aaaa_aaaa_aaaa_aaaaaaaaaaaa;
const ID_B: u128 = 0xbbbbbbbb_bbbb_bbbb_bbbb_bbbbbbbbbbbb;
const ID_C: u128 = 0xcccccccc_cccc_cccc_cccc_cccccccccccc;

/// One serialized read: refresh first if stale, then serve the snapshot.
/// `fetch` is what the origin would answer if a fetch were attempted;
/// returns the served catalog and whether a fetch was attempted.
fn read_at(reg: &mut Registry, now: u64, fetch: Result<String, String>) -> (Vec<Module>, bool) {
    let fetched = if reg.needs_refresh(now) {
        reg.begin_refresh(now);
        let _ = reg.finish_refresh(fetch);
        true
    } else {
        false
    };
    (reg.get_modules(), fetched)
}

fn names(modules: &[Module]) -> Vec<&str> {
    modules.iter().map(|m| m.name.as_str()).collect()
}

#[test]
fn new_registry_is_empty_and_stale() {
    let reg = Registry::new("https://example.com/registry.json".to_string(), TTL_MS);
    assert_eq!(reg.url(), "https://example.com/registry.json");
    assert!(reg.get_modules().is_empty());
    assert!(reg.needs_refresh(0));
    assert!(reg.needs_refresh(u64::MAX));
}

#[test]
fn scenario_a_fresh_window_serves_same_list_without_fetch() {
    let mut reg = Registry::new("u".to_string(), TTL_MS);
    let (served, fetched) = read_at(&mut reg, 0, Ok(DOC_AB.to_string()));
    assert!(fetched);
    assert_eq!(names(&served), ["alpha", "beta"]);
    assert_eq!(served[0].uuid, ID_A);
    assert_eq!(served[1].uuid, ID_B);

    // t = 30 s: same list, and no fetch is attempted at all.
    assert!(!reg.needs_refresh(30_000));
    let (served_again, fetched_again) =
        read_at(&mut reg, 30_000, Err("origin must not be contacted".to_string()));
    assert!(!fetched_again);
    assert_eq!(served_again, served);
}

#[test]
fn scenario_b_failed_refresh_serves_stale_and_backs_off() {
    let mut reg = Registry::new("u".to_string(), TTL_MS);
    let (served, _) = read_at(&mut reg, 0, Ok(DOC_AB.to_string()));

    // t = 61 s: origin unreachable; the old list keeps being served.
    assert!(reg.needs_refresh(61_000));
    let (after_failure, fetched) = read_at(&mut reg, 61_000, Err("connection refused".to_string()));
    assert!(fetched);
    assert_eq!(after_failure, served);

    // t = 90 s: still before the next boundary; no new attempt.
    let (later, fetched_later) = read_at(&mut reg, 90_000, Err("unreachable".to_string()));
    assert!(!fetched_later);
    assert_eq!(later, served);
}

#[test]
fn scenario_c_successful_refresh_replaces_whole_snapshot() {
    let mut reg = Registry::new("u".to_string(), TTL_MS);
    let _ = read_at(&mut reg, 0, Ok(DOC_AB.to_string()));
    let _ = read_at(&mut reg, 61_000, Err("down".to_string()));

    // t = 122 s: a TTL has elapsed again; the new document fully replaces [A, B].
    let (served, fetched) = read_at(&mut reg, 122_000, Ok(DOC_C.to_string()));
    assert!(fetched);
    assert_eq!(names(&served), ["gamma"]);
    assert_eq!(served[0].uuid, ID_C);
    assert!(reg.get_module_by_uuid(ID_A).is_none());
}

#[test]
fn window_boundary_is_inclusive() {
    let mut reg = Registry::new("u".to_string(), TTL_MS);
    let _ = read_at(&mut reg, 0, Ok(DOC_AB.to_string()));
    assert!(!reg.needs_refresh(60_000));
    assert!(reg.needs_refresh(60_001));
}

#[test]
fn repeated_reads_in_one_window_are_identical() {
    let mut reg = Registry::new("u".to_string(), TTL_MS);
    let (first, _) = read_at(&mut reg, 0, Ok(DOC_AB.to_string()));
    for now in [1, 15_000, 30_000, 59_999, 60_000] {
        let (served, fetched) = read_at(&mut reg, now, Err("no origin".to_string()));
        assert!(!fetched);
        assert_eq!(served, first);
    }
}

#[test]
fn failed_fetch_reports_transport_error() {
    let mut reg = Registry::new("u".to_string(), TTL_MS);
    reg.begin_refresh(0);
    let r = reg.finish_refresh(Err("timed out".to_string()));
    match r {
        Err(RefreshError::Fetch(msg)) => assert_eq!(msg, "timed out"),
        other => panic!("expected a transport failure, got {:?}", other),
    }
    assert!(reg.get_modules().is_empty());
}

#[test]
fn rejected_document_reports_parse_error_and_keeps_snapshot() {
    let mut reg = Registry::new("u".to_string(), TTL_MS);
    let _ = reg.refresh(0, Ok(DOC_AB.to_string()));
    let r = reg.refresh(61_000, Ok("not json at all".to_string()));
    match r {
        Err(RefreshError::Parse(_)) => {}
        other => panic!("expected a parse failure, got {:?}", other),
    }
    // The bad attempt left the previous snapshot untouched but was stamped.
    assert_eq!(names(&reg.get_modules()), ["alpha", "beta"]);
    assert!(!reg.needs_refresh(100_000));
}

#[test]
fn get_module_by_uuid_returns_exact_record_or_none() {
    let mut reg = Registry::new("u".to_string(), TTL_MS);
    let _ = reg.refresh(0, Ok(DOC_AB.to_string()));
    let found = reg.get_module_by_uuid(ID_B).expect("present id must be found");
    assert_eq!(found.name, "beta");
    assert_eq!(found.description, "second module");
    assert_eq!(found.version.major, 2);
    assert_eq!(found.version.minor, 1);
    assert_eq!(found.version.patch, 3);
    assert_eq!(found.url, "https://example.com/beta");
    assert_eq!(found.checksum, "222");
    assert!(reg.get_module_by_uuid(ID_C).is_none());
}

#[test]
fn lookup_returns_first_match() {
    let doc = "[\
{\"uuid\":\"dddddddd-dddd-dddd-dddd-dddddddddddd\",\"name\":\"one\",\
\"description\":\"x\",\"version\":\"1.0.0\",\"url\":\"u1\",\"checksum\":\"c1\"},\
{\"uuid\":\"dddddddd-dddd-dddd-dddd-dddddddddddd\",\"name\":\"two\",\
\"description\":\"y\",\"version\":\"1.0.1\",\"url\":\"u2\",\"checksum\":\"c2\"}]";
    let mut reg = Registry::new("u".to_string(), TTL_MS);
    let _ = reg.refresh(0, Ok(doc.to_string()));
    let found = reg
        .get_module_by_uuid(0xdddddddd_dddd_dddd_dddd_dddddddddddd)
        .expect("present id must be found");
    assert_eq!(found.name, "one");
}
