use crate::ident::spec_parse_uuid;
use crate::model::Module;
use crate::model::ModuleView;
use crate::model::Version;
use crate::model::VersionView;
use vstd::prelude::*;

verus! {

// The catalog document is a JSON array of objects whose fields are text:
// identifier, name, description, version, download location and checksum.
// Decoding the document's JSON shape is done by an outside decoder; every
// step after that — finding the fields, validating the identifier and the
// version, assembling the records — is this module's own, verified, logic.

/// What the outside JSON decoder yields on a given text: the array's objects
/// as key/value pairs, in document order, or nothing when the text is not a
/// JSON array of string-to-string objects.
pub uninterp spec fn json_catalog(s: Seq<char>) -> Option<Seq<Seq<(Seq<char>, Seq<char>)>>>;

/// What the outside version parser yields on a given text: major, minor and
/// patch numbers with the pre-release and build texts, or nothing when the
/// text is not a valid semantic version.
pub uninterp spec fn semver_parts(s: Seq<char>) -> Option<(u64, u64, u64, Seq<char>, Seq<char>)>;

/// Why a catalog document was rejected. A document either decodes fully into
/// records or is rejected as a whole with the first of these that applies.
#[derive(Clone, Copy, Debug, PartialEq, Eq, Structural)]
pub enum ParseError {
    /// The text is not a JSON array of string-valued objects.
    Syntax,
    /// A record lacks one of the six required fields.
    MissingField,
    /// A record's identifier is not in the hyphenated hexadecimal form.
    InvalidId,
    /// A record's version is not a valid semantic version.
    InvalidVersion,
}

/// Relies on `serde_json::from_str`: decoding a text as
/// `Vec<BTreeMap<String, String>>` is a function of the text alone, either
/// yielding every object's fields or failing; the body only re-shapes the
/// maps into vectors of pairs.
#[verifier::external_body]
fn parse_json_records(text: &str) -> (r: Option<Vec<Vec<(String, String)>>>)
    ensures
        r.deep_view() == json_catalog(text@),
{
    match serde_json::from_str::<Vec<std::collections::BTreeMap<String, String>>>(text) {
        Ok(v) => Some(v.into_iter().map(|m| m.into_iter().collect()).collect()),
        Err(_) => None,
    }
}

/// Relies on `semver::Version::parse`: whether a text is a valid semantic
/// version, and its parts, are functions of the text alone. The body only
/// moves the parsed value's public fields into the library's record.
#[verifier::external_body]
fn parse_semver(text: &str) -> (r: Option<Version>)
    ensures
        r matches Some(v) ==> semver_parts(text@) matches Some(p) && v.major == p.0 && v.minor
            == p.1 && v.patch == p.2 && v.pre@ == p.3 && v.build@ == p.4,
        r is None ==> semver_parts(text@) is None,
{
    match semver::Version::parse(text) {
        Ok(v) => Some(
            Version {
                major: v.major,
                minor: v.minor,
                patch: v.patch,
                pre: v.pre.as_str().to_owned(),
                build: v.build.as_str().to_owned(),
            },
        ),
        Err(_) => None,
    }
}

/// The value of the first field named `key` in a record, if any.
pub open spec fn spec_lookup(rec: Seq<(Seq<char>, Seq<char>)>, key: Seq<char>) -> Option<
    Seq<char>,
>
    decreases rec.len(),
{
    if rec.len() == 0 {
        None
    } else if rec.first().0 == key {
        Some(rec.first().1)
    } else {
        spec_lookup(rec.drop_first(), key)
    }
}

/// The record that a decoded object denotes: its six required fields, with
/// the identifier and the version validated, or the first reason it is
/// rejected.
pub open spec fn spec_record_module(rec: Seq<(Seq<char>, Seq<char>)>) -> Result<
    ModuleView,
    ParseError,
> {
    let uuid = spec_lookup(rec, "uuid"@);
    let name = spec_lookup(rec, "name"@);
    let description = spec_lookup(rec, "description"@);
    let version = spec_lookup(rec, "version"@);
    let url = spec_lookup(rec, "url"@);
    let checksum = spec_lookup(rec, "checksum"@);
    if uuid is None || name is None || description is None || version is None || url is None
        || checksum is None {
        Err(ParseError::MissingField)
    } else {
        match spec_parse_uuid(uuid.unwrap()) {
            None => Err(ParseError::InvalidId),
            Some(id) => match semver_parts(version.unwrap()) {
                None => Err(ParseError::InvalidVersion),
                Some(p) => Ok(
                    ModuleView {
                        uuid: id,
                        name: name.unwrap(),
                        description: description.unwrap(),
                        version: VersionView {
                            major: p.0,
                            minor: p.1,
                            patch: p.2,
                            pre: p.3,
                            build: p.4,
                        },
                        url: url.unwrap(),
                        checksum: checksum.unwrap(),
                    },
                ),
            },
        }
    }
}

/// The records that a decoded document denotes, in order, or the rejection
/// of its first bad record.
pub open spec fn spec_convert_records(recs: Seq<Seq<(Seq<char>, Seq<char>)>>) -> Result<
    Seq<ModuleView>,
    ParseError,
>
    decreases recs.len(),
{
    if recs.len() == 0 {
        Ok(Seq::empty())
    } else {
        match spec_convert_records(recs.drop_last()) {
            Err(e) => Err(e),
            Ok(ms) => match spec_record_module(recs.last()) {
                Err(e) => Err(e),
                Ok(m) => Ok(ms.push(m)),
            },
        }
    }
}

/// The catalog that a document denotes: all of its records, or the first
/// reason the document is rejected. Decoding is total: it either yields the
/// complete list or fails as a whole.
pub open spec fn spec_parse_catalog(s: Seq<char>) -> Result<Seq<ModuleView>, ParseError> {
    match json_catalog(s) {
        None => Err(ParseError::Syntax),
        Some(recs) => spec_convert_records(recs),
    }
}

/// The value of the first field named `key` in a record, if any.
fn lookup_field<'a>(rec: &'a Vec<(String, String)>, key: &String) -> (r: Option<&'a String>)
    ensures
        match r {
            Some(v) => spec_lookup(rec.deep_view(), key@) == Some(v@),
            None => spec_lookup(rec.deep_view(), key@) is None,
        },
{
    let ghost recd = rec.deep_view();
    let mut i: usize = 0;
    proof {
        assert(recd.skip(0) =~= recd);
    }
    while i < rec.len()
        invariant
            i <= rec.len(),
            recd == rec.deep_view(),
            recd.len() == rec@.len(),
            forall|j: int| 0 <= j < recd.len() ==> #[trigger] recd[j] == (rec@[j].0@, rec@[j].1@),
            spec_lookup(recd, key@) == spec_lookup(recd.skip(i as int), key@),
        decreases rec.len() - i,
    {
        let pair = &rec[i];
        proof {
            assert(recd.skip(i as int).len() == recd.len() - i);
            assert(recd.skip(i as int).first() == recd[i as int]);
            assert(recd[i as int] == (rec@[i as int].0@, rec@[i as int].1@));
        }
        if pair.0 == *key {
            proof {
                assert(recd.skip(i as int).first().0 == key@);
                assert(spec_lookup(recd.skip(i as int), key@) == Some(recd[i as int].1));
            }
            return Some(&pair.1);
        }
        proof {
            assert(recd.skip(i as int).first().0 != key@);
            assert(recd.skip(i as int).drop_first() =~= recd.skip(i + 1 as int));
            assert(spec_lookup(recd.skip(i as int), key@) == spec_lookup(
                recd.skip(i + 1 as int),
                key@,
            ));
        }
        i += 1;
    }
    proof {
        assert(recd.skip(rec@.len() as int).len() == 0);
    }
    None
}

/// The record that a decoded object denotes, as `spec_record_module` says.
fn record_module(rec: &Vec<(String, String)>) -> (r: Result<Module, ParseError>)
    ensures
        match r {
            Ok(m) => spec_record_module(rec.deep_view()) == Ok::<ModuleView, ParseError>(m@),
            Err(e) => spec_record_module(rec.deep_view()) == Err::<ModuleView, ParseError>(e),
        },
{
    let uuid_text = match lookup_field(rec, &String::from_str("uuid")) {
        Some(v) => v,
        None => {
            return Err(ParseError::MissingField);
        },
    };
    let name = match lookup_field(rec, &String::from_str("name")) {
        Some(v) => v,
        None => {
            return Err(ParseError::MissingField);
        },
    };
    let description = match lookup_field(rec, &String::from_str("description")) {
        Some(v) => v,
        None => {
            return Err(ParseError::MissingField);
        },
    };
    let version_text = match lookup_field(rec, &String::from_str("version")) {
        Some(v) => v,
        None => {
            return Err(ParseError::MissingField);
        },
    };
    let url = match lookup_field(rec, &String::from_str("url")) {
        Some(v) => v,
        None => {
            return Err(ParseError::MissingField);
        },
    };
    let checksum = match lookup_field(rec, &String::from_str("checksum")) {
        Some(v) => v,
        None => {
            return Err(ParseError::MissingField);
        },
    };
    let uuid = match crate::ident::parse_module_id(uuid_text.as_str()) {
        Some(id) => id,
        None => {
            return Err(ParseError::InvalidId);
        },
    };
    let version = match parse_semver(version_text.as_str()) {
        Some(v) => v,
        None => {
            return Err(ParseError::InvalidVersion);
        },
    };
    Ok(
        Module {
            uuid,
            name: name.clone(),
            description: description.clone(),
            version,
            url: url.clone(),
            checksum: checksum.clone(),
        },
    )
}

/// Decode a catalog document into its records, or reject it as a whole, as
/// `spec_parse_catalog` says.
pub fn parse_catalog(text: &str) -> (r: Result<Vec<Module>, ParseError>)
    ensures
        match r {
            Ok(v) => spec_parse_catalog(text@) == Ok::<Seq<ModuleView>, ParseError>(v.deep_view()),
            Err(e) => spec_parse_catalog(text@) == Err::<Seq<ModuleView>, ParseError>(e),
        },
{
    let records = match parse_json_records(text) {
        Some(v) => v,
        None => {
            return Err(ParseError::Syntax);
        },
    };
    let ghost recsd = records.deep_view();
    proof {
        assert(json_catalog(text@) == Some(recsd));
    }
    let mut out: Vec<Module> = Vec::new();
    proof {
        assert(recsd.take(0) =~= Seq::<Seq<(Seq<char>, Seq<char>)>>::empty());
        assert(out.deep_view() =~= Seq::<ModuleView>::empty());
    }
    let n = records.len();
    let mut i: usize = 0;
    while i < n
        invariant
            i <= n,
            n == records@.len(),
            recsd == records.deep_view(),
            json_catalog(text@) == Some(recsd),
            recsd.len() == records@.len(),
            forall|j: int|
                0 <= j < recsd.len() ==> #[trigger] recsd[j] == records@[j].deep_view(),
            spec_convert_records(recsd.take(i as int)) == Ok::<Seq<ModuleView>, ParseError>(
                out.deep_view(),
            ),
        decreases n - i,
    {
        let ghost out_before = out.deep_view();
        proof {
            assert(recsd.take(i + 1 as int).drop_last() =~= recsd.take(i as int));
            assert(recsd.take(i + 1 as int).last() == recsd[i as int]);
        }
        match record_module(&records[i]) {
            Ok(m) => {
                let ghost mv = m@;
                out.push(m);
                proof {
                    assert(out.deep_view() =~= out_before.push(mv));
                }
            },
            Err(e) => {
                proof {
                    assert(spec_convert_records(recsd.take(i + 1 as int)) == Err::<
                        Seq<ModuleView>,
                        ParseError,
                    >(e));
                    lemma_convert_error_persists(recsd, i + 1 as int);
                    assert(spec_convert_records(recsd) == Err::<Seq<ModuleView>, ParseError>(e));
                    assert(spec_parse_catalog(text@) == Err::<Seq<ModuleView>, ParseError>(e));
                }
                return Err(e);
            },
        }
        i += 1;
    }
    proof {
        assert(recsd.take(n as int) =~= recsd);
    }
    Ok(out)
}

/// Once a prefix of the records is rejected, the whole document is rejected
/// for that same reason.
proof fn lemma_convert_error_persists(recs: Seq<Seq<(Seq<char>, Seq<char>)>>, k: int)
    requires
        0 <= k <= recs.len(),
        spec_convert_records(recs.take(k)) is Err,
    ensures
        spec_convert_records(recs) == spec_convert_records(recs.take(k)),
    decreases recs.len(),
{
    if k == recs.len() {
        assert(recs.take(k) =~= recs);
    } else {
        assert(recs.drop_last().take(k) =~= recs.take(k));
        lemma_convert_error_persists(recs.drop_last(), k);
    }
}

} // verus!
