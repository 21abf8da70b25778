use vstd::prelude::*;

pub mod catalog;
pub mod controller;
pub mod ident;
pub mod log;
pub mod model;
pub mod registry;

use crate::model::ModuleView;
use crate::registry::Registry;

verus! {

/// Whether verbose diagnostic output is enabled for this build of the library.
/// Release builds serve traffic with diagnostics off.
pub fn is_debug() -> (r: bool)
    ensures
        r == false,
{
    false
}

/// The value of a decimal digit, or `None` for any other character.
pub open spec fn dec_digit_value(c: char) -> Option<u8> {
    if c == '0' {
        Some(0u8)
    } else if c == '1' {
        Some(1u8)
    } else if c == '2' {
        Some(2u8)
    } else if c == '3' {
        Some(3u8)
    } else if c == '4' {
        Some(4u8)
    } else if c == '5' {
        Some(5u8)
    } else if c == '6' {
        Some(6u8)
    } else if c == '7' {
        Some(7u8)
    } else if c == '8' {
        Some(8u8)
    } else if c == '9' {
        Some(9u8)
    } else {
        None
    }
}

/// The value of a sequence of decimal digits, most significant first.
pub open spec fn dec_seq_value(s: Seq<char>) -> nat
    decreases s.len(),
{
    if s.len() == 0 {
        0nat
    } else {
        dec_seq_value(s.drop_last()) * 10 + (match dec_digit_value(s.last()) {
            Some(d) => d as nat,
            None => 0nat,
        })
    }
}

/// The number a text denotes: the value of its decimal digits, if the text
/// is non-empty, all digits, and the value fits.
pub open spec fn spec_parse_u64(s: Seq<char>) -> Option<u64> {
    if s.len() > 0 && (forall|i: int| 0 <= i < s.len() ==> dec_digit_value(#[trigger] s[i]) is Some)
        && dec_seq_value(s) <= u64::MAX {
        Some(dec_seq_value(s) as u64)
    } else {
        None
    }
}

/// A prefix of the digits never denotes more than the whole.
proof fn lemma_dec_value_mono(s: Seq<char>, k: int)
    requires
        0 <= k <= s.len(),
    ensures
        dec_seq_value(s.take(k)) <= dec_seq_value(s),
    decreases s.len(),
{
    if k < s.len() {
        assert(s.drop_last().take(k) =~= s.take(k));
        lemma_dec_value_mono(s.drop_last(), k);
    } else {
        assert(s.take(k) =~= s);
    }
}

/// The value of a decimal digit, or `None` for any other character.
fn dec_value(c: char) -> (r: Option<u8>)
    ensures
        r == dec_digit_value(c),
{
    match c {
        '0' => Some(0),
        '1' => Some(1),
        '2' => Some(2),
        '3' => Some(3),
        '4' => Some(4),
        '5' => Some(5),
        '6' => Some(6),
        '7' => Some(7),
        '8' => Some(8),
        '9' => Some(9),
        _ => None,
    }
}

/// Parse an unsigned number from decimal text. Returns `None` exactly on
/// texts that are empty, hold a non-digit, or denote a value that does not
/// fit.
pub fn parse_u64(s: &str) -> (r: Option<u64>)
    ensures
        r == spec_parse_u64(s@),
{
    let n = s.unicode_len();
    if n == 0 {
        return None;
    }
    let mut acc: u64 = 0;
    let mut i: usize = 0;
    proof {
        assert(s@.take(0int) =~= Seq::<char>::empty());
    }
    while i < n
        invariant
            s@.len() == n,
            0 < n,
            i <= n,
            forall|j: int| 0 <= j < i ==> dec_digit_value(#[trigger] s@[j]) is Some,
            acc == dec_seq_value(s@.take(i as int)),
        decreases n - i,
    {
        let c = s.get_char(i);
        proof {
            assert(s@.take(i + 1 as int).drop_last() =~= s@.take(i as int));
            assert(s@.take(i + 1 as int).last() == s@[i as int]);
        }
        match dec_value(c) {
            None => {
                return None;
            },
            Some(d) => {
                if acc > (u64::MAX - (d as u64)) / 10 {
                    proof {
                        lemma_dec_value_mono(s@, i + 1 as int);
                        assert(dec_seq_value(s@.take(i + 1 as int)) == acc * 10 + d);
                        assert(acc * 10 + d > u64::MAX) by (nonlinear_arith)
                            requires
                                acc > (u64::MAX - (d as u64)) / 10,
                                d < 10,
                        ;
                    }
                    return None;
                }
                proof {
                    assert(acc * 10 + d <= u64::MAX) by (nonlinear_arith)
                        requires
                            acc <= (u64::MAX - (d as u64)) / 10,
                            d < 10,
                    ;
                }
                acc = acc * 10 + (d as u64);
            },
        }
        i += 1;
    }
    proof {
        assert(s@.take(n as int) =~= s@);
    }
    Some(acc)
}

/// Parse a port number from decimal text: an unsigned number that fits in
/// sixteen bits.
pub fn parse_port(s: &str) -> (r: Option<u16>)
    ensures
        r == (match spec_parse_u64(s@) {
            Some(v) => if v <= u16::MAX {
                Some(v as u16)
            } else {
                None::<u16>
            },
            None => None::<u16>,
        }),
{
    match parse_u64(s) {
        Some(v) => if v <= 65535 {
            Some(v as u16)
        } else {
            None
        },
        None => None,
    }
}

/// The configuration the service is started with: where to listen, where
/// the catalog origin is, and the cache TTL in milliseconds.
#[derive(Debug)]
pub struct NexusArgs {
    pub address: String,
    pub port: u16,
    pub registry_url: String,
    pub registry_cache_ttl: u64,
}

impl NexusArgs {
    pub fn new(address: String, port: u16, registry_url: String, registry_cache_ttl: u64) -> (r:
        NexusArgs)
        ensures
            r.address == address,
            r.port == port,
            r.registry_url == registry_url,
            r.registry_cache_ttl == registry_cache_ttl,
    {
        NexusArgs { address, port, registry_url, registry_cache_ttl }
    }
}

/// The assembled service: the listen address and the registry cache it
/// serves from.
pub struct Nexus {
    pub address: String,
    pub port: u16,
    pub registry: Registry,
}

impl Nexus {
    pub fn new(nexus_args: NexusArgs) -> (r: Nexus)
        ensures
            r.address == nexus_args.address,
            r.port == nexus_args.port,
            r.registry@.url == nexus_args.registry_url@,
            r.registry@.modules == Seq::<ModuleView>::empty(),
            r.registry@.cache_ttl == nexus_args.registry_cache_ttl,
            r.registry@.cache_last_refresh is None,
    {
        Nexus {
            address: nexus_args.address,
            port: nexus_args.port,
            registry: Registry::new(nexus_args.registry_url, nexus_args.registry_cache_ttl),
        }
    }
}

} // verus!
