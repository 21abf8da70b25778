use crate::catalog::parse_catalog;
use crate::catalog::spec_parse_catalog;
use crate::catalog::ParseError;
use crate::model::Module;
use crate::model::ModuleView;
use vstd::prelude::*;

verus! {

// The registry cache serves the most recent successfully fetched catalog
// while bounding how often the origin is contacted: at most one fetch
// attempt per TTL window under serialized reads, and a failed attempt never
// discards previously good data (fail open, serve stale).
//
// Fetching itself is the caller's outside work. A read first asks
// `needs_refresh`; if the snapshot is stale the caller stamps the attempt
// with `begin_refresh` — before the network call, so that a failing origin
// is retried at most once per window — then performs the fetch without
// holding the cache, and hands the outcome to `finish_refresh`. Times are
// milliseconds on a monotonic clock of the caller's choosing.

/// Why a refresh attempt failed. Failures are absorbed by the caller:
/// the previous snapshot keeps being served.
#[derive(Debug)]
pub enum RefreshError {
    /// Transport failure while retrieving the document, with its description.
    Fetch(String),
    /// The retrieved document was rejected by the catalog decoder.
    Parse(ParseError),
}

/// Mathematical model of the cache state.
pub struct RegistryView {
    pub url: Seq<char>,
    pub modules: Seq<ModuleView>,
    pub cache_ttl: u64,
    pub cache_last_refresh: Option<u64>,
}

/// The cache: the current snapshot of the catalog, the time of the most
/// recently attempted refresh, and the fixed TTL.
#[derive(Debug)]
pub struct Registry {
    url: String,
    modules: Vec<Module>,
    cache_ttl: u64,
    cache_last_refresh: Option<u64>,
}

impl View for Registry {
    type V = RegistryView;

    closed spec fn view(&self) -> RegistryView {
        RegistryView {
            url: self.url@,
            modules: self.modules.deep_view(),
            cache_ttl: self.cache_ttl,
            cache_last_refresh: self.cache_last_refresh,
        }
    }
}

impl RegistryView {
    /// Whether the snapshot is stale at time `now`: no refresh was ever
    /// attempted, or the last attempt lies more than one TTL in the past.
    pub open spec fn needs_refresh_at(self, now: u64) -> bool {
        match self.cache_last_refresh {
            None => true,
            Some(t) => now as int - t as int > self.cache_ttl as int,
        }
    }
}

/// The state after stamping a refresh attempt at time `now`: only the
/// attempt time changes, and it is set whatever the attempt will bring.
pub open spec fn spec_stamp(s: RegistryView, now: u64) -> RegistryView {
    RegistryView { cache_last_refresh: Some(now), ..s }
}

/// The state after applying a fetch outcome: a successfully decoded document
/// replaces the snapshot as a whole; any failure leaves it untouched.
pub open spec fn spec_install(s: RegistryView, fetched: Result<Seq<char>, Seq<char>>) -> RegistryView {
    match fetched {
        Ok(text) => match spec_parse_catalog(text) {
            Ok(ms) => RegistryView { modules: ms, ..s },
            Err(_) => s,
        },
        Err(_) => s,
    }
}

/// The state after a whole refresh attempt at time `now` with outcome
/// `fetched`: stamped, then installed.
pub open spec fn spec_refresh(
    s: RegistryView,
    now: u64,
    fetched: Result<Seq<char>, Seq<char>>,
) -> RegistryView {
    spec_install(spec_stamp(s, now), fetched)
}

/// The texts of a fetch outcome: the document on success, the transport
/// failure's description otherwise.
pub open spec fn fetch_view(fetched: Result<String, String>) -> Result<Seq<char>, Seq<char>> {
    match fetched {
        Ok(text) => Ok(text@),
        Err(msg) => Err(msg@),
    }
}

/// The first record of the sequence carrying the identifier, if any.
pub open spec fn spec_find_module(ms: Seq<ModuleView>, uuid: u128) -> Option<ModuleView>
    decreases ms.len(),
{
    if ms.len() == 0 {
        None
    } else if ms.first().uuid == uuid {
        Some(ms.first())
    } else {
        spec_find_module(ms.drop_first(), uuid)
    }
}

impl Registry {
    /// A cache for the catalog published at `url`, refreshed at most about
    /// once per `cache_ttl` milliseconds; empty until the first successful
    /// refresh.
    pub fn new(url: String, cache_ttl: u64) -> (r: Registry)
        ensures
            r@.url == url@,
            r@.modules == Seq::<ModuleView>::empty(),
            r@.cache_ttl == cache_ttl,
            r@.cache_last_refresh is None,
    {
        let r = Registry { url, modules: Vec::new(), cache_ttl, cache_last_refresh: None };
        proof {
            assert(r@.modules =~= Seq::<ModuleView>::empty());
        }
        r
    }

    /// The origin the catalog is fetched from.
    pub fn url(&self) -> (r: &String)
        ensures
            r@ == self@.url,
    {
        &self.url
    }

    /// Whether a read at time `now` should attempt a refresh first.
    pub fn needs_refresh(&self, now: u64) -> (r: bool)
        ensures
            r == self@.needs_refresh_at(now),
    {
        match self.cache_last_refresh {
            None => true,
            Some(t) => now > t && now - t > self.cache_ttl,
        }
    }

    /// Stamp a refresh attempt at time `now`, before the fetch is performed,
    /// so that further reads within one TTL window attempt no fetch of their
    /// own whatever this attempt brings.
    pub fn begin_refresh(&mut self, now: u64)
        ensures
            final(self)@ == spec_stamp(old(self)@, now),
    {
        self.cache_last_refresh = Some(now);
    }

    /// Apply a fetch outcome: decode the document and swap the snapshot as a
    /// whole on success; on a transport failure or a rejected document keep
    /// the snapshot untouched and report why.
    pub fn finish_refresh(&mut self, fetched: Result<String, String>) -> (r: Result<
        (),
        RefreshError,
    >)
        ensures
            final(self)@ == spec_install(old(self)@, fetch_view(fetched)),
            match fetched {
                Ok(text) => match spec_parse_catalog(text@) {
                    Ok(_) => r is Ok,
                    Err(pe) => r matches Err(RefreshError::Parse(q)) && q == pe,
                },
                Err(msg) => r matches Err(RefreshError::Fetch(m)) && m@ == msg@,
            },
    {
        match fetched {
            Ok(text) => match parse_catalog(text.as_str()) {
                Ok(mods) => {
                    self.modules = mods;
                    Ok(())
                },
                Err(pe) => Err(RefreshError::Parse(pe)),
            },
            Err(msg) => Err(RefreshError::Fetch(msg)),
        }
    }

    /// A whole refresh attempt at time `now` with fetch outcome `fetched`:
    /// stamp first, then install. The stamp is kept even when the attempt
    /// fails, which bounds attempts to about one per TTL window.
    pub fn refresh(&mut self, now: u64, fetched: Result<String, String>) -> (r: Result<
        (),
        RefreshError,
    >)
        ensures
            final(self)@ == spec_refresh(old(self)@, now, fetch_view(fetched)),
            match fetched {
                Ok(text) => match spec_parse_catalog(text@) {
                    Ok(_) => r is Ok,
                    Err(pe) => r matches Err(RefreshError::Parse(q)) && q == pe,
                },
                Err(msg) => r matches Err(RefreshError::Fetch(m)) && m@ == msg@,
            },
    {
        self.begin_refresh(now);
        self.finish_refresh(fetched)
    }

    /// A copy of the current snapshot, in catalog order; empty if no refresh
    /// has ever succeeded. Serving never fails.
    pub fn get_modules(&self) -> (r: Vec<Module>)
        ensures
            r.deep_view() == self@.modules,
    {
        let mut out: Vec<Module> = Vec::new();
        proof {
            assert(out.deep_view() =~= self@.modules.take(0));
        }
        let n = self.modules.len();
        let mut i: usize = 0;
        while i < n
            invariant
                i <= n,
                n == self.modules@.len(),
                self@.modules.len() == n,
                forall|j: int|
                    0 <= j < n ==> #[trigger] self@.modules[j] == self.modules@[j].deep_view(),
                out.deep_view() == self@.modules.take(i as int),
            decreases n - i,
        {
            let ghost before = out.deep_view();
            let m = self.modules[i].duplicate();
            let ghost mv = m@;
            out.push(m);
            proof {
                assert(out.deep_view() =~= before.push(mv));
                assert(self@.modules.take(i + 1 as int) =~= self@.modules.take(i as int).push(
                    self@.modules[i as int],
                ));
            }
            i += 1;
        }
        proof {
            assert(self@.modules.take(n as int) =~= self@.modules);
        }
        out
    }

    /// The record with the given identifier in the current snapshot, if any:
    /// a linear lookup, first match. It never fails for an absent
    /// identifier; it returns nothing.
    pub fn get_module_by_uuid(&self, uuid: u128) -> (r: Option<Module>)
        ensures
            r.deep_view() == spec_find_module(self@.modules, uuid),
    {
        let ghost ms = self@.modules;
        let n = self.modules.len();
        let mut i: usize = 0;
        proof {
            assert(ms.skip(0) =~= ms);
        }
        while i < n
            invariant
                i <= n,
                n == self.modules@.len(),
                ms == self@.modules,
                ms.len() == n,
                forall|j: int| 0 <= j < n ==> #[trigger] ms[j] == self.modules@[j].deep_view(),
                spec_find_module(ms, uuid) == spec_find_module(ms.skip(i as int), uuid),
            decreases n - i,
        {
            proof {
                assert(ms.skip(i as int).len() == ms.len() - i);
                assert(ms.skip(i as int).first() == ms[i as int]);
            }
            if self.modules[i].uuid == uuid {
                let m = self.modules[i].duplicate();
                proof {
                    assert(spec_find_module(ms.skip(i as int), uuid) == Some(ms[i as int]));
                }
                return Some(m);
            }
            proof {
                assert(ms.skip(i as int).drop_first() =~= ms.skip(i + 1 as int));
                assert(spec_find_module(ms.skip(i as int), uuid) == spec_find_module(
                    ms.skip(i + 1 as int),
                    uuid,
                ));
            }
            i += 1;
        }
        proof {
            assert(ms.skip(n as int).len() == 0);
        }
        None
    }
}

/// Law: after one successful refresh at time `t0` that installed catalog
/// `l`, a read at any time `t` within the TTL window after `t0` is not
/// stale — it issues no fetch — and is served exactly `l`.
pub proof fn lemma_fresh_window_serves_catalog(
    s: RegistryView,
    t0: u64,
    t: u64,
    text: Seq<char>,
    l: Seq<ModuleView>,
)
    requires
        spec_parse_catalog(text) == Ok::<Seq<ModuleView>, ParseError>(l),
        t0 <= t,
        t as int - t0 as int <= s.cache_ttl as int,
    ensures
        spec_refresh(s, t0, Ok(text)).modules == l,
        !spec_refresh(s, t0, Ok(text)).needs_refresh_at(t),
{
}

/// Law: a refresh attempt at time `t1` — whatever its outcome, and already
/// from the moment it is stamped, while its fetch is still in flight —
/// leaves the cache non-stale for the whole TTL window after `t1`, so
/// serialized reads in that window trigger no further fetch; and an attempt
/// whose fetch or decode failed leaves the served catalog unchanged.
pub proof fn lemma_refresh_backoff_and_fail_open(
    s: RegistryView,
    t1: u64,
    t2: u64,
    fetched: Result<Seq<char>, Seq<char>>,
)
    requires
        t1 <= t2,
        t2 as int - t1 as int <= s.cache_ttl as int,
    ensures
        !spec_stamp(s, t1).needs_refresh_at(t2),
        !spec_refresh(s, t1, fetched).needs_refresh_at(t2),
        fetched is Err ==> spec_refresh(s, t1, fetched).modules == s.modules,
        (fetched matches Ok(text) && spec_parse_catalog(text) is Err) ==> spec_refresh(
            s,
            t1,
            fetched,
        ).modules == s.modules,
{
}

/// Law: repeated reads within one TTL window after a refresh attempt at
/// `t0`, with no origin change in between, are all non-stale — none
/// refreshes, so all are served the one snapshot the cache holds, and their
/// results are identical.
pub proof fn lemma_reads_idempotent(s: RegistryView, t0: u64, t1: u64, t2: u64)
    requires
        s.cache_last_refresh == Some(t0),
        t0 <= t1,
        t1 as int - t0 as int <= s.cache_ttl as int,
        t0 <= t2,
        t2 as int - t0 as int <= s.cache_ttl as int,
    ensures
        !s.needs_refresh_at(t1),
        !s.needs_refresh_at(t2),
{
}

/// Law: the lookup finds an identifier if and only if some record of the
/// snapshot carries it, and what it finds is a record of the snapshot
/// carrying it; for an absent identifier it returns nothing rather than
/// failing.
pub proof fn lemma_find_module_spec(ms: Seq<ModuleView>, uuid: u128)
    ensures
        (spec_find_module(ms, uuid) is Some) <==> (exists|i: int|
            0 <= i < ms.len() && ms[i].uuid == uuid),
        spec_find_module(ms, uuid) matches Some(m) ==> m.uuid == uuid && ms.contains(m),
    decreases ms.len(),
{
    if ms.len() > 0 {
        lemma_find_module_spec(ms.drop_first(), uuid);
        if ms.first().uuid == uuid {
            assert(ms[0].uuid == uuid);
        } else {
            if spec_find_module(ms.drop_first(), uuid) is Some {
                let i = choose|i: int|
                    0 <= i < ms.drop_first().len() && ms.drop_first()[i].uuid == uuid;
                assert(ms[i + 1].uuid == uuid);
                match spec_find_module(ms, uuid) {
                    Some(m) => {
                        assert(ms.drop_first().contains(m));
                        let k = choose|k: int|
                            0 <= k < ms.drop_first().len() && ms.drop_first()[k] == m;
                        assert(ms[k + 1] == m);
                    },
                    None => {},
                }
            }
            if exists|i: int| 0 <= i < ms.len() && ms[i].uuid == uuid {
                let i = choose|i: int| 0 <= i < ms.len() && ms[i].uuid == uuid;
                assert(i != 0);
                assert(ms.drop_first()[i - 1].uuid == uuid);
            }
        }
    }
}

/// Law: when identifiers are unique within the snapshot — the catalog's
/// uniqueness invariant — the lookup of a present identifier returns that
/// exact record.
pub proof fn lemma_find_module_unique(ms: Seq<ModuleView>, m0: ModuleView)
    requires
        forall|i: int, j: int|
            0 <= i < ms.len() && 0 <= j < ms.len() && i != j ==> ms[i].uuid != ms[j].uuid,
        ms.contains(m0),
    ensures
        spec_find_module(ms, m0.uuid) == Some(m0),
    decreases ms.len(),
{
    let i0 = choose|i: int| 0 <= i < ms.len() && ms[i] == m0;
    if ms.first().uuid == m0.uuid {
        if i0 != 0 {
            assert(ms[0].uuid == ms[i0].uuid);
            assert(false);
        }
        assert(ms.first() == m0);
    } else {
        assert(i0 != 0);
        assert(ms.drop_first()[i0 - 1] == m0);
        assert(ms.drop_first().contains(m0));
        assert(forall|i: int, j: int|
            0 <= i < ms.drop_first().len() && 0 <= j < ms.drop_first().len() && i != j
                ==> ms.drop_first()[i].uuid != ms.drop_first()[j].uuid) by {
            assert(forall|k: int|
                0 <= k < ms.drop_first().len() ==> ms.drop_first()[k] == ms[k + 1]);
        };
        lemma_find_module_unique(ms.drop_first(), m0);
    }
}

} // verus!
