//! The route table and the request router. A route entry pairs a normalized
//! matching prefix (the mount path with exactly one trailing slash) with its
//! service descriptor. The table is ordered by descending lexicographic order
//! of the prefixes, and a request path matches the first entry, in table
//! order, whose prefix is a string prefix of the normalized request path.

use vstd::prelude::*;
use crate::origin::url_ok;
use crate::settings::Service;
use crate::text::lex_lt;
use crate::text::lemma_lex_lt_transitive;
use crate::text::spec_trim_final_slash;
use crate::text::str_is_prefix;
use crate::text::str_lex_lt;
use crate::text::trim_final_slash;

verus! {

/// One row of the route table: the normalized matching prefix and the
/// service it selects.
#[derive(Debug, Clone)]
pub struct RouteEntry {
    pub prefix: String,
    pub service: Service,
}

/// A configuration-time failure: the origin URL of a proxy service does not
/// parse as an absolute URL with a host.
#[derive(Debug, Clone)]
pub enum ConfigError {
    InvalidOriginUrl { url: String },
}

/// A request-time failure: no configured prefix covers the request path.
#[derive(Debug, Clone, PartialEq, Eq, Structural)]
pub enum RouteError {
    NoMatch,
}

/// The matching prefix derived from a mount path: the mount path with a
/// final slash trimmed, then exactly one trailing slash appended.
pub open spec fn normalize_prefix(mount: Seq<char>) -> Seq<char> {
    spec_trim_final_slash(mount).push('/')
}

/// The normalized form of a request path: the path with `'/'` appended.
pub open spec fn normalize_path(path: Seq<char>) -> Seq<char> {
    path.push('/')
}

/// An entry is the image of its own service: its prefix is the normalized
/// mount path, and a proxy origin URL is valid.
pub open spec fn valid_entry(e: RouteEntry) -> bool {
    &&& e.prefix@ == normalize_prefix(e.service.spec_mount_path())
    &&& (e.service matches Service::Proxy { url, .. } ==> url_ok(url@))
}

/// The entry built for service `s`.
pub open spec fn entry_for(e: RouteEntry, s: Service) -> bool {
    e.service == s && e.prefix@ == normalize_prefix(s.spec_mount_path())
}

/// A proxy service carries a valid origin URL; a file service always counts
/// as valid here.
pub open spec fn service_origin_ok(s: Service) -> bool {
    match s {
        Service::Proxy { url, .. } => url_ok(url@),
        Service::Files { .. } => true,
    }
}

/// Descending lexicographic order of the matching prefixes.
pub open spec fn sorted_desc(s: Seq<RouteEntry>) -> bool {
    forall|i: int, j: int|
        0 <= i < j < s.len() ==> !lex_lt(#[trigger] s[i].prefix@, #[trigger] s[j].prefix@)
}

/// The ordered route table, built once at startup from the configured
/// services and read-only afterwards.
#[derive(Debug, Clone)]
pub struct RouteTable {
    pub entries: Vec<RouteEntry>,
}

impl RouteTable {
    /// Entries are sorted in descending lexicographic order of their
    /// prefixes, and each is the image of its own service.
    pub open spec fn wf(&self) -> bool {
        &&& sorted_desc(self.entries@)
        &&& forall|i: int| 0 <= i < self.entries@.len() ==> valid_entry(#[trigger] self.entries@[i])
    }
}

/// Inserting into a sequence adds one copy of the element to its multiset.
proof fn lemma_insert_to_multiset(s: Seq<RouteEntry>, k: int, e: RouteEntry)
    requires
        0 <= k <= s.len(),
    ensures
        s.insert(k, e).to_multiset() =~= s.to_multiset().insert(e),
{
    broadcast use vstd::seq_lib::group_to_multiset_ensures;

    let t = s.insert(k, e);
    assert(t.remove(k) =~= s);
    assert(t[k] == e);
    assert(s.to_multiset() =~= t.to_multiset().remove(e));
    assert(t.contains(e));
    assert(t.to_multiset().count(e) > 0);
    assert forall|x: RouteEntry|
        t.to_multiset().count(x) == s.to_multiset().insert(e).count(x) by {
        if x == e {
            assert(s.to_multiset().count(e) == t.to_multiset().count(e) - 1);
        } else {
            assert(s.to_multiset().count(x) == t.to_multiset().count(x));
        }
    }
}

/// Inserts `e` into `v`, which is sorted in descending prefix order, right
/// before the first entry whose prefix is strictly smaller; equal prefixes
/// stay ahead of `e`, so repeated insertion is a stable sort.
fn insert_sorted_desc(v: &mut Vec<RouteEntry>, e: RouteEntry)
    requires
        sorted_desc(old(v)@),
    ensures
        sorted_desc(final(v)@),
        exists|k: int| 0 <= k <= old(v)@.len() && final(v)@ =~= old(v)@.insert(k, e),
        final(v)@.to_multiset() == old(v)@.to_multiset().insert(e),
{
    let n = v.len();
    let mut k: usize = 0;
    loop
        invariant_except_break
            k <= n,
            n == v@.len(),
            v@ == old(v)@,
            forall|j: int| 0 <= j < k ==> !lex_lt(#[trigger] v@[j].prefix@, e.prefix@),
        ensures
            k <= n,
            n == v@.len(),
            v@ == old(v)@,
            forall|j: int| 0 <= j < k ==> !lex_lt(#[trigger] v@[j].prefix@, e.prefix@),
            k < n ==> lex_lt(v@[k as int].prefix@, e.prefix@),
        decreases n - k,
    {
        if k == n {
            break;
        }
        if str_lex_lt(v[k].prefix.as_str(), e.prefix.as_str()) {
            break;
        }
        k = k + 1;
    }
    proof {
        if k < n {
            assert forall|b: int| k <= b < n implies !lex_lt(e.prefix@, v@[b].prefix@) by {
                if lex_lt(e.prefix@, v@[b].prefix@) {
                    if b > k {
                        lemma_lex_lt_transitive(v@[k as int].prefix@, e.prefix@, v@[b].prefix@);
                    } else {
                        lemma_lex_lt_transitive(v@[k as int].prefix@, e.prefix@, v@[k as int].prefix@);
                    }
                    crate::text::lemma_lex_lt_irreflexive(v@[k as int].prefix@);
                }
            }
        }
        lemma_insert_to_multiset(v@, k as int, e);
    }
    let ghost oldv = v@;
    v.insert(k, e);
    proof {
        assert forall|i: int, j: int| 0 <= i < j < v@.len() implies !lex_lt(
            v@[i].prefix@,
            v@[j].prefix@,
        ) by {
            if i < k && j > k {
                assert(v@[i] == oldv[i] && v@[j] == oldv[j - 1]);
            } else if i == k {
                assert(v@[j] == oldv[j - 1]);
            } else if j == k {
                assert(v@[i] == oldv[i]);
                if lex_lt(v@[i].prefix@, e.prefix@) {
                    assert(!lex_lt(oldv[i].prefix@, e.prefix@));
                }
            }
        }
    }
}

/// Builds the route table from the configured services: each service yields
/// one entry whose prefix is its normalized mount path, the entries are
/// sorted in descending lexicographic prefix order, and a proxy service
/// whose origin URL is invalid fails the build with `InvalidOriginUrl`.
pub fn build_route_table(services: &Vec<Service>) -> (r: Result<RouteTable, ConfigError>)
    ensures
        r matches Ok(t) ==> {
            &&& t.wf()
            &&& t.entries@.len() == services@.len()
            &&& exists|es: Seq<RouteEntry>|
                es.len() == services@.len() && (forall|i: int|
                    0 <= i < es.len() ==> entry_for(#[trigger] es[i], services@[i]))
                    && t.entries@.to_multiset() == #[trigger] es.to_multiset()
        },
        (r is Ok) <==> (forall|i: int|
            0 <= i < services@.len() ==> service_origin_ok(#[trigger] services@[i])),
        r matches Err(e) ==> (e matches ConfigError::InvalidOriginUrl { url } && !url_ok(url@)
            && exists|i: int|
            0 <= i < services@.len() && ((#[trigger] services@[i]) matches Service::Proxy {
                url: u,
                ..
            } && u == url)),
{
    let mut entries: Vec<RouteEntry> = Vec::new();
    let ghost mut es: Seq<RouteEntry> = Seq::empty();
    let n = services.len();
    let mut i: usize = 0;
    while i < n
        invariant
            i <= n,
            n == services@.len(),
            es.len() == i,
            entries@.len() == i,
            forall|j: int| 0 <= j < i ==> entry_for(#[trigger] es[j], services@[j]),
            forall|j: int| 0 <= j < i ==> service_origin_ok(#[trigger] services@[j]),
            sorted_desc(entries@),
            forall|j: int| 0 <= j < entries@.len() ==> valid_entry(#[trigger] entries@[j]),
            entries@.to_multiset() == es.to_multiset(),
        decreases n - i,
    {
        let service = &services[i];
        if let Service::Proxy { url, .. } = service {
            if !crate::origin::origin_is_valid(url.as_str()) {
                return Err(ConfigError::InvalidOriginUrl { url: url.clone() });
            }
        }
        let mut prefix = trim_final_slash(service.mount_path().as_str());
        prefix.append("/");
        proof {
            reveal_strlit("/");
            assert(prefix@ =~= normalize_prefix(service.spec_mount_path()));
        }
        let entry = RouteEntry { prefix, service: service.duplicate() };
        proof {
            es = es.push(entry);
            broadcast use vstd::seq_lib::group_to_multiset_ensures;

        }
        insert_sorted_desc(&mut entries, entry);
        i = i + 1;
    }
    Ok(RouteTable { entries })
}

/// Routes a request path: normalizes it by appending `'/'` and returns the
/// first entry, in table order, whose prefix is a prefix of the normalized
/// path, or `NoMatch` when no entry qualifies.
pub fn route<'a>(path: &str, table: &'a RouteTable) -> (r: Result<&'a RouteEntry, RouteError>)
    ensures
        match r {
            Ok(e) => exists|k: int|
                0 <= k < table.entries@.len() && *e == table.entries@[k] && (
                #[trigger] table.entries@[k].prefix@).is_prefix_of(normalize_path(path@)) && (
                forall|j: int|
                    0 <= j < k ==> !(#[trigger] table.entries@[j].prefix@).is_prefix_of(
                        normalize_path(path@),
                    )),
            Err(_) => forall|k: int|
                0 <= k < table.entries@.len() ==> !(
                #[trigger] table.entries@[k].prefix@).is_prefix_of(normalize_path(path@)),
        },
{
    let mut normalized = path.to_owned();
    normalized.append("/");
    proof {
        reveal_strlit("/");
        assert(normalized@ =~= normalize_path(path@));
    }
    let n = table.entries.len();
    let mut k: usize = 0;
    while k < n
        invariant
            k <= n,
            n == table.entries@.len(),
            normalized@ == normalize_path(path@),
            forall|j: int|
                0 <= j < k ==> !(#[trigger] table.entries@[j].prefix@).is_prefix_of(
                    normalize_path(path@),
                ),
        decreases n - k,
    {
        if str_is_prefix(table.entries[k].prefix.as_str(), normalized.as_str()) {
            return Ok(&table.entries[k]);
        }
        k = k + 1;
    }
    Err(RouteError::NoMatch)
}

/// Law: a mount path with and without one final slash yields the same
/// matching prefix — normalizing the trimmed mount path equals normalizing
/// the mount path itself, provided the mount path does not end in two
/// slashes (there a second trim would still shorten it).
pub proof fn lemma_normalize_prefix_trim_equivalent(mount: Seq<char>)
    requires
        mount.len() < 2 || !(mount[mount.len() - 1] == '/' && mount[mount.len() - 2] == '/'),
    ensures
        normalize_prefix(spec_trim_final_slash(mount)) == normalize_prefix(mount),
{
    if mount.len() > 0 && mount[mount.len() - 1] == '/' {
        let t = mount.drop_last();
        if t.len() > 0 {
            assert(t[t.len() - 1] == mount[mount.len() - 2]);
        }
        assert(spec_trim_final_slash(t) == t);
    }
}

} // verus!
