//! Reconciliation of the known-hosts store: one `[host]:port key` line per
//! endpoint, replaced in place or appended.
//!
//! Where several lines share an endpoint's prefix (a host that changed key
//! type, say), all of them are replaced by the single new entry.

use vstd::prelude::*;
use crate::text::{contains, contains_seq, doc_view, occurs_at};

verus! {

/// The local known-hosts store.
pub struct Info {
    known_hosts_path: String,
}

impl Info {
    pub fn new(known_hosts_path: String) -> (r: Self)
        ensures
            r.path()@ == known_hosts_path@,
    {
        Info { known_hosts_path }
    }

    pub closed spec fn path(&self) -> String {
        self.known_hosts_path
    }

    pub fn known_hosts_path(&self) -> (r: &String)
        ensures
            r@ == self.path()@,
    {
        &self.known_hosts_path
    }
}

/// What a reconciliation asks of the store.
#[derive(Debug, PartialEq, Eq)]
pub enum HostsUpdate {
    /// The exact entry is present; nothing is written.
    AlreadyKnown,
    /// The store is rewritten in full with these lines.
    Rewrite(Vec<String>),
    /// This line is appended to the store.
    Append(String),
}

/// `[destination]:port`
pub open spec fn host_prefix(destination: Seq<char>, port: Seq<char>) -> Seq<char> {
    seq!['['] + destination + seq![']', ':'] + port
}

/// `[destination]:port public_key`
pub open spec fn host_entry(destination: Seq<char>, port: Seq<char>, key: Seq<char>) -> Seq<char> {
    host_prefix(destination, port) + seq![' '] + key
}

pub open spec fn mentions_host(d: Seq<Seq<char>>, prefix: Seq<char>) -> bool {
    exists|i: int| 0 <= i < d.len() && contains_seq(#[trigger] d[i], prefix)
}

/// Every line that holds `prefix` replaced by `entry`.
pub open spec fn replace_entries(d: Seq<Seq<char>>, prefix: Seq<char>, entry: Seq<char>) -> Seq<Seq<char>> {
    d.map_values(|l: Seq<char>| if contains_seq(l, prefix) { entry } else { l })
}

/// The store after reconciling the endpoint's entry.
pub open spec fn hosts_after(d: Seq<Seq<char>>, destination: Seq<char>, port: Seq<char>, key: Seq<char>) -> Seq<Seq<char>> {
    let entry = host_entry(destination, port, key);
    let prefix = host_prefix(destination, port);
    if d.contains(entry) {
        d
    } else if mentions_host(d, prefix) {
        replace_entries(d, prefix, entry)
    } else {
        d.push(entry)
    }
}

/// The number of lines among the first `n` that hold `prefix`.
pub open spec fn count_mentions(d: Seq<Seq<char>>, prefix: Seq<char>, n: int) -> nat
    decreases n,
{
    if n <= 0 {
        0
    } else {
        count_mentions(d, prefix, n - 1) + if contains_seq(d[n - 1], prefix) {
            1nat
        } else {
            0nat
        }
    }
}

pub fn make_host_prefix(destination: &str, port: &str) -> (r: String)
    ensures
        r@ == host_prefix(destination@, port@),
{
    proof {
        reveal_strlit("[");
        reveal_strlit("]:");
    }
    let mut s = String::from_str("[");
    s.append(destination);
    s.append("]:");
    s.append(port);
    assert(s@ =~= host_prefix(destination@, port@));
    s
}

pub fn make_host_entry(destination: &str, port: &str, public_key: &str) -> (r: String)
    ensures
        r@ == host_entry(destination@, port@, public_key@),
{
    let mut s = make_host_prefix(destination, port);
    proof {
        reveal_strlit(" ");
    }
    s.append(" ");
    s.append(public_key);
    assert(s@ =~= host_entry(destination@, port@, public_key@));
    s
}

/// Decides how the store `known_lines` records `public_key` for the
/// endpoint: not at all when the exact entry is there; by replacing every
/// line that holds the endpoint's prefix; else by appending the entry.
pub fn reconcile(known_lines: &Vec<String>, destination: &str, port: &str, public_key: &str) -> (r:
    HostsUpdate)
    ensures
        ({
            let d = doc_view(known_lines@);
            let entry = host_entry(destination@, port@, public_key@);
            let prefix = host_prefix(destination@, port@);
            match r {
                HostsUpdate::AlreadyKnown => d.contains(entry),
                HostsUpdate::Rewrite(v) => !d.contains(entry) && mentions_host(d, prefix) && doc_view(
                    v@,
                ) == replace_entries(d, prefix, entry),
                HostsUpdate::Append(x) => !d.contains(entry) && !mentions_host(d, prefix) && x@
                    == entry,
            }
        }),
{
    let ghost d = doc_view(known_lines@);
    let entry = make_host_entry(destination, port, public_key);
    let prefix = make_host_prefix(destination, port);
    let mut i: usize = 0;
    while i < known_lines.len()
        invariant
            d == doc_view(known_lines@),
            i <= known_lines@.len(),
            entry@ == host_entry(destination@, port@, public_key@),
            forall|k: int| 0 <= k < i ==> d[k] != entry@,
        decreases known_lines@.len() - i,
    {
        if known_lines[i] == entry {
            assert(known_lines@[i as int]@ == entry@);
            assert(d.len() == known_lines@.len());
            assert(d[i as int] == entry@);
            return HostsUpdate::AlreadyKnown;
        }
        i = i + 1;
    }
    let mut rewritten: Vec<String> = Vec::new();
    let mut found = false;
    let mut j: usize = 0;
    while j < known_lines.len()
        invariant
            d == doc_view(known_lines@),
            j <= known_lines@.len(),
            rewritten@.len() == j,
            entry@ == host_entry(destination@, port@, public_key@),
            prefix@ == host_prefix(destination@, port@),
            forall|k: int| 0 <= k < known_lines@.len() ==> d[k] != entry@,
            doc_view(rewritten@) == replace_entries(d, prefix@, entry@).subrange(0, j as int),
            found == exists|k: int| 0 <= k < j && contains_seq(#[trigger] d[k], prefix@),
        decreases known_lines@.len() - j,
    {
        let line = known_lines[j].as_str();
        let ghost before = rewritten@;
        assert(line@ == d[j as int]);
        if contains(line, prefix.as_str()) {
            assert(contains_seq(d[j as int], prefix@));
            found = true;
            rewritten.push(entry.clone());
        } else {
            rewritten.push(String::from_str(line));
        }
        assert(found == exists|k: int| 0 <= k < j + 1 && contains_seq(#[trigger] d[k], prefix@));
        proof {
            let target = replace_entries(d, prefix@, entry@);
            assert(rewritten@.len() == j + 1);
            assert forall|k: int| 0 <= k < j + 1 implies #[trigger] doc_view(rewritten@)[k] == target.subrange(0, j + 1)[k] by {
                if k < j {
                    assert(rewritten@[k] == before[k]);
                    assert(doc_view(before)[k] == target.subrange(0, j as int)[k]);
                } else {
                    assert(target[k] == (if contains_seq(d[k], prefix@) { entry@ } else { d[k] }));
                }
            }
            assert(doc_view(rewritten@) =~= target.subrange(0, j + 1));
        }
        j = j + 1;
    }
    if found {
        assert(doc_view(rewritten@) =~= replace_entries(d, prefix@, entry@));
        HostsUpdate::Rewrite(rewritten)
    } else {
        HostsUpdate::Append(entry)
    }
}

proof fn lemma_entry_mentions_host(destination: Seq<char>, port: Seq<char>, key: Seq<char>)
    ensures
        contains_seq(host_entry(destination, port, key), host_prefix(destination, port)),
{
    let e = host_entry(destination, port, key);
    let p = host_prefix(destination, port);
    assert(e.subrange(0, p.len() as int) =~= p);
    assert(occurs_at(e, p, 0));
}

proof fn lemma_count_replace(d: Seq<Seq<char>>, prefix: Seq<char>, entry: Seq<char>, n: int)
    requires
        0 <= n <= d.len(),
        contains_seq(entry, prefix),
    ensures
        count_mentions(replace_entries(d, prefix, entry), prefix, n) == count_mentions(d, prefix, n),
    decreases n,
{
    if n > 0 {
        lemma_count_replace(d, prefix, entry, n - 1);
    }
}

proof fn lemma_count_prefix(d: Seq<Seq<char>>, e: Seq<Seq<char>>, prefix: Seq<char>, n: int)
    requires
        0 <= n <= d.len(),
        n <= e.len(),
        forall|i: int| 0 <= i < n ==> d[i] == e[i],
    ensures
        count_mentions(d, prefix, n) == count_mentions(e, prefix, n),
    decreases n,
{
    if n > 0 {
        lemma_count_prefix(d, e, prefix, n - 1);
    }
}

proof fn lemma_count_none(d: Seq<Seq<char>>, prefix: Seq<char>, n: int)
    requires
        0 <= n <= d.len(),
        !mentions_host(d, prefix),
    ensures
        count_mentions(d, prefix, n) == 0,
    decreases n,
{
    if n > 0 {
        lemma_count_none(d, prefix, n - 1);
        assert(!contains_seq(d[n - 1], prefix));
    }
}

/// Reconciling never leaves more than one line naming the endpoint where
/// there was at most one; afterwards the store holds the exact entry, so a
/// second reconciliation with the same key changes nothing.
pub proof fn lemma_reconcile_no_duplication(d: Seq<Seq<char>>, destination: Seq<char>, port: Seq<char>, key: Seq<char>)
    ensures
        ({
            let after = hosts_after(d, destination, port, key);
            let prefix = host_prefix(destination, port);
            let before_count = count_mentions(d, prefix, d.len() as int);
            &&& after.contains(host_entry(destination, port, key))
            &&& hosts_after(after, destination, port, key) == after
            &&& count_mentions(after, prefix, after.len() as int) <= if before_count > 1 {
                before_count
            } else {
                1
            }
        }),
{
    let entry = host_entry(destination, port, key);
    let prefix = host_prefix(destination, port);
    let after = hosts_after(d, destination, port, key);
    lemma_entry_mentions_host(destination, port, key);
    if d.contains(entry) {
    } else if mentions_host(d, prefix) {
        let i = choose|i: int| 0 <= i < d.len() && contains_seq(#[trigger] d[i], prefix);
        assert(after[i] == entry);
        lemma_count_replace(d, prefix, entry, d.len() as int);
    } else {
        assert(after[d.len() as int] == entry);
        lemma_count_prefix(d, after, prefix, d.len() as int);
        lemma_count_none(d, prefix, d.len() as int);
    }
}

/// When the endpoint has lines but none is the exact entry, those lines are
/// replaced in place: the store keeps its length and its other lines.
pub proof fn lemma_reconcile_replaces_in_place(d: Seq<Seq<char>>, destination: Seq<char>, port: Seq<char>, key: Seq<char>)
    requires
        !d.contains(host_entry(destination, port, key)),
        mentions_host(d, host_prefix(destination, port)),
    ensures
        ({
            let after = hosts_after(d, destination, port, key);
            &&& after.len() == d.len()
            &&& forall|i: int|
                0 <= i < d.len() ==> #[trigger] after[i] == if contains_seq(d[i], host_prefix(destination, port)) {
                    host_entry(destination, port, key)
                } else {
                    d[i]
                }
        }),
{
}

/// The lines of the store that mention none of `patterns`.
pub open spec fn unmentioned(d: Seq<Seq<char>>, patterns: Seq<Seq<char>>) -> Seq<Seq<char>> {
    d.filter(|l: Seq<char>| !exists|k: int| 0 <= k < patterns.len() && contains_seq(l, #[trigger] patterns[k]))
}

/// Drops every line that holds one of `patterns` (a host name, an address).
pub fn remove_known_hosts_entries(known_lines: &Vec<String>, patterns: &Vec<String>) -> (r: Vec<String>)
    ensures
        doc_view(r@) == unmentioned(doc_view(known_lines@), doc_view(patterns@)),
{
    let ghost d = doc_view(known_lines@);
    let ghost ps = doc_view(patterns@);
    let ghost pred = |l: Seq<char>| !exists|k: int| 0 <= k < ps.len() && contains_seq(l, #[trigger] ps[k]);
    let mut kept: Vec<String> = Vec::new();
    let mut i: usize = 0;
    while i < known_lines.len()
        invariant
            d == doc_view(known_lines@),
            ps == doc_view(patterns@),
            pred == (|l: Seq<char>| !exists|k: int| 0 <= k < ps.len() && contains_seq(l, #[trigger] ps[k])),
            i <= known_lines@.len(),
            doc_view(kept@) == d.subrange(0, i as int).filter(pred),
        decreases known_lines@.len() - i,
    {
        let line = known_lines[i].as_str();
        let mut hit = false;
        let mut k: usize = 0;
        while k < patterns.len()
            invariant
                ps == doc_view(patterns@),
                i < known_lines@.len(),
                d == doc_view(known_lines@),
                line@ == d[i as int],
                k <= patterns@.len(),
                hit == exists|m: int| 0 <= m < k && contains_seq(line@, #[trigger] ps[m]),
            decreases patterns@.len() - k,
        {
            if contains(line, patterns[k].as_str()) {
                assert(contains_seq(line@, ps[k as int]));
                hit = true;
            }
            assert(hit == exists|m: int| 0 <= m < k + 1 && contains_seq(line@, #[trigger] ps[m]));
            k = k + 1;
        }
        proof {
            let s = d.subrange(0, i + 1);
            assert(s.drop_last() =~= d.subrange(0, i as int));
            assert(s.last() == d[i as int]);
            reveal(Seq::filter);
        }
        if !hit {
            kept.push(String::from_str(line));
        }
        proof {
            assert(doc_view(kept@) =~= d.subrange(0, i + 1).filter(pred));
        }
        i = i + 1;
    }
    assert(d.subrange(0, d.len() as int) =~= d);
    kept
}

} // verus!
