//! The host registry: the latest report of every host, found by its `ip`.
//!
//! The registry is a map from `ip` to report. `upsert` overwrites, `snapshot`
//! copies everything out. Nothing is ever removed and nothing is merged: the
//! last report written for an `ip` is the one that is read.

use crate::report::{report_views, HostInfo, HostInfoView};
use vstd::prelude::*;

verus! {

/// Some report in `reports` has this `ip`.
pub open spec fn holds_ip(reports: Seq<HostInfoView>, ip: Seq<char>) -> bool {
    exists|i: int| 0 <= i < reports.len() && (#[trigger] reports[i]).ip == ip
}

/// No two reports in `reports` have the same `ip`.
pub open spec fn distinct_ips(reports: Seq<HostInfoView>) -> bool {
    forall|i: int, j: int|
        0 <= i < j < reports.len() ==> (#[trigger] reports[i]).ip != (#[trigger] reports[j]).ip
}

/// Every report in `reports` names its host: no `ip` is empty.
pub open spec fn named_hosts(reports: Seq<HostInfoView>) -> bool {
    forall|i: int| 0 <= i < reports.len() ==> (#[trigger] reports[i]).ip.len() > 0
}

/// No host is registered under the empty `ip`.
pub open spec fn no_empty_key(hosts: Map<Seq<char>, HostInfoView>) -> bool {
    forall|ip: Seq<char>| #[trigger] hosts.contains_key(ip) ==> ip.len() > 0
}

/// `reports` lists `hosts`: every registered host once, with the report that
/// is stored for it, and nothing else. The order is left open.
pub open spec fn is_snapshot(
    hosts: Map<Seq<char>, HostInfoView>,
    reports: Seq<HostInfoView>,
) -> bool {
    &&& distinct_ips(reports)
    &&& forall|i: int|
        0 <= i < reports.len() ==> hosts.contains_key((#[trigger] reports[i]).ip)
            && hosts[reports[i].ip] == reports[i]
    &&& forall|ip: Seq<char>| #[trigger] hosts.contains_key(ip) ==> holds_ip(reports, ip)
}

/// The latest report of every host that has reported.
pub struct Registry {
    entries: Vec<HostInfo>,
}

impl View for Registry {
    type V = Map<Seq<char>, HostInfoView>;

    /// The registry as a map from `ip` to the report stored for it.
    closed spec fn view(&self) -> Map<Seq<char>, HostInfoView> {
        as_map(report_views(self.entries@))
    }
}

impl Registry {
    #[verifier::type_invariant]
    spec fn one_entry_per_named_host(self) -> bool {
        &&& distinct_ips(report_views(self.entries@))
        &&& named_hosts(report_views(self.entries@))
    }

    /// A registry in which no host has reported yet.
    pub fn new() -> (registry: Registry)
        ensures
            registry@ == Map::<Seq<char>, HostInfoView>::empty(),
    {
        let registry = Registry { entries: Vec::new() };
        assert(registry@ =~= Map::<Seq<char>, HostInfoView>::empty());
        registry
    }

    /// Stores `report` as the report of the host `report.ip`. A report that
    /// was stored for that host before is dropped whole; every other host
    /// keeps its report. The `ip` is the key as it stands, without trimming
    /// or parsing; it must not be empty, and a report without one is to be
    /// turned away before it gets here.
    pub fn upsert(&mut self, report: HostInfo)
        requires
            report.ip@.len() > 0,
        ensures
            final(self)@ == old(self)@.insert(report.ip@, report@),
            no_empty_key(final(self)@),
            final(self)@.len() == old(self)@.len() + if old(self)@.contains_key(report.ip@) {
                0nat
            } else {
                1nat
            },
    {
        proof {
            use_type_invariant(&*self);
        }
        let mut entries: Vec<HostInfo> = Vec::new();
        std::mem::swap(&mut entries, &mut self.entries);
        let ghost before = report_views(entries@);
        proof {
            lemma_as_map_is_snapshot(before);
            lemma_snapshot_len(as_map(before), before);
        }
        match position(&entries, &report.ip) {
            Some(k) => {
                proof {
                    lemma_replace(before, k as int, report@);
                    assert(before[k as int].ip == report.ip@);
                }
                entries.set(k, report);
                assert(report_views(entries@) =~= before.update(k as int, report@));
            },
            None => {
                proof {
                    lemma_append(before, report@);
                }
                entries.push(report);
                assert(report_views(entries@) =~= before.push(report@));
            },
        }
        proof {
            let after = report_views(entries@);
            assert(named_hosts(after)) by {
                assert forall|i: int| 0 <= i < after.len() implies (#[trigger] after[i]).ip.len()
                    > 0 by {
                    if after[i].ip != report.ip@ {
                        assert(before[i].ip == after[i].ip);
                    }
                }
            }
            lemma_as_map_is_snapshot(after);
            lemma_snapshot_len(as_map(after), after);
            lemma_named_hosts_have_keys(as_map(after), after);
        }
        self.entries = entries;
    }

    /// A copy of every stored report, one for each host that has reported.
    /// The copies share nothing with the registry. Their order is left open.
    pub fn snapshot(&self) -> (reports: Vec<HostInfo>)
        ensures
            is_snapshot(self@, report_views(reports@)),
            reports@.len() == self@.len(),
            named_hosts(report_views(reports@)),
    {
        proof {
            use_type_invariant(self);
        }
        let mut reports: Vec<HostInfo> = Vec::new();
        let mut i: usize = 0;
        while i < self.entries.len()
            invariant
                i <= self.entries@.len(),
                reports@.len() == i,
                forall|k: int| 0 <= k < i ==> reports@[k]@ == self.entries@[k]@,
            decreases self.entries@.len() - i,
        {
            reports.push(self.entries[i].clone());
            i += 1;
        }
        proof {
            assert(report_views(reports@) =~= report_views(self.entries@));
            lemma_as_map_is_snapshot(report_views(self.entries@));
            lemma_snapshot_len(self@, report_views(reports@));
        }
        reports
    }
}

/// A snapshot has one report for each registered host: as many reports as
/// the registry has hosts. In particular a registry always holds finitely
/// many hosts.
pub proof fn lemma_snapshot_len(hosts: Map<Seq<char>, HostInfoView>, reports: Seq<HostInfoView>)
    requires
        is_snapshot(hosts, reports),
    ensures
        hosts.dom().finite(),
        hosts.len() == reports.len(),
    decreases reports.len(),
{
    if reports.len() == 0 {
        assert(hosts.dom() =~= Set::<Seq<char>>::empty());
    } else {
        let last = reports.last();
        let rest = reports.drop_last();
        let fewer = hosts.remove(last.ip);
        assert(is_snapshot(fewer, rest)) by {
            assert forall|ip: Seq<char>| #[trigger] fewer.contains_key(ip) implies holds_ip(
                rest,
                ip,
            ) by {
                let i = index_of_ip(reports, ip);
                assert(rest[i] == reports[i]);
            }
        }
        lemma_snapshot_len(fewer, rest);
        assert(hosts.dom() =~= fewer.dom().insert(last.ip));
    }
}

/// Where every listed report names its host, no host is registered under
/// the empty `ip`.
pub proof fn lemma_named_hosts_have_keys(
    hosts: Map<Seq<char>, HostInfoView>,
    reports: Seq<HostInfoView>,
)
    requires
        is_snapshot(hosts, reports),
        named_hosts(reports),
    ensures
        no_empty_key(hosts),
{
    assert forall|ip: Seq<char>| #[trigger] hosts.contains_key(ip) implies ip.len() > 0 by {
        let i = index_of_ip(reports, ip);
        assert(reports[i].ip == ip);
    }
}

/// Before any host has reported, the snapshot is the empty sequence.
pub proof fn lemma_empty_registry_snapshot(reports: Seq<HostInfoView>)
    requires
        is_snapshot(Map::<Seq<char>, HostInfoView>::empty(), reports),
    ensures
        reports == Seq::<HostInfoView>::empty(),
{
    if reports.len() > 0 {
        assert(Map::<Seq<char>, HostInfoView>::empty().contains_key(reports[0].ip));
    }
    assert(reports =~= Seq::<HostInfoView>::empty());
}

/// Two reports for one `ip`, written one after the other, leave the registry
/// as the second alone would have left it. A snapshot then holds exactly one
/// report for that `ip`, and it is the second, whole.
pub proof fn lemma_same_ip_supersedes(
    hosts: Map<Seq<char>, HostInfoView>,
    first: HostInfoView,
    second: HostInfoView,
    reports: Seq<HostInfoView>,
)
    requires
        first.ip == second.ip,
        is_snapshot(hosts.insert(first.ip, first).insert(second.ip, second), reports),
    ensures
        hosts.insert(first.ip, first).insert(second.ip, second) == hosts.insert(
            second.ip,
            second,
        ),
        exists|i: int| 0 <= i < reports.len() && #[trigger] reports[i] == second,
        forall|i: int, j: int|
            0 <= i < reports.len() && 0 <= j < reports.len() && (#[trigger] reports[i]).ip
                == second.ip && (#[trigger] reports[j]).ip == second.ip ==> i == j,
{
    let after = hosts.insert(first.ip, first).insert(second.ip, second);
    assert(after =~= hosts.insert(second.ip, second));
    assert(after.contains_key(second.ip));
    let k = index_of_ip(reports, second.ip);
    assert(reports[k] == second);
}

/// Reports for two different `ip`s do not touch each other: after both are
/// written, in either order, a snapshot holds each of them as it was written.
pub proof fn lemma_distinct_ips_isolated(
    hosts: Map<Seq<char>, HostInfoView>,
    one: HostInfoView,
    other: HostInfoView,
    reports: Seq<HostInfoView>,
)
    requires
        one.ip != other.ip,
        is_snapshot(hosts.insert(one.ip, one).insert(other.ip, other), reports),
    ensures
        hosts.insert(one.ip, one).insert(other.ip, other) == hosts.insert(other.ip, other).insert(
            one.ip,
            one,
        ),
        exists|i: int| 0 <= i < reports.len() && #[trigger] reports[i] == one,
        exists|j: int| 0 <= j < reports.len() && #[trigger] reports[j] == other,
{
    let after = hosts.insert(one.ip, one).insert(other.ip, other);
    assert(after =~= hosts.insert(other.ip, other).insert(one.ip, one));
    assert(after.contains_key(one.ip));
    let i = index_of_ip(reports, one.ip);
    assert(reports[i] == one);
    assert(after.contains_key(other.ip));
    let j = index_of_ip(reports, other.ip);
    assert(reports[j] == other);
}

/// Where the report with this `ip` stands in `entries`, if there is one.
fn position(entries: &Vec<HostInfo>, ip: &String) -> (found: Option<usize>)
    ensures
        match found {
            Some(k) => k < entries@.len() && entries@[k as int].ip@ == ip@,
            None => !holds_ip(report_views(entries@), ip@),
        },
{
    let mut i: usize = 0;
    while i < entries.len()
        invariant
            i <= entries@.len(),
            forall|k: int| 0 <= k < i ==> entries@[k].ip@ != ip@,
        decreases entries@.len() - i,
    {
        if entries[i].ip == *ip {
            return Some(i);
        }
        i += 1;
    }
    proof {
        if holds_ip(report_views(entries@), ip@) {
            let k = index_of_ip(report_views(entries@), ip@);
            assert(entries@[k].ip@ == ip@);
        }
    }
    None
}

/// An index at which `reports` holds a report with this `ip`, if it holds one.
spec fn index_of_ip(reports: Seq<HostInfoView>, ip: Seq<char>) -> int {
    choose|i: int| 0 <= i < reports.len() && (#[trigger] reports[i]).ip == ip
}

/// The map from each `ip` in `reports` to a report that has it.
spec fn as_map(reports: Seq<HostInfoView>) -> Map<Seq<char>, HostInfoView> {
    Map::new(|ip: Seq<char>| holds_ip(reports, ip), |ip: Seq<char>| reports[index_of_ip(reports, ip)])
}

proof fn lemma_as_map_at(reports: Seq<HostInfoView>, k: int)
    requires
        distinct_ips(reports),
        0 <= k < reports.len(),
    ensures
        as_map(reports).contains_key(reports[k].ip),
        as_map(reports)[reports[k].ip] == reports[k],
{
    assert(index_of_ip(reports, reports[k].ip) == k);
}

proof fn lemma_as_map_is_snapshot(reports: Seq<HostInfoView>)
    requires
        distinct_ips(reports),
    ensures
        is_snapshot(as_map(reports), reports),
{
    assert forall|i: int| 0 <= i < reports.len() implies as_map(reports).contains_key(
        (#[trigger] reports[i]).ip,
    ) && as_map(reports)[reports[i].ip] == reports[i] by {
        lemma_as_map_at(reports, i);
    }
}

proof fn lemma_replace(reports: Seq<HostInfoView>, k: int, report: HostInfoView)
    requires
        distinct_ips(reports),
        0 <= k < reports.len(),
        reports[k].ip == report.ip,
    ensures
        distinct_ips(reports.update(k, report)),
        as_map(reports.update(k, report)) == as_map(reports).insert(report.ip, report),
{
    let after = reports.update(k, report);
    let expected = as_map(reports).insert(report.ip, report);
    assert forall|i: int| 0 <= i < after.len() implies (#[trigger] after[i]).ip
        == reports[i].ip by {}
    assert forall|ip: Seq<char>| as_map(after).contains_key(ip) <==> expected.contains_key(
        ip,
    ) by {
        if holds_ip(after, ip) {
            let i = index_of_ip(after, ip);
            assert(reports[i].ip == ip);
        }
        if holds_ip(reports, ip) {
            let i = index_of_ip(reports, ip);
            assert(after[i].ip == ip);
        }
    }
    assert forall|ip: Seq<char>| as_map(after).contains_key(ip) implies as_map(after)[ip]
        == expected[ip] by {
        let i = index_of_ip(after, ip);
        lemma_as_map_at(after, i);
        if i != k {
            lemma_as_map_at(reports, i);
        }
    }
    assert(as_map(after) =~= expected);
}

proof fn lemma_append(reports: Seq<HostInfoView>, report: HostInfoView)
    requires
        distinct_ips(reports),
        !holds_ip(reports, report.ip),
    ensures
        distinct_ips(reports.push(report)),
        as_map(reports.push(report)) == as_map(reports).insert(report.ip, report),
{
    let after = reports.push(report);
    let last = reports.len() as int;
    let expected = as_map(reports).insert(report.ip, report);
    assert forall|ip: Seq<char>| as_map(after).contains_key(ip) <==> expected.contains_key(
        ip,
    ) by {
        if holds_ip(after, ip) {
            let i = index_of_ip(after, ip);
            assert(i == last || reports[i].ip == ip);
        }
        if holds_ip(reports, ip) {
            let i = index_of_ip(reports, ip);
            assert(after[i].ip == ip);
        }
        if ip == report.ip {
            assert(after[last].ip == ip);
        }
    }
    assert forall|ip: Seq<char>| as_map(after).contains_key(ip) implies as_map(after)[ip]
        == expected[ip] by {
        let i = index_of_ip(after, ip);
        lemma_as_map_at(after, i);
        if i < last {
            lemma_as_map_at(reports, i);
        }
    }
    assert(as_map(after) =~= expected);
}

} // verus!
