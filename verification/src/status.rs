//! The status reporter: a read-only view over the ledger for operational
//! tooling.
//!
//! `status_of` returns one record per ledger entry — module, version, name,
//! applied timestamp and execution duration — with each module's entries in
//! ascending version order. It mutates nothing.

use vstd::prelude::*;
use crate::ledger::{Ledger, LedgerEntry, ledger_keys_unique};
use crate::runner::{lemma_multiset_transfer, lemma_no_duplicates_transfer};

verus! {

/// One applied migration, as shown to an operator.
pub struct MigrationStatus {
    pub module: String,
    pub version: i32,
    pub name: String,
    pub applied_at: String,
    pub execution_time_ms: i32,
}

/// The status record `st` reports the ledger entry `e`.
pub open spec fn status_matches(st: MigrationStatus, e: LedgerEntry) -> bool {
    &&& st.module@ == e.module@
    &&& st.version == e.version
    &&& st.name@ == e.name@
    &&& st.applied_at@ == e.applied_at@
    &&& st.execution_time_ms == e.execution_time_ms
}

/// `st` reports some entry of `l`.
pub open spec fn reports_some_entry(st: MigrationStatus, l: Seq<LedgerEntry>) -> bool {
    exists|i: int| 0 <= i < l.len() && status_matches(st, #[trigger] l[i])
}

/// Some record of `r` reports the entry `e`.
pub open spec fn entry_reported(e: LedgerEntry, r: Seq<MigrationStatus>) -> bool {
    exists|k: int| 0 <= k < r.len() && status_matches(#[trigger] r[k], e)
}

/// What a status report is: one record per ledger entry, no more and no
/// less, with each module's records in strictly ascending version order.
pub open spec fn status_post(l: Seq<LedgerEntry>, r: Seq<MigrationStatus>) -> bool {
    &&& r.len() == l.len()
    &&& forall|k: int| 0 <= k < r.len() ==> reports_some_entry(#[trigger] r[k], l)
    &&& forall|i: int| 0 <= i < l.len() ==> entry_reported(#[trigger] l[i], r)
    &&& forall|k1: int, k2: int|
        0 <= k1 < k2 < r.len() && r[k1].module@ == r[k2].module@ ==> r[k1].version < r[k2].version
}

/// Entry versions never decrease along the sequence.
spec fn entries_sorted_by_version(s: Seq<LedgerEntry>) -> bool {
    forall|i: int, j: int| 0 <= i < j < s.len() ==> s[i].version <= s[j].version
}

/// Sort ledger entries by version, keeping exactly the same collection.
fn sort_entries_by_version(v: Vec<LedgerEntry>) -> (r: Vec<LedgerEntry>)
    ensures
        r@.to_multiset() == v@.to_multiset(),
        r@.len() == v@.len(),
        entries_sorted_by_version(r@),
{
    broadcast use vstd::seq_lib::group_to_multiset_ensures;
    broadcast use vstd::multiset::group_multiset_axioms;

    let mut input = v;
    let mut out: Vec<LedgerEntry> = Vec::new();
    while input.len() > 0
        invariant
            out@.to_multiset().add(input@.to_multiset()) =~= v@.to_multiset(),
            out@.len() + input@.len() == v@.len(),
            entries_sorted_by_version(out@),
        decreases input@.len(),
    {
        let ghost old_input = input@;
        let ghost old_out = out@;
        let e = match input.pop() {
            Some(e) => e,
            None => {
                proof {
                    assert(false);
                }
                unreached()
            },
        };
        proof {
            broadcast use vstd::seq_lib::group_to_multiset_ensures;
            broadcast use vstd::multiset::group_multiset_axioms;

            let last = old_input.len() - 1;
            assert(old_input.remove(last) =~= input@);
            assert(old_input.remove(last).to_multiset() == old_input.to_multiset().remove(e));
            assert(old_input.contains(e));
            assert(old_input.to_multiset().count(e) > 0);
            assert(input@.to_multiset().insert(e) =~= old_input.to_multiset());
        }
        let mut pos: usize = 0;
        while pos < out.len() && out[pos].version <= e.version
            invariant
                pos <= out@.len(),
                out@ == old_out,
                entries_sorted_by_version(out@),
                forall|k: int| 0 <= k < pos ==> out@[k].version <= e.version,
            decreases out@.len() - pos,
        {
            pos = pos + 1;
        }
        assert(pos < out@.len() ==> out@[pos as int].version > e.version);
        out.insert(pos, e);
        proof {
            broadcast use vstd::seq_lib::group_to_multiset_ensures;
            broadcast use vstd::multiset::group_multiset_axioms;

            assert(out@ == old_out.insert(pos as int, e));
            assert(old_out.insert(pos as int, e).to_multiset() == old_out.to_multiset().insert(e));
            assert(out@.to_multiset().add(input@.to_multiset()) =~= v@.to_multiset());
            assert forall|i: int, j: int| 0 <= i < j < out@.len() implies out@[i].version
                <= out@[j].version by {
                if j < pos {
                    assert(out@[i] == old_out[i] && out@[j] == old_out[j]);
                } else if j == pos {
                    assert(out@[i] == old_out[i]);
                } else if i < pos {
                    assert(out@[i] == old_out[i] && out@[j] == old_out[j - 1]);
                    assert(old_out[pos as int].version > e.version);
                    assert(out@[i].version <= e.version);
                    assert(old_out[i].version <= old_out[j - 1].version || i == j - 1);
                } else if i == pos {
                    assert(out@[j] == old_out[j - 1] && pos <= j - 1 < old_out.len());
                    assert(old_out[pos as int].version > e.version);
                    assert(pos < j - 1 ==> old_out[pos as int].version <= old_out[j - 1].version);
                } else {
                    assert(out@[i] == old_out[i - 1] && out@[j] == old_out[j - 1]);
                }
            }
        }
    }
    proof {
        assert(input@.to_multiset() =~= vstd::multiset::Multiset::<LedgerEntry>::empty());
        assert(out@.to_multiset() =~= v@.to_multiset());
    }
    out
}

/// Every applied migration, with its module, version, name, applied
/// timestamp and execution duration, each module's entries in ascending
/// version order. Read-only, and safe on a fresh ledger: zero entries give
/// an empty report.
pub fn status_of(ledger: &Ledger) -> (r: Vec<MigrationStatus>)
    requires
        ledger.wf(),
    ensures
        status_post(ledger@, r@),
{
    let source = ledger.entries();
    let n = source.len();
    let mut copied: Vec<LedgerEntry> = Vec::new();
    let mut i: usize = 0;
    while i < n
        invariant
            n == ledger@.len(),
            source@ == ledger@,
            i <= n,
            copied@.len() == i,
            forall|k: int|
                0 <= k < i ==> crate::ledger::entry_eq(#[trigger] copied@[k], ledger@[k]),
        decreases n - i,
    {
        copied.push(source[i].duplicate());
        i = i + 1;
    }
    let ghost cop = copied@;
    let sorted = sort_entries_by_version(copied);
    let m = sorted.len();
    let mut report: Vec<MigrationStatus> = Vec::new();
    let mut k: usize = 0;
    while k < m
        invariant
            m == sorted@.len(),
            k <= m,
            report@.len() == k,
            forall|t: int|
                0 <= t < k ==> status_matches(#[trigger] report@[t], sorted@[t]),
        decreases m - k,
    {
        let st = MigrationStatus {
            module: sorted[k].module.clone(),
            version: sorted[k].version,
            name: sorted[k].name.clone(),
            applied_at: sorted[k].applied_at.clone(),
            execution_time_ms: sorted[k].execution_time_ms,
        };
        report.push(st);
        k = k + 1;
    }
    proof {
        lemma_status_report(ledger@, cop, sorted@, report@);
    }
    report
}

/// The mapped, sorted copy of the ledger is a status report for it.
proof fn lemma_status_report(
    l: Seq<LedgerEntry>,
    cop: Seq<LedgerEntry>,
    sorted: Seq<LedgerEntry>,
    r: Seq<MigrationStatus>,
)
    requires
        ledger_keys_unique(l),
        cop.len() == l.len(),
        forall|k: int| 0 <= k < cop.len() ==> crate::ledger::entry_eq(#[trigger] cop[k], l[k]),
        sorted.to_multiset() == cop.to_multiset(),
        sorted.len() == cop.len(),
        entries_sorted_by_version(sorted),
        r.len() == sorted.len(),
        forall|t: int| 0 <= t < r.len() ==> status_matches(#[trigger] r[t], sorted[t]),
    ensures
        status_post(l, r),
{
    assert forall|k: int| 0 <= k < r.len() implies reports_some_entry(#[trigger] r[k], l) by {
        assert(sorted.contains(sorted[k]));
        lemma_multiset_transfer(sorted, cop, sorted[k]);
        let i0 = choose|i0: int| 0 <= i0 < cop.len() && cop[i0] == sorted[k];
        assert(crate::ledger::entry_eq(cop[i0], l[i0]));
        assert(status_matches(r[k], l[i0]));
    }
    assert forall|i: int| 0 <= i < l.len() implies entry_reported(#[trigger] l[i], r) by {
        assert(cop.contains(cop[i]));
        lemma_multiset_transfer(cop, sorted, cop[i]);
        let k0 = choose|k0: int| 0 <= k0 < sorted.len() && sorted[k0] == cop[i];
        assert(status_matches(r[k0], sorted[k0]));
        assert(crate::ledger::entry_eq(cop[i], l[i]));
        assert(status_matches(r[k0], l[i]));
    }
    // Keys are pairwise distinct in the sorted copy, so equal modules force
    // strictly increasing versions.
    assert forall|a: int, b: int| 0 <= a < b < cop.len() implies cop[a] != cop[b] by {
        assert(crate::ledger::entry_eq(cop[a], l[a]));
        assert(crate::ledger::entry_eq(cop[b], l[b]));
        assert(!(l[a].module@ == l[b].module@ && l[a].version == l[b].version));
    }
    assert(cop.no_duplicates());
    lemma_no_duplicates_transfer(cop, sorted);
    assert forall|k1: int, k2: int|
        0 <= k1 < k2 < r.len() && r[k1].module@ == r[k2].module@ implies r[k1].version
        < r[k2].version by {
        assert(status_matches(r[k1], sorted[k1]));
        assert(status_matches(r[k2], sorted[k2]));
        assert(sorted[k1].version <= sorted[k2].version);
        if sorted[k1].version == sorted[k2].version {
            assert(sorted[k1] != sorted[k2]);
            assert(sorted.contains(sorted[k1]));
            lemma_multiset_transfer(sorted, cop, sorted[k1]);
            assert(sorted.contains(sorted[k2]));
            lemma_multiset_transfer(sorted, cop, sorted[k2]);
            let a = choose|a: int| 0 <= a < cop.len() && cop[a] == sorted[k1];
            let b = choose|b: int| 0 <= b < cop.len() && cop[b] == sorted[k2];
            assert(a != b);
            assert(crate::ledger::entry_eq(cop[a], l[a]));
            assert(crate::ledger::entry_eq(cop[b], l[b]));
            if a < b {
                assert(!(l[a].module@ == l[b].module@ && l[a].version == l[b].version));
            } else {
                assert(!(l[b].module@ == l[a].module@ && l[b].version == l[a].version));
            }
            assert(false);
        }
    }
}

} // verus!
