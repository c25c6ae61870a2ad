//! The migration runner's planning logic: decides, from the ledger and the
//! supplied descriptors, which migrations are pending and in which order
//! they run.
//!
//! Per module, migrations execute in ascending version order whatever the
//! order of the input; migrations already recorded in the ledger are
//! skipped. `is_plan` is the exact statement of that contract, and
//! `pending_migrations` is proved to produce such a plan.

use vstd::prelude::*;
use vstd::seq_lib::group_to_multiset_ensures;
use vstd::multiset::{Multiset, group_multiset_axioms};
use crate::migrations::{Migration, mig_eq, same_key, unique_keys, checksum_spec, id_spec};
use crate::ledger::{Ledger, LedgerEntry, ledger_has, ledger_keys_unique};

verus! {

/// Versions never decrease along the sequence.
pub open spec fn sorted_by_version(s: Seq<Migration>) -> bool {
    forall|i: int, j: int| 0 <= i < j < s.len() ==> s[i].version <= s[j].version
}

/// `m` is field-equal to some element of `ms`.
pub open spec fn appears_in(m: Migration, ms: Seq<Migration>) -> bool {
    exists|j: int| 0 <= j < ms.len() && mig_eq(m, #[trigger] ms[j])
}

/// The migrations of `migs` whose key is absent from `l`, in some order:
/// membership in both directions, plus pairwise distinct keys.
pub open spec fn is_selection(migs: Seq<Migration>, l: Seq<LedgerEntry>, s: Seq<Migration>) -> bool {
    &&& forall|k: int| 0 <= k < s.len() ==> appears_in(#[trigger] s[k], migs)
    &&& forall|k: int|
        0 <= k < s.len() ==> !ledger_has(l, (#[trigger] s[k]).module@, s[k].version as int)
    &&& forall|j: int|
        0 <= j < migs.len() && !ledger_has(l, (#[trigger] migs[j]).module@, migs[j].version as int)
            ==> appears_in(migs[j], s)
    &&& forall|k1: int, k2: int| 0 <= k1 < k2 < s.len() ==> !same_key(s[k1], s[k2])
}

/// What a correct execution plan is: exactly the supplied migrations whose
/// `(module, version)` key is absent from the ledger, with each module's
/// migrations in strictly ascending version order.
pub open spec fn is_plan(migs: Seq<Migration>, l: Seq<LedgerEntry>, p: Seq<Migration>) -> bool {
    &&& is_selection(migs, l, p)
    &&& forall|i: int, j: int|
        0 <= i < j < p.len() && p[i].module@ == p[j].module@ ==> p[i].version < p[j].version
}

/// Sort migrations by version, keeping exactly the same collection of
/// descriptors.
fn sort_by_version_exec(v: Vec<Migration>) -> (r: Vec<Migration>)
    ensures
        r@.to_multiset() == v@.to_multiset(),
        r@.len() == v@.len(),
        sorted_by_version(r@),
{
    broadcast use group_to_multiset_ensures;
    broadcast use group_multiset_axioms;

    let mut input = v;
    let mut out: Vec<Migration> = Vec::new();
    while input.len() > 0
        invariant
            out@.to_multiset().add(input@.to_multiset()) =~= v@.to_multiset(),
            out@.len() + input@.len() == v@.len(),
            sorted_by_version(out@),
        decreases input@.len(),
    {
        let ghost old_input = input@;
        let ghost old_out = out@;
        let m = match input.pop() {
            Some(m) => m,
            None => {
                proof {
                    assert(false);
                }
                unreached()
            },
        };
        proof {
            broadcast use group_to_multiset_ensures;
            broadcast use group_multiset_axioms;

            let last = old_input.len() - 1;
            assert(old_input.remove(last) =~= input@);
            assert(old_input.remove(last).to_multiset() == old_input.to_multiset().remove(m));
            assert(old_input.contains(m));
            assert(old_input.to_multiset().count(m) > 0);
            assert(input@.to_multiset().insert(m) =~= old_input.to_multiset());
        }
        let mut pos: usize = 0;
        while pos < out.len() && out[pos].version <= m.version
            invariant
                pos <= out@.len(),
                out@ == old_out,
                sorted_by_version(out@),
                forall|k: int| 0 <= k < pos ==> out@[k].version <= m.version,
            decreases out@.len() - pos,
        {
            pos = pos + 1;
        }
        assert(pos < out@.len() ==> out@[pos as int].version > m.version);
        out.insert(pos, m);
        proof {
            broadcast use group_to_multiset_ensures;
            broadcast use group_multiset_axioms;

            assert(out@ == old_out.insert(pos as int, m));
            assert(old_out.insert(pos as int, m).to_multiset() == old_out.to_multiset().insert(m));
            assert(out@.to_multiset().add(input@.to_multiset()) =~= v@.to_multiset());
            assert forall|i: int, j: int| 0 <= i < j < out@.len() implies out@[i].version
                <= out@[j].version by {
                if j < pos {
                    assert(out@[i] == old_out[i] && out@[j] == old_out[j]);
                } else if j == pos {
                    assert(out@[i] == old_out[i]);
                } else if i < pos {
                    assert(out@[i] == old_out[i] && out@[j] == old_out[j - 1]);
                    assert(old_out[pos as int].version > m.version);
                    assert(out@[i].version <= m.version);
                    assert(old_out[i].version <= old_out[j - 1].version || i == j - 1);
                } else if i == pos {
                    assert(out@[j] == old_out[j - 1] && pos <= j - 1 < old_out.len());
                    assert(old_out[pos as int].version > m.version);
                    assert(pos < j - 1 ==> old_out[pos as int].version <= old_out[j - 1].version);
                } else {
                    assert(out@[i] == old_out[i - 1] && out@[j] == old_out[j - 1]);
                }
            }
        }
    }
    proof {
        assert(input@.to_multiset() =~= Multiset::<Migration>::empty());
        assert(out@.to_multiset() =~= v@.to_multiset());
    }
    out
}

/// Collect the migrations whose key the ledger does not hold, in input
/// order.
fn select_pending(migrations: &Vec<Migration>, ledger: &Ledger) -> (s: Vec<Migration>)
    requires
        unique_keys(migrations@),
        ledger.wf(),
    ensures
        is_selection(migrations@, ledger@, s@),
        s@.len() <= migrations@.len(),
{
    let n = migrations.len();
    let mut selected: Vec<Migration> = Vec::new();
    let mut i: usize = 0;
    while i < n
        invariant
            n == migrations@.len(),
            i <= n,
            unique_keys(migrations@),
            selected@.len() <= i,
            forall|k: int|
                0 <= k < selected@.len() ==> appears_in(
                    #[trigger] selected@[k],
                    migrations@.take(i as int),
                ),
            forall|k: int|
                0 <= k < selected@.len() ==> !ledger_has(
                    ledger@,
                    (#[trigger] selected@[k]).module@,
                    selected@[k].version as int,
                ),
            forall|j: int|
                0 <= j < i && !ledger_has(
                    ledger@,
                    (#[trigger] migrations@[j]).module@,
                    migrations@[j].version as int,
                ) ==> appears_in(migrations@[j], selected@),
            forall|k1: int, k2: int|
                0 <= k1 < k2 < selected@.len() ==> !same_key(selected@[k1], selected@[k2]),
        decreases n - i,
    {
        let ghost old_sel = selected@;
        let ghost prefix = migrations@.take(i as int);
        let ghost next_prefix = migrations@.take(i as int + 1);
        if !ledger.contains(&migrations[i].module, migrations[i].version) {
            let picked = migrations[i].duplicate();
            selected.push(picked);
            proof {
                let s = selected@;
                assert(next_prefix[i as int] == migrations@[i as int]);
                assert(mig_eq(s[s.len() - 1], next_prefix[i as int]));
                assert(appears_in(s[s.len() - 1], next_prefix));
                assert forall|k: int| 0 <= k < s.len() implies appears_in(
                    #[trigger] s[k],
                    next_prefix,
                ) by {
                    if k < s.len() - 1 {
                        assert(s[k] == old_sel[k]);
                        assert(appears_in(old_sel[k], prefix));
                        let j0 = choose|j0: int|
                            0 <= j0 < prefix.len() && mig_eq(old_sel[k], #[trigger] prefix[j0]);
                        assert(next_prefix[j0] == prefix[j0]);
                        assert(mig_eq(s[k], next_prefix[j0]));
                    }
                }
                assert forall|k1: int, k2: int| 0 <= k1 < k2 < s.len() implies !same_key(
                    s[k1],
                    s[k2],
                ) by {
                    if k2 == s.len() - 1 {
                        assert(appears_in(old_sel[k1], prefix));
                        let j1 = choose|j1: int|
                            0 <= j1 < prefix.len() && mig_eq(old_sel[k1], #[trigger] prefix[j1]);
                        assert(prefix[j1] == migrations@[j1]);
                        assert(!same_key(migrations@[j1], migrations@[i as int]));
                    } else {
                        assert(s[k1] == old_sel[k1] && s[k2] == old_sel[k2]);
                    }
                }
                assert forall|j: int|
                    0 <= j < i + 1 && !ledger_has(
                        ledger@,
                        (#[trigger] migrations@[j]).module@,
                        migrations@[j].version as int,
                    ) implies appears_in(migrations@[j], s) by {
                    if j == i {
                        assert(mig_eq(migrations@[j], s[s.len() - 1]));
                    } else {
                        assert(appears_in(migrations@[j], old_sel));
                        let k0 = choose|k0: int|
                            0 <= k0 < old_sel.len() && mig_eq(
                                migrations@[j],
                                #[trigger] old_sel[k0],
                            );
                        assert(s[k0] == old_sel[k0]);
                        assert(mig_eq(migrations@[j], s[k0]));
                    }
                }
            }
        } else {
            proof {
                let s = selected@;
                assert forall|k: int| 0 <= k < s.len() implies appears_in(
                    #[trigger] s[k],
                    next_prefix,
                ) by {
                    assert(appears_in(s[k], prefix));
                    let j0 = choose|j0: int|
                        0 <= j0 < prefix.len() && mig_eq(s[k], #[trigger] prefix[j0]);
                    assert(next_prefix[j0] == prefix[j0]);
                    assert(mig_eq(s[k], next_prefix[j0]));
                }
            }
        }
        i = i + 1;
    }
    proof {
        assert(migrations@.take(i as int) =~= migrations@);
    }
    selected
}

/// An element of one sequence is an element of any rearrangement of it.
pub(crate) proof fn lemma_multiset_transfer<A>(s1: Seq<A>, s2: Seq<A>, x: A)
    requires
        s1.to_multiset() == s2.to_multiset(),
        s1.contains(x),
    ensures
        s2.contains(x),
{
    broadcast use group_to_multiset_ensures;

    assert(s1.to_multiset().count(x) > 0);
    assert(s2.to_multiset().count(x) > 0);
}

/// A rearrangement of a duplicate-free sequence is duplicate-free.
pub(crate) proof fn lemma_no_duplicates_transfer<A>(s1: Seq<A>, s2: Seq<A>)
    requires
        s1.to_multiset() == s2.to_multiset(),
        s1.no_duplicates(),
    ensures
        s2.no_duplicates(),
{
    s1.lemma_multiset_has_no_duplicates();
    assert forall|x: A| s2.to_multiset().contains(x) implies s2.to_multiset().count(x) == 1 by {
        assert(s1.to_multiset().contains(x));
    }
    s2.lemma_multiset_has_no_duplicates_conv();
}

/// Reordering a selection keeps every element a pending input migration.
proof fn lemma_reordered_members(
    migs: Seq<Migration>,
    l: Seq<LedgerEntry>,
    sel: Seq<Migration>,
    p: Seq<Migration>,
)
    requires
        is_selection(migs, l, sel),
        p.to_multiset() == sel.to_multiset(),
    ensures
        forall|k: int| 0 <= k < p.len() ==> appears_in(#[trigger] p[k], migs),
        forall|k: int|
            0 <= k < p.len() ==> !ledger_has(l, (#[trigger] p[k]).module@, p[k].version as int),
{
    assert forall|k: int| 0 <= k < p.len() implies appears_in(#[trigger] p[k], migs)
        && !ledger_has(l, p[k].module@, p[k].version as int) by {
        assert(p.contains(p[k]));
        lemma_multiset_transfer(p, sel, p[k]);
        let k0 = choose|k0: int| 0 <= k0 < sel.len() && sel[k0] == p[k];
        assert(appears_in(sel[k0], migs));
    }
}

/// Reordering a selection keeps every pending input migration present.
proof fn lemma_reordered_coverage(
    migs: Seq<Migration>,
    l: Seq<LedgerEntry>,
    sel: Seq<Migration>,
    p: Seq<Migration>,
)
    requires
        is_selection(migs, l, sel),
        p.to_multiset() == sel.to_multiset(),
    ensures
        forall|j: int|
            0 <= j < migs.len() && !ledger_has(
                l,
                (#[trigger] migs[j]).module@,
                migs[j].version as int,
            ) ==> appears_in(migs[j], p),
{
    assert forall|j: int|
        0 <= j < migs.len() && !ledger_has(
            l,
            (#[trigger] migs[j]).module@,
            migs[j].version as int,
        ) implies appears_in(migs[j], p) by {
        assert(appears_in(migs[j], sel));
        let k = choose|k: int| 0 <= k < sel.len() && mig_eq(migs[j], #[trigger] sel[k]);
        assert(sel.contains(sel[k]));
        lemma_multiset_transfer(sel, p, sel[k]);
        let i0 = choose|i0: int| 0 <= i0 < p.len() && p[i0] == sel[k];
        assert(mig_eq(migs[j], p[i0]));
    }
}

/// Reordering a selection keeps its keys pairwise distinct.
proof fn lemma_reordered_keys(sel: Seq<Migration>, p: Seq<Migration>)
    requires
        forall|k1: int, k2: int| 0 <= k1 < k2 < sel.len() ==> !same_key(sel[k1], sel[k2]),
        p.to_multiset() == sel.to_multiset(),
    ensures
        forall|k1: int, k2: int| 0 <= k1 < k2 < p.len() ==> !same_key(p[k1], p[k2]),
{
    assert forall|a: int, b: int| 0 <= a < b < sel.len() implies sel[a] != sel[b] by {
        assert(!same_key(sel[a], sel[b]));
    }
    assert(sel.no_duplicates());
    lemma_no_duplicates_transfer(sel, p);
    assert forall|k1: int, k2: int| 0 <= k1 < k2 < p.len() implies !same_key(p[k1], p[k2]) by {
        if same_key(p[k1], p[k2]) {
            assert(p[k1] != p[k2]);
            assert(p.contains(p[k1]));
            lemma_multiset_transfer(p, sel, p[k1]);
            assert(p.contains(p[k2]));
            lemma_multiset_transfer(p, sel, p[k2]);
            let a = choose|a: int| 0 <= a < sel.len() && sel[a] == p[k1];
            let b = choose|b: int| 0 <= b < sel.len() && sel[b] == p[k2];
            assert(a != b);
            assert(same_key(sel[a], sel[b]));
            if a < b {
                assert(!same_key(sel[a], sel[b]));
            } else {
                assert(!same_key(sel[b], sel[a]));
            }
            assert(false);
        }
    }
}

/// With pairwise distinct keys, non-decreasing versions are strictly
/// increasing within each module.
proof fn lemma_plan_strictness(p: Seq<Migration>)
    requires
        forall|k1: int, k2: int| 0 <= k1 < k2 < p.len() ==> !same_key(p[k1], p[k2]),
        sorted_by_version(p),
    ensures
        forall|i: int, j: int|
            0 <= i < j < p.len() && p[i].module@ == p[j].module@ ==> p[i].version < p[j].version,
{
    assert forall|i: int, j: int|
        0 <= i < j < p.len() && p[i].module@ == p[j].module@ implies p[i].version
        < p[j].version by {
        assert(p[i].version <= p[j].version);
        assert(!same_key(p[i], p[j]));
    }
}

/// The pending migrations: those of `migrations` not yet recorded in
/// `ledger`, ordered so that each module's versions ascend strictly.
pub fn pending_migrations(migrations: &Vec<Migration>, ledger: &Ledger) -> (p: Vec<Migration>)
    requires
        unique_keys(migrations@),
        ledger.wf(),
    ensures
        is_plan(migrations@, ledger@, p@),
        p@.len() <= migrations@.len(),
{
    let selected = select_pending(migrations, ledger);
    let ghost sel = selected@;
    let sorted = sort_by_version_exec(selected);
    proof {
        lemma_reordered_members(migrations@, ledger@, sel, sorted@);
        lemma_reordered_coverage(migrations@, ledger@, sel, sorted@);
        lemma_reordered_keys(sel, sorted@);
        lemma_plan_strictness(sorted@);
    }
    sorted
}

/// Aggregate counts reported by a run: how many migrations were executed
/// and recorded, and how many were skipped as already applied.
pub struct RunReport {
    pub applied: usize,
    pub skipped: usize,
}

/// The failures a run can surface. Every store-level failure is fatal to
/// the call that met it; nothing is retried.
pub enum MigrationError {
    /// The backing store rejected an operation of the runner's own
    /// (creating the ledger, reading it, or recording an entry).
    DatabaseError(String),
    /// A migration's SQL failed; carries the migration's identifier and the
    /// store's error text.
    ExecutionFailed { id: String, detail: String },
}

/// The message of a `DatabaseError`.
pub open spec fn database_error_message(text: Seq<char>) -> Seq<char> {
    "Database error: "@ + text
}

/// The message of an `ExecutionFailed`.
pub open spec fn execution_failed_message(id: Seq<char>, detail: Seq<char>) -> Seq<char> {
    "Migration "@ + id + " failed: "@ + detail
}

impl MigrationError {
    /// Render the error for an operator, naming the failing migration where
    /// one is known.
    pub fn message(&self) -> (r: String)
        ensures
            match self {
                MigrationError::DatabaseError(text) => r@ == database_error_message(text@),
                MigrationError::ExecutionFailed { id, detail } => r@ == execution_failed_message(
                    id@,
                    detail@,
                ),
            },
    {
        match self {
            MigrationError::DatabaseError(text) => {
                let mut r = String::from_str("Database error: ");
                r.append(text.as_str());
                r
            },
            MigrationError::ExecutionFailed { id, detail } => {
                let mut r = String::from_str("Migration ");
                r.append(id.as_str());
                r.append(" failed: ");
                r.append(detail.as_str());
                r
            },
        }
    }
}

/// The error surfaced when `migration`'s SQL fails with the store error
/// text `detail`.
pub fn execution_error(migration: &Migration, detail: &str) -> (r: MigrationError)
    ensures
        r matches MigrationError::ExecutionFailed { id, detail: d } && id@ == id_spec(
            migration.module@,
            migration.version as int,
        ) && d@ == detail@,
{
    MigrationError::ExecutionFailed { id: migration.id(), detail: detail.to_owned() }
}

/// The ledger entry `e` records the migration `m`: same key and name, and
/// the checksum computed from `m`'s SQL.
pub open spec fn entry_matches(e: LedgerEntry, m: Migration) -> bool {
    &&& e.module@ == m.module@
    &&& e.version == m.version
    &&& e.name@ == m.name@
    &&& e.checksum@ == checksum_spec(m.sql@)
}

/// The entries `news` record exactly the migrations `p`, in order.
pub open spec fn records_match(p: Seq<Migration>, news: Seq<LedgerEntry>) -> bool {
    &&& news.len() == p.len()
    &&& forall|t: int| 0 <= t < p.len() ==> entry_matches(#[trigger] news[t], p[t])
}

/// What a completed run did: `applied` counts the executed plan, `skipped`
/// the rest; the ledger grew by exactly the plan's records, in plan order,
/// and afterwards holds every supplied migration.
pub open spec fn run_post(
    migs: Seq<Migration>,
    l0: Seq<LedgerEntry>,
    l1: Seq<LedgerEntry>,
    applied: int,
    skipped: int,
) -> bool {
    &&& applied + skipped == migs.len()
    &&& l1.len() == l0.len() + applied
    &&& l1.take(l0.len() as int) == l0
    &&& exists|p: Seq<Migration>|
        #[trigger] is_plan(migs, l0, p) && p.len() == applied && records_match(
            p,
            l1.skip(l0.len() as int),
        )
    &&& forall|j: int|
        0 <= j < migs.len() ==> ledger_has(
            l1,
            (#[trigger] migs[j]).module@,
            migs[j].version as int,
        )
}

/// The migration runner over its in-process ledger. This is the reference
/// model of the run protocol: executing a descriptor's SQL is the store's
/// work, so here every execution succeeds at once, with no timestamp and a
/// zero duration; what is verified is the orchestration itself.
pub struct MigrationRunner {
    ledger: Ledger,
}

impl MigrationRunner {
    /// The runner's ledger contents.
    pub closed spec fn ledger_view(&self) -> Seq<LedgerEntry> {
        self.ledger@
    }

    /// The ledger keeps its keys pairwise distinct.
    pub closed spec fn wf(&self) -> bool {
        self.ledger.wf()
    }

    /// A runner over a fresh, empty ledger.
    pub fn new() -> (r: MigrationRunner)
        ensures
            r.wf(),
            r.ledger_view() =~= Seq::<LedgerEntry>::empty(),
    {
        MigrationRunner { ledger: Ledger::new() }
    }

    /// A runner over an existing ledger.
    pub fn with_ledger(ledger: Ledger) -> (r: MigrationRunner)
        requires
            ledger.wf(),
        ensures
            r.wf(),
            r.ledger_view() == ledger@,
    {
        MigrationRunner { ledger }
    }

    /// The ledger, for read-only inspection.
    pub fn ledger(&self) -> (r: &Ledger)
        ensures
            r@ == self.ledger_view(),
    {
        &self.ledger
    }

    /// Whether `migration` is already recorded.
    pub fn is_applied(&self, migration: &Migration) -> (r: bool)
        ensures
            r == ledger_has(self.ledger_view(), migration.module@, migration.version as int),
    {
        self.ledger.contains(&migration.module, migration.version)
    }

    /// Migration status for every module: one record per ledger entry,
    /// each module's entries in ascending version order. Read-only.
    pub fn get_status(&self) -> (r: Vec<crate::status::MigrationStatus>)
        requires
            self.wf(),
        ensures
            crate::status::status_post(self.ledger_view(), r@),
    {
        crate::status::status_of(&self.ledger)
    }

    /// Apply every pending migration: each module's migrations execute in
    /// ascending version order whatever order they were supplied in;
    /// migrations the ledger already holds are skipped, the rest are
    /// recorded. Returns the applied and skipped counts.
    pub fn run_migrations(&mut self, migrations: &Vec<Migration>) -> (r: RunReport)
        requires
            old(self).wf(),
            unique_keys(migrations@),
        ensures
            final(self).wf(),
            run_post(
                migrations@,
                old(self).ledger_view(),
                final(self).ledger_view(),
                r.applied as int,
                r.skipped as int,
            ),
    {
        let ghost l0 = self.ledger@;
        let pending = pending_migrations(migrations, &self.ledger);
        let n = pending.len();
        let mut t: usize = 0;
        while t < n
            invariant
                n == pending@.len(),
                t <= n,
                is_plan(migrations@, l0, pending@),
                self.ledger.wf(),
                self.ledger@.len() == l0.len() + t,
                self.ledger@.take(l0.len() as int) == l0,
                forall|u: int|
                    0 <= u < t ==> entry_matches(
                        #[trigger] self.ledger@[l0.len() + u],
                        pending@[u],
                    ),
                forall|u: int|
                    t <= u < n ==> !ledger_has(
                        self.ledger@,
                        (#[trigger] pending@[u]).module@,
                        pending@[u].version as int,
                    ),
            decreases n - t,
        {
            let ghost old_ledger = self.ledger@;
            let checksum = pending[t].checksum();
            let entry = LedgerEntry {
                module: pending[t].module.clone(),
                version: pending[t].version,
                name: pending[t].name.clone(),
                checksum,
                applied_at: String::new(),
                execution_time_ms: 0,
            };
            proof {
                assert(entry_matches(entry, pending@[t as int]));
            }
            self.ledger.insert(entry);
            proof {
                assert(self.ledger@ == old_ledger.push(entry));
                assert(self.ledger@.take(l0.len() as int) =~= l0);
                assert forall|u: int| t + 1 <= u < n implies !ledger_has(
                    self.ledger@,
                    (#[trigger] pending@[u]).module@,
                    pending@[u].version as int,
                ) by {
                    assert(!same_key(pending@[t as int], pending@[u]));
                    if ledger_has(
                        self.ledger@,
                        pending@[u].module@,
                        pending@[u].version as int,
                    ) {
                        let w = choose|w: int|
                            0 <= w < self.ledger@.len() && self.ledger@[w].module@
                                == pending@[u].module@ && self.ledger@[w].version
                                == pending@[u].version;
                        if w < old_ledger.len() {
                            assert(self.ledger@[w] == old_ledger[w]);
                            assert(ledger_has(
                                old_ledger,
                                pending@[u].module@,
                                pending@[u].version as int,
                            ));
                        } else {
                            assert(self.ledger@[w] == entry);
                            assert(same_key(pending@[t as int], pending@[u]));
                        }
                        assert(false);
                    }
                }
            }
            t = t + 1;
        }
        let skipped = migrations.len() - n;
        proof {
            let l1 = self.ledger@;
            assert(records_match(pending@, l1.skip(l0.len() as int))) by {
                assert forall|u: int| 0 <= u < pending@.len() implies entry_matches(
                    #[trigger] l1.skip(l0.len() as int)[u],
                    pending@[u],
                ) by {
                    assert(l1.skip(l0.len() as int)[u] == l1[l0.len() + u]);
                }
            }
            assert forall|j: int| 0 <= j < migrations@.len() implies ledger_has(
                l1,
                (#[trigger] migrations@[j]).module@,
                migrations@[j].version as int,
            ) by {
                if ledger_has(l0, migrations@[j].module@, migrations@[j].version as int) {
                    let w = choose|w: int|
                        0 <= w < l0.len() && l0[w].module@ == migrations@[j].module@
                            && l0[w].version == migrations@[j].version;
                    assert(l1.take(l0.len() as int)[w] == l1[w]);
                    assert(l1[w] == l0[w]);
                } else {
                    assert(appears_in(migrations@[j], pending@));
                    let k = choose|k: int|
                        0 <= k < pending@.len() && mig_eq(
                            migrations@[j],
                            #[trigger] pending@[k],
                        );
                    assert(entry_matches(l1[l0.len() + k], pending@[k]));
                }
            }
        }
        RunReport { applied: n, skipped }
    }
}

/// Idempotence of `run`: a second run over the same migrations applies
/// nothing, skips them all, and leaves the ledger exactly as it was.
pub proof fn lemma_run_idempotent(
    migs: Seq<Migration>,
    l0: Seq<LedgerEntry>,
    l1: Seq<LedgerEntry>,
    a1: int,
    s1: int,
    l2: Seq<LedgerEntry>,
    a2: int,
    s2: int,
)
    requires
        run_post(migs, l0, l1, a1, s1),
        run_post(migs, l1, l2, a2, s2),
    ensures
        a2 == 0,
        s2 == migs.len(),
        l2 == l1,
{
    let p2 = choose|p2: Seq<Migration>|
        #[trigger] is_plan(migs, l1, p2) && p2.len() == a2 && records_match(
            p2,
            l2.skip(l1.len() as int),
        );
    if p2.len() > 0 {
        assert(appears_in(p2[0], migs));
        let j = choose|j: int| 0 <= j < migs.len() && mig_eq(p2[0], #[trigger] migs[j]);
        assert(ledger_has(l1, migs[j].module@, migs[j].version as int));
        assert(!ledger_has(l1, p2[0].module@, p2[0].version as int));
        assert(false);
    }
    assert(l2.take(l1.len() as int) =~= l2);
    assert(l2 == l1);
}

/// Entries recording a per-module-ascending plan are themselves
/// per-module ascending.
proof fn lemma_records_ordered(p: Seq<Migration>, l0: Seq<LedgerEntry>, l1: Seq<LedgerEntry>)
    requires
        forall|i: int, j: int|
            0 <= i < j < p.len() && p[i].module@ == p[j].module@ ==> p[i].version < p[j].version,
        l1.len() == l0.len() + p.len(),
        records_match(p, l1.skip(l0.len() as int)),
    ensures
        forall|i: int, j: int|
            l0.len() <= i < j < l1.len() && l1[i].module@ == l1[j].module@ ==> l1[i].version
                < l1[j].version,
{
    let news = l1.skip(l0.len() as int);
    assert forall|i: int, j: int|
        l0.len() <= i < j < l1.len() && l1[i].module@ == l1[j].module@ implies l1[i].version
        < l1[j].version by {
        assert(news[i - l0.len()] == l1[i]);
        assert(news[j - l0.len()] == l1[j]);
        assert(entry_matches(news[i - l0.len()], p[i - l0.len()]));
        assert(entry_matches(news[j - l0.len()], p[j - l0.len()]));
        assert(p[i - l0.len()].module@ == p[j - l0.len()].module@);
        assert(p[i - l0.len()].version < p[j - l0.len()].version);
    }
}

/// Ordering: the entries one run appends to the ledger carry strictly
/// ascending versions within each module, whatever order the migrations
/// were supplied in.
pub proof fn lemma_run_orders_versions(
    migs: Seq<Migration>,
    l0: Seq<LedgerEntry>,
    l1: Seq<LedgerEntry>,
    applied: int,
    skipped: int,
)
    requires
        run_post(migs, l0, l1, applied, skipped),
    ensures
        forall|i: int, j: int|
            l0.len() <= i < j < l1.len() && l1[i].module@ == l1[j].module@ ==> l1[i].version
                < l1[j].version,
{
    let p = choose|p: Seq<Migration>|
        #[trigger] is_plan(migs, l0, p) && p.len() == applied && records_match(
            p,
            l1.skip(l0.len() as int),
        );
    lemma_records_ordered(p, l0, l1);
}

/// What an aborted run left behind: some prefix of its plan was executed
/// and recorded before the failure; nothing else changed.
pub open spec fn partial_run_post(
    migs: Seq<Migration>,
    l0: Seq<LedgerEntry>,
    l1: Seq<LedgerEntry>,
    applied: int,
) -> bool {
    exists|p: Seq<Migration>|
        #[trigger] is_plan(migs, l0, p) && 0 <= applied <= p.len() && l1.len() == l0.len()
            + applied && l1.take(l0.len() as int) == l0 && records_match(
            p.take(applied),
            l1.skip(l0.len() as int),
        )
}

/// Partial-failure resumability: after an aborted run left the ledger as
/// `l1`, a re-run's plan `p2` skips exactly what is already recorded and
/// re-attempts the failed migration and every other unrecorded one.
pub proof fn lemma_resume_after_failure(
    migs: Seq<Migration>,
    l1: Seq<LedgerEntry>,
    p2: Seq<Migration>,
)
    requires
        is_plan(migs, l1, p2),
    ensures
        forall|j: int|
            0 <= j < migs.len() && ledger_has(
                l1,
                (#[trigger] migs[j]).module@,
                migs[j].version as int,
            ) ==> !appears_in(migs[j], p2),
        forall|j: int|
            0 <= j < migs.len() && !ledger_has(
                l1,
                (#[trigger] migs[j]).module@,
                migs[j].version as int,
            ) ==> appears_in(migs[j], p2),
{
    assert forall|j: int|
        0 <= j < migs.len() && ledger_has(
            l1,
            (#[trigger] migs[j]).module@,
            migs[j].version as int,
        ) implies !appears_in(migs[j], p2) by {
        if appears_in(migs[j], p2) {
            let k = choose|k: int| 0 <= k < p2.len() && mig_eq(migs[j], #[trigger] p2[k]);
            assert(!ledger_has(l1, p2[k].module@, p2[k].version as int));
            assert(false);
        }
    }
}

/// One run of the migration protocol against an external store. The
/// session decides; the caller executes. `begin` computes the plan from
/// the ledger as loaded; the caller then executes each pending migration's
/// SQL in turn, reporting every success back through `record_success`. On
/// a store failure the caller stops and surfaces `execution_error`;
/// already-recorded work is kept, so a later run resumes where this one
/// left off.
pub struct RunSession {
    pending: Vec<Migration>,
    cursor: usize,
    total: usize,
    ledger: Ledger,
    initial: Ghost<Seq<LedgerEntry>>,
    supplied: Ghost<Seq<Migration>>,
}

impl RunSession {
    /// The migrations still to execute, in execution order.
    pub closed spec fn pending_view(&self) -> Seq<Migration> {
        self.pending@
    }

    /// How many of them have been executed and recorded so far.
    pub closed spec fn cursor_spec(&self) -> int {
        self.cursor as int
    }

    /// The ledger as this session has extended it.
    pub closed spec fn ledger_view(&self) -> Seq<LedgerEntry> {
        self.ledger@
    }

    /// The ledger as it was when the session began.
    pub closed spec fn initial_view(&self) -> Seq<LedgerEntry> {
        self.initial@
    }

    /// The migrations the session was given.
    pub closed spec fn supplied_view(&self) -> Seq<Migration> {
        self.supplied@
    }

    pub closed spec fn total_spec(&self) -> int {
        self.total as int
    }

    pub open spec fn wf(&self) -> bool {
        &&& unique_keys(self.supplied_view())
        &&& is_plan(self.supplied_view(), self.initial_view(), self.pending_view())
        &&& self.pending_view().len() <= self.supplied_view().len()
        &&& self.total_spec() == self.supplied_view().len()
        &&& 0 <= self.cursor_spec() <= self.pending_view().len()
        &&& ledger_keys_unique(self.ledger_view())
        &&& self.ledger_view().len() == self.initial_view().len() + self.cursor_spec()
        &&& self.ledger_view().take(self.initial_view().len() as int) == self.initial_view()
        &&& forall|u: int|
            0 <= u < self.cursor_spec() ==> entry_matches(
                #[trigger] self.ledger_view()[self.initial_view().len() + u],
                self.pending_view()[u],
            )
        &&& forall|u: int|
            self.cursor_spec() <= u < self.pending_view().len() ==> !ledger_has(
                self.ledger_view(),
                (#[trigger] self.pending_view()[u]).module@,
                self.pending_view()[u].version as int,
            )
    }

    /// Start a run: take the ledger as loaded from the store and compute
    /// the execution plan from it.
    pub fn begin(migrations: &Vec<Migration>, ledger: Ledger) -> (s: RunSession)
        requires
            unique_keys(migrations@),
            ledger.wf(),
        ensures
            s.wf(),
            s.supplied_view() == migrations@,
            s.initial_view() == ledger@,
            s.ledger_view() == ledger@,
            s.cursor_spec() == 0,
            is_plan(migrations@, ledger@, s.pending_view()),
    {
        let ghost linit = ledger@;
        let pending = pending_migrations(migrations, &ledger);
        let s = RunSession {
            pending,
            cursor: 0,
            total: migrations.len(),
            ledger,
            initial: Ghost(linit),
            supplied: Ghost(migrations@),
        };
        proof {
            assert(s.ledger_view().take(linit.len() as int) =~= linit);
        }
        s
    }

    /// The next migration to execute, or `None` when the run is complete.
    pub fn next_pending(&self) -> (r: Option<&Migration>)
        requires
            self.wf(),
        ensures
            match r {
                Some(m) => self.cursor_spec() < self.pending_view().len() && *m
                    == self.pending_view()[self.cursor_spec()],
                None => self.cursor_spec() == self.pending_view().len(),
            },
    {
        if self.cursor < self.pending.len() {
            Some(&self.pending[self.cursor])
        } else {
            None
        }
    }

    /// Record that the current migration's SQL executed successfully, with
    /// the measured duration and the store-assigned timestamp. Within a
    /// module, this never runs ahead: migration N is recorded before
    /// migration N+1 is handed out.
    pub fn record_success(&mut self, execution_time_ms: i32, applied_at: String)
        requires
            old(self).wf(),
            old(self).cursor_spec() < old(self).pending_view().len(),
        ensures
            final(self).wf(),
            final(self).supplied_view() == old(self).supplied_view(),
            final(self).initial_view() == old(self).initial_view(),
            final(self).pending_view() == old(self).pending_view(),
            final(self).cursor_spec() == old(self).cursor_spec() + 1,
            final(self).ledger_view().len() == old(self).ledger_view().len() + 1,
            final(self).ledger_view().drop_last() == old(self).ledger_view(),
            entry_matches(
                final(self).ledger_view().last(),
                old(self).pending_view()[old(self).cursor_spec()],
            ),
            final(self).ledger_view().last().applied_at@ == applied_at@,
            final(self).ledger_view().last().execution_time_ms == execution_time_ms,
    {
        let ghost old_ledger = self.ledger@;
        let ghost linit = self.initial@;
        let ghost pend = self.pending@;
        let ghost cur = self.cursor as int;
        let t = self.cursor;
        let checksum = self.pending[t].checksum();
        let entry = LedgerEntry {
            module: self.pending[t].module.clone(),
            version: self.pending[t].version,
            name: self.pending[t].name.clone(),
            checksum,
            applied_at,
            execution_time_ms,
        };
        proof {
            assert(entry_matches(entry, pend[cur]));
        }
        self.ledger.insert(entry);
        self.cursor = t + 1;
        proof {
            assert(self.ledger@ == old_ledger.push(entry));
            assert(self.ledger@.drop_last() =~= old_ledger);
            assert(self.ledger@.take(linit.len() as int) =~= linit);
            assert forall|u: int| cur + 1 <= u < pend.len() implies !ledger_has(
                self.ledger@,
                (#[trigger] pend[u]).module@,
                pend[u].version as int,
            ) by {
                assert(!same_key(pend[cur], pend[u]));
                if ledger_has(self.ledger@, pend[u].module@, pend[u].version as int) {
                    let w = choose|w: int|
                        0 <= w < self.ledger@.len() && self.ledger@[w].module@ == pend[u].module@
                            && self.ledger@[w].version == pend[u].version;
                    if w < old_ledger.len() {
                        assert(self.ledger@[w] == old_ledger[w]);
                        assert(ledger_has(old_ledger, pend[u].module@, pend[u].version as int));
                    } else {
                        assert(self.ledger@[w] == entry);
                        assert(same_key(pend[cur], pend[u]));
                    }
                    assert(false);
                }
            }
        }
    }

    /// The counts so far: migrations recorded by this session, and
    /// migrations that were already in the ledger when it began.
    pub fn report(&self) -> (r: RunReport)
        requires
            self.wf(),
        ensures
            r.applied as int == self.cursor_spec(),
            r.skipped as int == self.supplied_view().len() - self.pending_view().len(),
    {
        RunReport { applied: self.cursor, skipped: self.total - self.pending.len() }
    }

    /// Give the ledger back, as this session extended it. Whether the run
    /// completed or was abandoned after a failure, the ledger now holds the
    /// recorded prefix of the plan and nothing else: a later session over
    /// it resumes where this one left off.
    pub fn into_ledger(self) -> (r: Ledger)
        requires
            self.wf(),
        ensures
            r@ == self.ledger_view(),
            r.wf(),
            partial_run_post(
                self.supplied_view(),
                self.initial_view(),
                r@,
                self.cursor_spec(),
            ),
    {
        proof {
            assert(is_plan(self.supplied_view(), self.initial_view(), self.pending_view()));
            assert(records_match(
                self.pending_view().take(self.cursor_spec()),
                self.ledger_view().skip(self.initial_view().len() as int),
            )) by {
                let p = self.pending_view().take(self.cursor_spec());
                let news = self.ledger_view().skip(self.initial_view().len() as int);
                assert forall|t: int| 0 <= t < p.len() implies entry_matches(
                    #[trigger] news[t],
                    p[t],
                ) by {
                    assert(news[t] == self.ledger_view()[self.initial_view().len() + t]);
                    assert(p[t] == self.pending_view()[t]);
                }
            }
        }
        self.ledger
    }
}

} // verus!
