//! The applied-migration ledger: one record per successfully applied
//! migration, keyed by `(module, version)`.
//!
//! This type is the in-process image of the persistent tracking table. The
//! backing store enforces uniqueness of `(module, version)`; here that is
//! the well-formedness invariant `wf`, established by the constructors and
//! preserved by `insert`.

use vstd::prelude::*;

verus! {

/// The tracking table's schema: the table and its two supporting indexes,
/// each created only if absent, so running the statement repeatedly is
/// safe. The runner owns this table; nothing else writes it.
pub const LEDGER_TABLE_DDL: &'static str = "
CREATE TABLE IF NOT EXISTS _schema_migrations (
    id SERIAL PRIMARY KEY,
    module VARCHAR(100) NOT NULL,
    version INTEGER NOT NULL,
    name VARCHAR(255) NOT NULL,
    checksum VARCHAR(255) NOT NULL,
    applied_at TIMESTAMP WITH TIME ZONE DEFAULT CURRENT_TIMESTAMP,
    execution_time_ms INTEGER,
    UNIQUE(module, version)
);

CREATE INDEX IF NOT EXISTS idx_schema_migrations_module
    ON _schema_migrations(module);

CREATE INDEX IF NOT EXISTS idx_schema_migrations_applied_at
    ON _schema_migrations(applied_at);
";

/// One row of the ledger: a migration that was applied, when, and how long
/// its SQL took to execute.
pub struct LedgerEntry {
    pub module: String,
    pub version: i32,
    pub name: String,
    pub checksum: String,
    /// Formatted timestamp, assigned by the store at insertion time.
    pub applied_at: String,
    /// Measured wall-clock duration of the executed SQL.
    pub execution_time_ms: i32,
}

/// Field-wise equality of two ledger entries.
pub open spec fn entry_eq(a: LedgerEntry, b: LedgerEntry) -> bool {
    &&& a.module@ == b.module@
    &&& a.version == b.version
    &&& a.name@ == b.name@
    &&& a.checksum@ == b.checksum@
    &&& a.applied_at@ == b.applied_at@
    &&& a.execution_time_ms == b.execution_time_ms
}

/// Some entry in `l` occupies the slot `(module, version)`.
pub open spec fn ledger_has(l: Seq<LedgerEntry>, module: Seq<char>, version: int) -> bool {
    exists|i: int| 0 <= i < l.len() && l[i].module@ == module && l[i].version == version
}

/// No two entries of `l` share a `(module, version)` key.
pub open spec fn ledger_keys_unique(l: Seq<LedgerEntry>) -> bool {
    forall|i: int, j: int|
        0 <= i < j < l.len() ==> !(l[i].module@ == l[j].module@ && l[i].version == l[j].version)
}

impl LedgerEntry {
    /// A field-wise copy of this entry.
    pub fn duplicate(&self) -> (r: LedgerEntry)
        ensures
            entry_eq(r, *self),
    {
        LedgerEntry {
            module: self.module.clone(),
            version: self.version,
            name: self.name.clone(),
            checksum: self.checksum.clone(),
            applied_at: self.applied_at.clone(),
            execution_time_ms: self.execution_time_ms,
        }
    }
}

/// The ledger itself: a collection of entries with pairwise distinct
/// `(module, version)` keys.
pub struct Ledger {
    entries: Vec<LedgerEntry>,
}

impl View for Ledger {
    type V = Seq<LedgerEntry>;

    closed spec fn view(&self) -> Seq<LedgerEntry> {
        self.entries@
    }
}

impl Ledger {
    /// No two entries share a `(module, version)` key.
    pub open spec fn wf(&self) -> bool {
        ledger_keys_unique(self@)
    }

    /// A fresh, empty ledger: the state of the tracking table just after it
    /// was created.
    pub fn new() -> (r: Ledger)
        ensures
            r@ =~= Seq::<LedgerEntry>::empty(),
            r.wf(),
    {
        Ledger { entries: Vec::new() }
    }

    /// Rebuild a ledger from rows read out of the store. Returns `None`
    /// exactly when two rows collide on `(module, version)`, which a healthy
    /// store never produces.
    pub fn from_entries(entries: Vec<LedgerEntry>) -> (r: Option<Ledger>)
        ensures
            match r {
                Some(l) => l@ == entries@ && l.wf(),
                None => exists|i: int, j: int|
                    0 <= i < j < entries@.len() && entries@[i].module@ == entries@[j].module@
                        && entries@[i].version == entries@[j].version,
            },
    {
        let n = entries.len();
        let mut i: usize = 0;
        while i < n
            invariant
                n == entries@.len(),
                i <= n,
                forall|p: int, q: int|
                    0 <= p < q < i ==> !(entries@[p].module@ == entries@[q].module@
                        && entries@[p].version == entries@[q].version),
            decreases n - i,
        {
            let mut j: usize = 0;
            while j < i
                invariant
                    n == entries@.len(),
                    i < n,
                    j <= i,
                    forall|q: int|
                        0 <= q < j ==> !(entries@[q].module@ == entries@[i as int].module@
                            && entries@[q].version == entries@[i as int].version),
                decreases i - j,
            {
                if entries[j].module == entries[i].module && entries[j].version
                    == entries[i].version {
                    return None;
                }
                j = j + 1;
            }
            i = i + 1;
        }
        Some(Ledger { entries })
    }

    pub fn len(&self) -> (r: usize)
        ensures
            r == self@.len(),
    {
        self.entries.len()
    }

    /// Whether the slot `(module, version)` is already occupied.
    pub fn contains(&self, module: &String, version: i32) -> (r: bool)
        ensures
            r == ledger_has(self@, module@, version as int),
    {
        let n = self.entries.len();
        let mut i: usize = 0;
        while i < n
            invariant
                n == self@.len(),
                i <= n,
                forall|k: int|
                    0 <= k < i ==> !(self@[k].module@ == module@ && self@[k].version == version),
            decreases n - i,
        {
            if self.entries[i].version == version && self.entries[i].module.eq(module) {
                return true;
            }
            i = i + 1;
        }
        false
    }

    /// Record one applied migration. The slot must be free: the store's
    /// uniqueness constraint rejects a second insert for the same key.
    pub fn insert(&mut self, entry: LedgerEntry)
        requires
            old(self).wf(),
            !ledger_has(old(self)@, entry.module@, entry.version as int),
        ensures
            final(self)@ == old(self)@.push(entry),
            final(self).wf(),
    {
        self.entries.push(entry);
    }

    /// Every entry, in insertion order.
    pub fn entries(&self) -> (r: &Vec<LedgerEntry>)
        ensures
            r@ == self@,
    {
        &self.entries
    }
}

} // verus!
