//! Migration descriptors: immutable values describing one schema change.
//!
//! A descriptor carries its owning module, a version that orders it within
//! that module, a human-readable name, and the SQL body to execute. Its
//! checksum is a pure function of the SQL text; its identifier is a pure
//! function of module and version. Both are specified exactly.

use vstd::prelude::*;
use crate::numerals::{dec_nat, dec_int, u64_to_string, i32_to_string};
use vstd::string::StrSliceExecFns;

verus! {

/// One schema change: the unit the migration runner tracks and executes.
pub struct Migration {
    /// Logical owner, e.g. a feature area. Not globally unique by itself.
    pub module: String,
    /// Execution order within the module; unique per module.
    pub version: i32,
    /// Human-readable label; not part of the identity.
    pub name: String,
    /// The schema-change statement(s), executed verbatim.
    pub sql: String,
}

/// Field-wise equality of two descriptors.
pub open spec fn mig_eq(a: Migration, b: Migration) -> bool {
    &&& a.module@ == b.module@
    &&& a.version == b.version
    &&& a.name@ == b.name@
    &&& a.sql@ == b.sql@
}

/// Two descriptors claim the same ledger slot.
pub open spec fn same_key(a: Migration, b: Migration) -> bool {
    a.module@ == b.module@ && a.version == b.version
}

/// No two descriptors in the collection share a `(module, version)` pair.
pub open spec fn unique_keys(ms: Seq<Migration>) -> bool {
    forall|i: int, j: int| 0 <= i < j < ms.len() ==> !same_key(ms[i], ms[j])
}

/// The code of the first character of `sql`, or of '0' when `sql` is empty.
pub open spec fn first_code(sql: Seq<char>) -> nat {
    if sql.len() == 0 {
        ('0' as u32) as nat
    } else {
        (sql[0] as u32) as nat
    }
}

/// The code of the last character of `sql`, or of '0' when `sql` is empty.
pub open spec fn last_code(sql: Seq<char>) -> nat {
    if sql.len() == 0 {
        ('0' as u32) as nat
    } else {
        (sql[sql.len() - 1] as u32) as nat
    }
}

/// The checksum of a SQL body: its length, first character code and last
/// character code in decimal, joined by '-'. Deterministic in the text alone.
pub open spec fn checksum_spec(sql: Seq<char>) -> Seq<char> {
    dec_nat(sql.len()) + seq!['-'] + dec_nat(first_code(sql)) + seq!['-'] + dec_nat(last_code(sql))
}

/// The identifier of a migration: `module + ":version_" + version`.
pub open spec fn id_spec(module: Seq<char>, version: int) -> Seq<char> {
    module + ":version_"@ + dec_int(version)
}

impl Migration {
    /// Create a new migration descriptor. Construction is total: any text,
    /// including an empty SQL body, is accepted.
    pub fn new(module: &str, version: i32, name: &str, sql: &str) -> (m: Migration)
        ensures
            m.module@ == module@,
            m.version == version,
            m.name@ == name@,
            m.sql@ == sql@,
    {
        Migration {
            module: module.to_owned(),
            version,
            name: name.to_owned(),
            sql: sql.to_owned(),
        }
    }

    /// A field-wise copy of this descriptor.
    pub fn duplicate(&self) -> (r: Migration)
        ensures
            mig_eq(r, *self),
    {
        Migration {
            module: self.module.clone(),
            version: self.version,
            name: self.name.clone(),
            sql: self.sql.clone(),
        }
    }

    /// Checksum of the SQL body, used to detect edits made after a
    /// migration was applied. Deterministic: equal SQL gives equal output.
    pub fn checksum(&self) -> (r: String)
        ensures
            r@ == checksum_spec(self.sql@),
    {
        let s = self.sql.as_str();
        let len = s.unicode_len();
        let first: char = if len == 0 {
            '0'
        } else {
            s.get_char(0)
        };
        let last: char = if len == 0 {
            '0'
        } else {
            s.get_char(len - 1)
        };
        let mut r = u64_to_string(len as u64);
        r.append("-");
        let first_digits = u64_to_string(first as u64);
        r.append(first_digits.as_str());
        r.append("-");
        let last_digits = u64_to_string(last as u64);
        r.append(last_digits.as_str());
        proof {
            reveal_strlit("-");
            assert(r@ =~= checksum_spec(self.sql@));
        }
        r
    }

    /// Human-facing identifier: `module + ":version_" + version`.
    pub fn id(&self) -> (r: String)
        ensures
            r@ == id_spec(self.module@, self.version as int),
    {
        let mut r = self.module.clone();
        r.append(":version_");
        let version_digits = i32_to_string(self.version);
        r.append(version_digits.as_str());
        r
    }
}

/// One row of the pre-run listing: a migration with its computed
/// identifier and checksum, for operator review before running.
pub struct MigrationListing {
    pub module: String,
    pub version: i32,
    pub name: String,
    pub id: String,
    pub checksum: String,
}

/// The listing row `l` reports the descriptor `m`, with its identifier and
/// checksum computed.
pub open spec fn listing_matches(l: MigrationListing, m: Migration) -> bool {
    &&& l.module@ == m.module@
    &&& l.version == m.version
    &&& l.name@ == m.name@
    &&& l.id@ == id_spec(m.module@, m.version as int)
    &&& l.checksum@ == checksum_spec(m.sql@)
}

/// Report every known migration with its computed identifier and checksum,
/// in the order supplied. No store access: this reads the descriptors
/// alone.
pub fn list_migrations(migrations: &Vec<Migration>) -> (r: Vec<MigrationListing>)
    ensures
        r@.len() == migrations@.len(),
        forall|i: int| 0 <= i < r@.len() ==> listing_matches(#[trigger] r@[i], migrations@[i]),
{
    let n = migrations.len();
    let mut r: Vec<MigrationListing> = Vec::new();
    let mut i: usize = 0;
    while i < n
        invariant
            n == migrations@.len(),
            i <= n,
            r@.len() == i,
            forall|k: int| 0 <= k < i ==> listing_matches(#[trigger] r@[k], migrations@[k]),
        decreases n - i,
    {
        let m = &migrations[i];
        let row = MigrationListing {
            module: m.module.clone(),
            version: m.version,
            name: m.name.clone(),
            id: m.id(),
            checksum: m.checksum(),
        };
        r.push(row);
        i = i + 1;
    }
    r
}

/// Non-collision, in the direction that holds outright: two descriptors
/// whose SQL texts differ in length have different checksums, because the
/// checksum starts with the text's length in decimal and decimal
/// renderings are unambiguous. For texts of equal length the checksum
/// keeps only the boundary characters, so distinct texts can collide;
/// that remainder is a statistical property, exercised by tests.
pub proof fn lemma_checksum_separates_lengths(a: Migration, b: Migration)
    requires
        a.sql@.len() != b.sql@.len(),
    ensures
        checksum_spec(a.sql@) != checksum_spec(b.sql@),
{
    let s1 = dec_nat(a.sql@.len());
    let s2 = dec_nat(b.sql@.len());
    crate::numerals::lemma_dec_nat_digits(a.sql@.len());
    crate::numerals::lemma_dec_nat_digits(b.sql@.len());
    if checksum_spec(a.sql@) == checksum_spec(b.sql@) {
        let c = checksum_spec(a.sql@);
        assert(c[s1.len() as int] == '-');
        assert(c[s2.len() as int] == '-');
        if s1.len() < s2.len() {
            assert(c[s1.len() as int] == s2[s1.len() as int]);
            assert('0' <= s2[s1.len() as int] <= '9');
            assert(false);
        } else if s2.len() < s1.len() {
            assert(c[s2.len() as int] == s1[s2.len() as int]);
            assert('0' <= s1[s2.len() as int] <= '9');
            assert(false);
        } else {
            assert(s1 =~= s2) by {
                assert forall|k: int| 0 <= k < s1.len() implies s1[k] == s2[k] by {
                    assert(c[k] == s1[k]);
                    assert(c[k] == s2[k]);
                }
            }
            crate::numerals::lemma_dec_nat_injective(a.sql@.len(), b.sql@.len());
            assert(false);
        }
    }
}

/// Checksums are deterministic: descriptors with identical SQL text have
/// identical checksums, whatever their other fields are.
pub proof fn lemma_checksum_deterministic(a: Migration, b: Migration)
    requires
        a.sql@ == b.sql@,
    ensures
        checksum_spec(a.sql@) == checksum_spec(b.sql@),
{
}

} // verus!
