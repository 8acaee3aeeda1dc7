//! Id-keyed table discipline shared by the three entity tables.
//!
//! Each table is an ordered sequence of rows with pairwise-distinct keys; the
//! order is the insertion order and is what readers observe. `key_upsert`
//! replaces a row in place when its key is present (so display order is kept
//! across merges) and appends it otherwise.

use vstd::prelude::*;

verus! {

/// A row addressed by a unique identifier.
pub trait Keyed: Sized {
    /// The identifier this row is stored under.
    spec fn key(&self) -> u64;

    /// Executable access to the identifier.
    fn get_key(&self) -> (k: u64)
        ensures
            k == self.key(),
    ;
}

/// Whether the table holds a row under key `k`.
pub open spec fn key_contains<T: Keyed>(s: Seq<T>, k: u64) -> bool {
    exists|i: int| 0 <= i < s.len() && s[i].key() == k
}

/// The position of the row under key `k` (meaningful when the key is present
/// and keys are unique).
pub open spec fn key_index<T: Keyed>(s: Seq<T>, k: u64) -> int {
    choose|i: int| 0 <= i < s.len() && s[i].key() == k
}

/// The row stored under key `k`.
pub open spec fn key_at<T: Keyed>(s: Seq<T>, k: u64) -> T {
    s[key_index(s, k)]
}

/// Pairwise distinctness of the table's keys.
pub open spec fn keys_unique<T: Keyed>(s: Seq<T>) -> bool {
    forall|i: int, j: int| 0 <= i < j < s.len() ==> s[i].key() != s[j].key()
}

/// Replace in place when the key is present, append otherwise.
pub open spec fn key_upsert<T: Keyed>(s: Seq<T>, row: T) -> Seq<T> {
    if key_contains(s, row.key()) {
        s.update(key_index(s, row.key()), row)
    } else {
        s.push(row)
    }
}

/// What one upsert does to a table with unique keys: the new row is stored
/// under its key, every other key is untouched, and positions are preserved.
pub proof fn lemma_upsert<T: Keyed>(s: Seq<T>, row: T)
    requires
        keys_unique(s),
    ensures
        keys_unique(key_upsert(s, row)),
        key_contains(key_upsert(s, row), row.key()),
        key_at(key_upsert(s, row), row.key()) == row,
        forall|k: u64|
            k != row.key() ==> (key_contains(key_upsert(s, row), k) <==> key_contains(s, k)),
        forall|k: u64|
            k != row.key() && key_contains(s, k) ==> key_at(key_upsert(s, row), k) == key_at(s, k)
                && key_index(key_upsert(s, row), k) == key_index(s, k),
        key_contains(s, row.key()) ==> key_upsert(s, row).len() == s.len() && key_index(
            key_upsert(s, row),
            row.key(),
        ) == key_index(s, row.key()),
        !key_contains(s, row.key()) ==> key_upsert(s, row).len() == s.len() + 1,
{
    let r = key_upsert(s, row);
    if key_contains(s, row.key()) {
        let i = key_index(s, row.key());
        assert(0 <= i < s.len() && s[i].key() == row.key());
        assert(r == s.update(i, row));
        assert forall|k: u64| key_contains(r, k) implies k == row.key() || key_contains(s, k) by {
            let j = key_index(r, k);
            if j != i {
                assert(s[j].key() == k);
            }
        }
        assert forall|k: u64| k != row.key() && key_contains(s, k) implies key_at(r, k) == key_at(
            s,
            k,
        ) && key_index(r, k) == key_index(s, k) by {
            let j = key_index(s, k);
            assert(0 <= j < s.len() && s[j].key() == k);
            assert(j != i);
            assert(r[j].key() == k);
            let j2 = key_index(r, k);
            assert(0 <= j2 < r.len() && r[j2].key() == k);
            if j2 != j {
                if j2 == i {
                    assert(r[j2].key() == row.key());
                } else {
                    assert(s[j2].key() == k);
                }
            }
        }
        let i2 = key_index(r, row.key());
        assert(r[i].key() == row.key());
        if i2 != i {
            assert(s[i2].key() == row.key());
        }
    } else {
        assert(r == s.push(row));
        assert(r[s.len() as int].key() == row.key());
        assert forall|k: u64| key_contains(r, k) implies k == row.key() || key_contains(s, k) by {
            let j = key_index(r, k);
            if j < s.len() {
                assert(s[j].key() == k);
            }
        }
        assert forall|k: u64| k != row.key() && key_contains(s, k) implies key_at(r, k) == key_at(
            s,
            k,
        ) && key_index(r, k) == key_index(s, k) by {
            let j = key_index(s, k);
            assert(0 <= j < s.len() && s[j].key() == k);
            assert(r[j].key() == k);
            let j2 = key_index(r, k);
            if j2 != j {
                if j2 == s.len() {
                    assert(r[j2].key() == row.key());
                } else {
                    assert(s[j2].key() == k);
                }
            }
        }
    }
}

/// Upserting a row that is already stored, unchanged, leaves the table as it
/// is; this is the step behind merge idempotence.
pub proof fn lemma_upsert_absorbed<T: Keyed>(s: Seq<T>, row: T)
    requires
        keys_unique(s),
        key_contains(s, row.key()),
        key_at(s, row.key()) == row,
    ensures
        key_upsert(s, row) == s,
{
    let i = key_index(s, row.key());
    assert(key_upsert(s, row) =~= s);
}

/// Finds the position of the row under key `k`, scanning in table order.
pub fn find_by_key<T: Keyed>(v: &Vec<T>, k: u64) -> (r: Option<usize>)
    requires
        keys_unique(v@),
    ensures
        match r {
            Some(i) => i < v.len() && v@[i as int].key() == k && key_contains(v@, k) && key_index(
                v@,
                k,
            ) == i,
            None => !key_contains(v@, k),
        },
{
    let mut i: usize = 0;
    while i < v.len()
        invariant
            i <= v.len(),
            keys_unique(v@),
            forall|j: int| 0 <= j < i ==> v@[j].key() != k,
        decreases v.len() - i,
    {
        if v[i].get_key() == k {
            proof {
                assert(key_contains(v@, k));
                let j = key_index(v@, k);
                assert(0 <= j < v@.len() && v@[j].key() == k);
                if j != i {
                    assert(v@[j].key() != v@[i as int].key());
                }
            }
            return Some(i);
        }
        i = i + 1;
    }
    proof {
        if key_contains(v@, k) {
            let j = key_index(v@, k);
            assert(v@[j].key() != k);
        }
    }
    None
}

/// Replaces the row under the new row's key, or appends it; table order and
/// every other row are untouched.
pub fn upsert_by_key<T: Keyed>(v: &mut Vec<T>, row: T)
    requires
        keys_unique(old(v)@),
    ensures
        final(v)@ == key_upsert(old(v)@, row),
        keys_unique(final(v)@),
{
    proof {
        lemma_upsert(v@, row);
    }
    let k = row.get_key();
    match find_by_key(v, k) {
        Some(i) => {
            v.set(i, row);
        },
        None => {
            v.push(row);
        },
    }
}

} // verus!
