use vstd::prelude::*;

verus! {

/// Why a lock restricts a balance. The vesting lock always sets both
/// reasons together.
#[derive(Clone, Copy, PartialEq, Eq, Structural, Debug)]
pub struct Reasons {
    pub transfer: bool,
    pub reserve: bool,
}

/// One entry of an account's lock table: a named, reason-tagged hold on
/// part of the account's balance.
#[derive(Clone, Copy, PartialEq, Eq, Structural, Debug)]
pub struct Lock {
    pub id: u64,
    pub amount: u64,
    pub reasons: Reasons,
}

/// The identifier under which the vesting engine keeps its lock
/// (the bytes of the tag `vesting `).
pub const VESTING_ID: u64 = 0x76657374696e6720;

/// The first entry with the given identifier, scanning from the front.
pub open spec fn spec_find_lock(locks: Seq<Lock>, id: u64) -> Option<Lock>
    decreases locks.len(),
{
    if locks.len() == 0 {
        None
    } else if locks[0].id == id {
        Some(locks[0])
    } else {
        spec_find_lock(locks.drop_first(), id)
    }
}

/// A well-formed lock table keys its entries: identifiers are pairwise
/// distinct.
pub open spec fn locks_wf(locks: Seq<Lock>) -> bool {
    forall|i: int, j: int| 0 <= i < j < locks.len() ==> locks[i].id != locks[j].id
}

/// No entry is found exactly when no position holds the identifier.
pub proof fn lemma_find_none_iff(s: Seq<Lock>, id: u64)
    ensures
        (spec_find_lock(s, id) is None) <==> (forall|j: int| 0 <= j < s.len() ==> s[j].id != id),
    decreases s.len(),
{
    if s.len() > 0 && s[0].id != id {
        lemma_find_none_iff(s.drop_first(), id);
        if forall|j: int| 0 <= j < s.drop_first().len() ==> s.drop_first()[j].id != id {
            assert forall|j: int| 0 <= j < s.len() implies s[j].id != id by {
                if j > 0 {
                    assert(s.drop_first()[j - 1] == s[j]);
                }
            }
        } else {
            let j = choose|j: int|
                0 <= j < s.drop_first().len() && !(s.drop_first()[j].id != id);
            assert(s.drop_first()[j] == s[j + 1]);
        }
    }
}

/// The entry at the first position holding the identifier is what the scan
/// finds.
pub proof fn lemma_find_first(s: Seq<Lock>, id: u64, i: int)
    requires
        0 <= i < s.len(),
        s[i].id == id,
        forall|j: int| 0 <= j < i ==> s[j].id != id,
    ensures
        spec_find_lock(s, id) == Some(s[i]),
    decreases i,
{
    if i > 0 {
        assert forall|j: int| 0 <= j < i - 1 implies s.drop_first()[j].id != id by {
            assert(s.drop_first()[j] == s[j + 1]);
        }
        assert(s.drop_first()[i - 1] == s[i]);
        lemma_find_first(s.drop_first(), id, i - 1);
    }
}

/// A found entry sits at a first position holding its identifier.
pub proof fn lemma_find_some_index(s: Seq<Lock>, id: u64)
    requires
        spec_find_lock(s, id) is Some,
    ensures
        exists|i: int|
            0 <= i < s.len() && s[i] == spec_find_lock(s, id)->Some_0 && s[i].id == id
                && (forall|j: int| 0 <= j < i ==> s[j].id != id),
    decreases s.len(),
{
    if s[0].id == id {
        assert(0 <= 0 < s.len() && s[0] == spec_find_lock(s, id)->Some_0 && s[0].id == id
            && (forall|j: int| 0 <= j < 0 ==> s[j].id != id));
    } else {
        lemma_find_some_index(s.drop_first(), id);
        let i = choose|i: int|
            0 <= i < s.drop_first().len() && s.drop_first()[i] == spec_find_lock(
                s.drop_first(),
                id,
            )->Some_0 && s.drop_first()[i].id == id && (forall|j: int|
                0 <= j < i ==> s.drop_first()[j].id != id);
        assert(s.drop_first()[i] == s[i + 1]);
        assert forall|j: int| 0 <= j < i + 1 implies s[j].id != id by {
            if j > 0 {
                assert(s.drop_first()[j - 1] == s[j]);
            }
        }
        assert(0 <= i + 1 < s.len() && s[i + 1] == spec_find_lock(s, id)->Some_0 && s[i
            + 1].id == id && (forall|j: int| 0 <= j < i + 1 ==> s[j].id != id));
    }
}

/// Index of the entry with the given identifier, if any.
pub(crate) fn find_lock_index(locks: &Vec<Lock>, id: u64) -> (r: Option<usize>)
    ensures
        match r {
            Some(i) => i < locks@.len() && locks@[i as int].id == id && (forall|j: int|
                0 <= j < i ==> locks@[j].id != id),
            None => forall|j: int| 0 <= j < locks@.len() ==> locks@[j].id != id,
        },
{
    let mut k: usize = 0;
    while k < locks.len()
        invariant
            k <= locks@.len(),
            forall|j: int| 0 <= j < k ==> locks@[j].id != id,
        decreases locks@.len() - k,
    {
        if locks[k].id == id {
            return Some(k);
        }
        k = k + 1;
    }
    None
}

/// The entry with the given identifier, if any.
pub(crate) fn get_lock(locks: &Vec<Lock>, id: u64) -> (r: Option<Lock>)
    ensures
        r == spec_find_lock(locks@, id),
{
    match find_lock_index(locks, id) {
        Some(i) => {
            let l = locks[i];
            proof {
                lemma_find_first(locks@, id, i as int);
            }
            Some(l)
        },
        None => {
            proof {
                lemma_find_none_iff(locks@, id);
            }
            None
        },
    }
}

/// Inserts the entry, or overwrites the entry already keyed by the same
/// identifier. Every other entry is untouched.
pub(crate) fn upsert_lock(locks: &mut Vec<Lock>, id: u64, amount: u64, reasons: Reasons)
    requires
        locks_wf(old(locks)@),
    ensures
        locks_wf(final(locks)@),
        spec_find_lock(final(locks)@, id) == Some(Lock { id, amount, reasons }),
        forall|id2: u64|
            id2 != id ==> spec_find_lock(final(locks)@, id2) == spec_find_lock(old(locks)@, id2),
        final(locks)@.len() == if spec_find_lock(old(locks)@, id) is Some {
            old(locks)@.len()
        } else {
            old(locks)@.len() + 1
        },
{
    let new_lock = Lock { id, amount, reasons };
    let ghost s = locks@;
    match find_lock_index(locks, id) {
        Some(i) => {
            proof {
                lemma_find_first(s, id, i as int);
            }
            locks[i] = new_lock;
            proof {
                let t = locks@;
                assert forall|k: int, l: int| 0 <= k < l < t.len() implies t[k].id != t[l].id by {
                    assert(t[k].id == s[k].id);
                    assert(t[l].id == s[l].id);
                }
                lemma_find_first(t, id, i as int);
                assert forall|id2: u64| id2 != id implies spec_find_lock(t, id2)
                    == spec_find_lock(s, id2) by {
                    lemma_upsert_frame(s, t, i as int, id, id2);
                }
            }
        },
        None => {
            locks.push(new_lock);
            proof {
                let t = locks@;
                assert forall|k: int, l: int| 0 <= k < l < t.len() implies t[k].id != t[l].id by {
                    if l < s.len() {
                        assert(t[k] == s[k] && t[l] == s[l]);
                    } else {
                        assert(t[k] == s[k] && t[l] == new_lock);
                    }
                }
                lemma_find_first(t, id, s.len() as int);
                lemma_find_none_iff(s, id);
                assert forall|id2: u64| id2 != id implies spec_find_lock(t, id2)
                    == spec_find_lock(s, id2) by {
                    lemma_upsert_frame(s, t, s.len() as int, id, id2);
                }
            }
        },
    }
}

/// Removes the entry with the given identifier, if any. Every other entry
/// is untouched.
pub(crate) fn remove_lock_entry(locks: &mut Vec<Lock>, id: u64)
    requires
        locks_wf(old(locks)@),
    ensures
        locks_wf(final(locks)@),
        spec_find_lock(final(locks)@, id) is None,
        forall|id2: u64|
            id2 != id ==> spec_find_lock(final(locks)@, id2) == spec_find_lock(old(locks)@, id2),
        final(locks)@.len() == if spec_find_lock(old(locks)@, id) is Some {
            old(locks)@.len() - 1
        } else {
            old(locks)@.len() as int
        },
{
    let ghost s = locks@;
    match find_lock_index(locks, id) {
        Some(i) => {
            proof {
                lemma_find_first(s, id, i as int);
            }
            locks.remove(i);
            proof {
                let t = locks@;
                assert forall|k: int, l: int| 0 <= k < l < t.len() implies t[k].id != t[l].id by {
                    let sk: int = if k < i as int { k } else { k + 1 };
                    let sl: int = if l < i as int { l } else { l + 1 };
                    assert(t[k] == s[sk] && t[l] == s[sl]);
                }
                assert forall|j: int| 0 <= j < t.len() implies t[j].id != id by {
                    let sj: int = if j < i as int { j } else { j + 1 };
                    assert(t[j] == s[sj]);
                    assert(sj != i as int);
                }
                lemma_find_none_iff(t, id);
                assert forall|id2: u64| id2 != id implies spec_find_lock(t, id2)
                    == spec_find_lock(s, id2) by {
                    lemma_remove_frame(s, t, i as int, id, id2);
                }
            }
        },
        None => {
            proof {
                lemma_find_none_iff(s, id);
            }
        },
    }
}

/// After replacing or appending the entry keyed `id` at position `i`, the
/// scan for any other identifier is unchanged.
proof fn lemma_upsert_frame(s: Seq<Lock>, t: Seq<Lock>, i: int, id: u64, id2: u64)
    requires
        locks_wf(s),
        id2 != id,
        0 <= i <= s.len(),
        t.len() == if i < s.len() {
            s.len()
        } else {
            s.len() + 1
        },
        forall|j: int| 0 <= j < s.len() && j != i ==> t[j] == s[j],
        0 <= i < t.len() && t[i].id == id,
        i < s.len() ==> s[i].id == id,
    ensures
        spec_find_lock(t, id2) == spec_find_lock(s, id2),
{
    if spec_find_lock(s, id2) is Some {
        lemma_find_some_index(s, id2);
        let j0 = choose|j0: int|
            0 <= j0 < s.len() && s[j0] == spec_find_lock(s, id2)->Some_0 && s[j0].id == id2
                && (forall|j: int| 0 <= j < j0 ==> s[j].id != id2);
        assert(j0 != i);
        assert forall|j: int| 0 <= j < j0 implies t[j].id != id2 by {
            if j != i {
                assert(t[j] == s[j]);
            }
        }
        lemma_find_first(t, id2, j0);
    } else {
        lemma_find_none_iff(s, id2);
        assert forall|j: int| 0 <= j < t.len() implies t[j].id != id2 by {
            if j != i {
                assert(t[j] == s[j]);
            }
        }
        lemma_find_none_iff(t, id2);
    }
}

/// After removing the entry at position `i`, the scan for any other
/// identifier is unchanged.
proof fn lemma_remove_frame(s: Seq<Lock>, t: Seq<Lock>, i: int, id: u64, id2: u64)
    requires
        locks_wf(s),
        id2 != id,
        0 <= i < s.len(),
        s[i].id == id,
        t == s.remove(i),
    ensures
        spec_find_lock(t, id2) == spec_find_lock(s, id2),
{
    if spec_find_lock(s, id2) is Some {
        lemma_find_some_index(s, id2);
        let j0 = choose|j0: int|
            0 <= j0 < s.len() && s[j0] == spec_find_lock(s, id2)->Some_0 && s[j0].id == id2
                && (forall|j: int| 0 <= j < j0 ==> s[j].id != id2);
        assert(j0 != i);
        let p0: int = if j0 < i {
            j0
        } else {
            j0 - 1
        };
        assert(t[p0] == s[j0]);
        assert forall|j: int| 0 <= j < p0 implies t[j].id != id2 by {
            let sj: int = if j < i {
                j
            } else {
                j + 1
            };
            assert(t[j] == s[sj]);
        }
        lemma_find_first(t, id2, p0);
    } else {
        lemma_find_none_iff(s, id2);
        assert forall|j: int| 0 <= j < t.len() implies t[j].id != id2 by {
            let sj: int = if j < i {
                j
            } else {
                j + 1
            };
            assert(t[j] == s[sj]);
        }
        lemma_find_none_iff(t, id2);
    }
}

} // verus!
