//! Canonical member ordering: the group is kept as a strictly ascending
//! sequence of identities, so equal member sets have equal representations.

use vstd::prelude::*;

verus! {

/// A strictly ascending sequence: sorted, hence free of duplicates.
pub open spec fn sorted_strict(s: Seq<u64>) -> bool {
    forall|i: int, j: int| 0 <= i < j < s.len() ==> s[i] < s[j]
}

/// Insert `x` into a strictly sorted sequence, keeping it strictly sorted;
/// a value already present is kept once.
pub open spec fn sorted_insert(s: Seq<u64>, x: u64) -> Seq<u64>
    decreases s.len(),
{
    if s.len() == 0 {
        seq![x]
    } else if x < s[0] {
        seq![x] + s
    } else if x == s[0] {
        s
    } else {
        seq![s[0]] + sorted_insert(s.drop_first(), x)
    }
}

/// The canonical (deduplicated, ascending) form of an arbitrary member list.
pub open spec fn canon_seq(s: Seq<u64>) -> Seq<u64>
    decreases s.len(),
{
    if s.len() == 0 {
        Seq::empty()
    } else {
        sorted_insert(canon_seq(s.drop_last()), s.last())
    }
}

/// A strictly sorted sequence has no duplicates.
pub proof fn lemma_sorted_no_duplicates(s: Seq<u64>)
    requires
        sorted_strict(s),
    ensures
        s.no_duplicates(),
{
}

/// `sorted_insert` keeps the order strict and adds exactly `x` to the
/// contents; nothing else enters or leaves the sequence.
pub proof fn lemma_sorted_insert_props(s: Seq<u64>, x: u64)
    requires
        sorted_strict(s),
    ensures
        sorted_strict(sorted_insert(s, x)),
        forall|y: u64| #[trigger] sorted_insert(s, x).contains(y) <==> y == x || s.contains(y),
        sorted_insert(s, x).to_set() =~= s.to_set().insert(x),
        s.contains(x) ==> sorted_insert(s, x) == s,
        !s.contains(x) ==> sorted_insert(s, x).len() == s.len() + 1,
    decreases s.len(),
{
    broadcast use vstd::set::group_set_axioms;

    let r = sorted_insert(s, x);
    if s.len() == 0 {
        assert(r =~= seq![x]);
        assert(r.contains(x)) by {
            assert(r[0] == x);
        }
        assert forall|y: u64| #[trigger] r.contains(y) implies y == x || s.contains(y) by {
            let i = choose|i: int| 0 <= i < r.len() && r[i] == y;
            assert(i == 0);
        }
    } else if x < s[0] {
        assert(r == seq![x] + s);
        assert(forall|i: int| 0 <= i < s.len() ==> r[i + 1] == s[i]);
        assert(r[0] == x);
        assert(sorted_strict(r)) by {
            assert(forall|j: int| 1 <= j < r.len() ==> r[j] == s[j - 1]);
        }
        assert(r.contains(x)) by {
            assert(r[0] == x);
        }
        assert forall|y: u64| s.contains(y) implies r.contains(y) by {
            let i = choose|i: int| 0 <= i < s.len() && s[i] == y;
            assert(r[i + 1] == y);
        }
        assert forall|y: u64| #[trigger] r.contains(y) implies y == x || s.contains(y) by {
            let i = choose|i: int| 0 <= i < r.len() && r[i] == y;
            if i > 0 {
                assert(s[i - 1] == y);
            }
        }
    } else if x == s[0] {
        assert(r == s);
        assert(s.contains(x)) by {
            assert(s[0] == x);
        }
    } else {
        let rest = s.drop_first();
        assert(forall|i: int| 0 <= i < rest.len() ==> rest[i] == s[i + 1]);
        assert(sorted_strict(rest));
        lemma_sorted_insert_props(rest, x);
        let ir = sorted_insert(rest, x);
        assert(r == seq![s[0]] + ir);
        assert(r[0] == s[0]);
        assert(forall|i: int| 0 <= i < ir.len() ==> r[i + 1] == ir[i]);
        // membership in `s` splits into the head and the tail
        assert forall|y: u64| s.contains(y) implies y == s[0] || rest.contains(y) by {
            let i = choose|i: int| 0 <= i < s.len() && s[i] == y;
            if i > 0 {
                assert(rest[i - 1] == y);
            }
        }
        assert forall|y: u64| rest.contains(y) implies s.contains(y) by {
            let i = choose|i: int| 0 <= i < rest.len() && rest[i] == y;
            assert(s[i + 1] == y);
        }
        // every element of `ir` exceeds the head
        assert forall|k: int| 0 <= k < ir.len() implies ir[k] > s[0] by {
            assert(ir.contains(ir[k]));
            assert(ir[k] == x || rest.contains(ir[k]));
            if rest.contains(ir[k]) {
                let i = choose|i: int| 0 <= i < rest.len() && rest[i] == ir[k];
                assert(s[i + 1] == ir[k]);
            }
        }
        assert(sorted_strict(r)) by {
            assert(forall|j: int| 1 <= j < r.len() ==> r[j] == ir[j - 1]);
        }
        // membership in `r` splits into the head and `ir`
        assert forall|y: u64| #[trigger] r.contains(y) implies y == x || s.contains(y) by {
            let i = choose|i: int| 0 <= i < r.len() && r[i] == y;
            if i == 0 {
                assert(s[0] == y);
                assert(s.contains(y)) by {
                    assert(s[0] == y);
                }
            } else {
                assert(ir[i - 1] == y);
                assert(ir.contains(y));
            }
        }
        assert(r.contains(x)) by {
            assert(ir.contains(x));
            let i = choose|i: int| 0 <= i < ir.len() && ir[i] == x;
            assert(r[i + 1] == x);
        }
        assert forall|y: u64| s.contains(y) implies r.contains(y) by {
            if y == s[0] {
                assert(r[0] == y);
            } else {
                assert(rest.contains(y));
                assert(ir.contains(y));
                let i = choose|i: int| 0 <= i < ir.len() && ir[i] == y;
                assert(r[i + 1] == y);
            }
        }
        if s.contains(x) {
            assert(rest.contains(x)) by {
                let i = choose|i: int| 0 <= i < s.len() && s[i] == x;
                assert(i != 0);
                assert(rest[i - 1] == x);
            }
            assert(ir == rest);
            assert(r =~= s);
        }
    }
    assert(r.to_set() =~= s.to_set().insert(x));
}

/// Inserting at the first position whose element is not below `x` is the
/// same as `sorted_insert` (for `x` not yet present).
pub proof fn lemma_sorted_insert_at(s: Seq<u64>, x: u64, pos: int)
    requires
        sorted_strict(s),
        0 <= pos <= s.len(),
        forall|j: int| 0 <= j < pos ==> s[j] < x,
        pos < s.len() ==> s[pos] > x,
    ensures
        sorted_insert(s, x) == s.insert(pos, x),
    decreases s.len(),
{
    if pos == 0 {
        if s.len() == 0 {
            assert(sorted_insert(s, x) =~= s.insert(0, x));
        } else {
            assert(x < s[0]);
            assert(seq![x] + s =~= s.insert(0, x));
        }
    } else {
        assert(s[0] < x);
        let rest = s.drop_first();
        assert(sorted_strict(rest)) by {
            assert(forall|i: int| 0 <= i < rest.len() ==> rest[i] == s[i + 1]);
        }
        assert(forall|j: int| 0 <= j < pos - 1 ==> rest[j] < x) by {
            assert(forall|j: int| 0 <= j < rest.len() ==> rest[j] == s[j + 1]);
        }
        assert(pos - 1 < rest.len() ==> rest[pos - 1] > x);
        lemma_sorted_insert_at(rest, x, pos - 1);
        assert(seq![s[0]] + rest.insert(pos - 1, x) =~= s.insert(pos, x)) by {
            rest.insert_ensures(pos - 1, x);
            s.insert_ensures(pos, x);
            assert(forall|i: int| 0 <= i < rest.len() ==> rest[i] == s[i + 1]);
        }
    }
}

/// Extending the scanned prefix by one element advances the canonical form
/// by one `sorted_insert`.
pub proof fn lemma_canon_push(s: Seq<u64>, x: u64)
    ensures
        canon_seq(s.push(x)) == sorted_insert(canon_seq(s), x),
{
    assert(s.push(x).drop_last() =~= s);
    assert(s.push(x).last() == x);
}

/// The canonical form is strictly sorted and holds exactly the distinct
/// values of its input; its length is the number of distinct values.
pub proof fn lemma_canon_props(s: Seq<u64>)
    ensures
        sorted_strict(canon_seq(s)),
        canon_seq(s).to_set() =~= s.to_set(),
        canon_seq(s).len() == s.to_set().len(),
    decreases s.len(),
{
    broadcast use vstd::seq_lib::seq_to_set_is_finite;

    let c = canon_seq(s);
    if s.len() == 0 {
        assert(c.to_set() =~= s.to_set());
        assert(s.to_set() =~= Set::<u64>::empty());
    } else {
        let front = s.drop_last();
        lemma_canon_props(front);
        lemma_sorted_insert_props(canon_seq(front), s.last());
        assert(c.to_set() =~= s.to_set()) by {
            assert(c.to_set() =~= canon_seq(front).to_set().insert(s.last()));
            assert(forall|y: u64| s.contains(y) <==> y == s.last() || front.contains(y)) by {
                assert(forall|i: int| 0 <= i < front.len() ==> front[i] == s[i]);
                assert(forall|i: int| 0 <= i < s.len() - 1 ==> s[i] == front[i]);
                assert(s[s.len() - 1] == s.last());
            }
        }
        lemma_sorted_no_duplicates(c);
        c.unique_seq_to_set();
    }
}

/// Removing position `i` from a strictly sorted sequence removes exactly the
/// value `s[i]` and keeps the order strict; it coincides with `remove_value`.
pub proof fn lemma_sorted_remove(s: Seq<u64>, i: int)
    requires
        sorted_strict(s),
        0 <= i < s.len(),
    ensures
        sorted_strict(s.remove(i)),
        s.remove(i).to_set() =~= s.to_set().remove(s[i]),
        s.remove_value(s[i]) == s.remove(i),
        s.remove(i).len() == s.len() - 1,
{
    let r = s.remove(i);
    s.remove_ensures(i);
    assert(sorted_strict(r)) by {
        assert(forall|a: int, b: int| 0 <= a < b < r.len() ==> r[a] < r[b]) by {
            assert(forall|a: int| 0 <= a < i ==> r[a] == s[a]);
            assert(forall|a: int| i <= a < r.len() ==> r[a] == s[a + 1]);
        }
    }
    assert(r.to_set() =~= s.to_set().remove(s[i])) by {
        assert(forall|y: u64| r.contains(y) ==> s.contains(y) && y != s[i]) by {
            assert(forall|a: int| 0 <= a < r.len() ==> r[a] == (if a < i { s[a] } else { s[a + 1] }));
            assert(forall|a: int| 0 <= a < i ==> s[a] < s[i]);
            assert(forall|a: int| i < a < s.len() ==> s[i] < s[a]);
        }
        assert(forall|y: u64| s.contains(y) && y != s[i] ==> r.contains(y)) by {
            assert forall|y: u64| s.contains(y) && y != s[i] implies r.contains(y) by {
                let j = choose|j: int| 0 <= j < s.len() && s[j] == y;
                if j < i {
                    assert(r[j] == y);
                } else {
                    assert(j > i);
                    assert(r[j - 1] == y);
                }
            }
        }
    }
    assert(s.remove_value(s[i]) == s.remove(i)) by {
        s.index_of_first_ensures(s[i]);
        assert(s.contains(s[i]));
        let j = s.index_of_first(s[i]).unwrap();
        assert(s[j] == s[i]);
        assert(j == i) by {
            if j < i {
                assert(s[j] < s[i]);
            }
            if j > i {
                assert(s[i] < s[j]);
            }
        }
    }
}

/// Linear scan for a value.
pub fn contains_value(v: &Vec<u64>, x: u64) -> (r: bool)
    ensures
        r == v@.contains(x),
{
    let mut i: usize = 0;
    while i < v.len()
        invariant
            i <= v@.len(),
            forall|j: int| 0 <= j < i ==> v@[j] != x,
        decreases v@.len() - i,
    {
        if v[i] == x {
            return true;
        }
        i += 1;
    }
    false
}

/// Linear scan for the position of a value.
pub fn find_index(v: &Vec<u64>, x: u64) -> (r: Option<usize>)
    ensures
        match r {
            Some(i) => i < v@.len() && v@[i as int] == x,
            None => !v@.contains(x),
        },
{
    let mut i: usize = 0;
    while i < v.len()
        invariant
            i <= v@.len(),
            forall|j: int| 0 <= j < i ==> v@[j] != x,
        decreases v@.len() - i,
    {
        if v[i] == x {
            return Some(i);
        }
        i += 1;
    }
    None
}

/// Insert `x` into an already strictly sorted vector, keeping it strictly
/// sorted; a value already present is left alone.
pub fn insert_sorted(v: &mut Vec<u64>, x: u64)
    requires
        sorted_strict(old(v)@),
    ensures
        final(v)@ == sorted_insert(old(v)@, x),
        sorted_strict(final(v)@),
{
    proof {
        lemma_sorted_insert_props(old(v)@, x);
    }
    let mut pos: usize = 0;
    while pos < v.len() && v[pos] < x
        invariant
            v@ == old(v)@,
            sorted_strict(v@),
            pos <= v@.len(),
            forall|j: int| 0 <= j < pos ==> v@[j] < x,
        decreases v@.len() - pos,
    {
        pos += 1;
    }
    if pos < v.len() && v[pos] == x {
        proof {
            assert(old(v)@.contains(x)) by {
                assert(old(v)@[pos as int] == x);
            }
        }
        return ;
    }
    proof {
        lemma_sorted_insert_at(old(v)@, x, pos as int);
    }
    v.insert(pos, x);
}

} // verus!
