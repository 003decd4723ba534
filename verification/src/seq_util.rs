use vstd::prelude::*;

verus! {

/// `s` with `x` appended, unless `x` is already present: the idempotent
/// set-insert that the policy lists use.
pub open spec fn insert_val<T>(s: Seq<T>, x: T) -> Seq<T> {
    if s.contains(x) {
        s
    } else {
        s.push(x)
    }
}

/// `s` with every occurrence of `x` removed, the remaining elements kept
/// in their original relative order (a stable filter, not a swap-remove).
pub open spec fn remove_val<T>(s: Seq<T>, x: T) -> Seq<T>
    decreases s.len(),
{
    if s.len() == 0 {
        Seq::empty()
    } else {
        let rest = remove_val(s.drop_last(), x);
        if s.last() == x {
            rest
        } else {
            rest.push(s.last())
        }
    }
}

/// The position that the element `s[i]` takes in `remove_val(s, x)`:
/// the number of surviving elements strictly before index `i`.
pub open spec fn surviving_index<T>(s: Seq<T>, x: T, i: int) -> int {
    remove_val(s.take(i), x).len() as int
}

/// Inserting a value twice leaves the list exactly as inserting it once.
pub proof fn lemma_insert_idempotent<T>(s: Seq<T>, x: T)
    ensures
        insert_val(insert_val(s, x), x) == insert_val(s, x),
{
    if !s.contains(x) {
        assert(s.push(x)[s.len() as int] == x);
        assert(s.push(x).contains(x));
    }
}

/// Inserting a value that is already present is a no-op.
pub proof fn lemma_insert_present_noop<T>(s: Seq<T>, x: T)
    requires
        s.contains(x),
    ensures
        insert_val(s, x) == s,
{
}

/// Membership after insertion: exactly the old elements plus the
/// inserted value.
pub proof fn lemma_insert_membership<T>(s: Seq<T>, x: T, y: T)
    ensures
        insert_val(s, x).contains(y) <==> (s.contains(y) || y == x),
{
    if !s.contains(x) {
        assert(s.push(x)[s.len() as int] == x);
        if s.contains(y) {
            let i = choose|i: int| 0 <= i < s.len() && s[i] == y;
            assert(s.push(x)[i] == y);
        }
        if s.push(x).contains(y) && y != x {
            let i = choose|i: int| 0 <= i < s.push(x).len() && s.push(x)[i] == y;
            assert(s[i] == y);
        }
    }
}

/// Membership after removal: exactly the old elements other than the
/// removed value.
pub proof fn lemma_remove_membership<T>(s: Seq<T>, x: T, y: T)
    ensures
        remove_val(s, x).contains(y) <==> (s.contains(y) && y != x),
    decreases s.len(),
{
    lemma_remove_not_contains(s, x);
    if s.len() > 0 {
        lemma_remove_membership(s.drop_last(), x, y);
        let rest = remove_val(s.drop_last(), x);
        assert(s.drop_last().contains(y) ==> s.contains(y)) by {
            if s.drop_last().contains(y) {
                let i = choose|i: int| 0 <= i < s.drop_last().len() && s.drop_last()[i] == y;
                assert(s[i] == y);
            }
        }
        if s.last() != x {
            assert(rest.push(s.last())[rest.len() as int] == s.last());
            assert(rest.contains(y) ==> rest.push(s.last()).contains(y)) by {
                if rest.contains(y) {
                    let i = choose|i: int| 0 <= i < rest.len() && rest[i] == y;
                    assert(rest.push(s.last())[i] == y);
                }
            }
            if rest.push(s.last()).contains(y) {
                let i = choose|i: int| 0 <= i < rest.push(s.last()).len() && rest.push(
                    s.last(),
                )[i] == y;
                if i < rest.len() {
                    assert(rest[i] == y);
                } else {
                    assert(y == s.last());
                    assert(s[s.len() - 1] == y);
                }
            }
        }
        if s.contains(y) && y != x {
            let i = choose|i: int| 0 <= i < s.len() && s[i] == y;
            if i < s.len() - 1 {
                assert(s.drop_last()[i] == y);
            }
        }
    }
}

/// After removal, the removed value no longer occurs.
pub proof fn lemma_remove_not_contains<T>(s: Seq<T>, x: T)
    ensures
        !remove_val(s, x).contains(x),
    decreases s.len(),
{
    if s.len() > 0 {
        lemma_remove_not_contains(s.drop_last(), x);
        let rest = remove_val(s.drop_last(), x);
        if s.last() != x {
            assert forall|i: int| 0 <= i < rest.push(s.last()).len() implies rest.push(
                s.last(),
            )[i] != x by {
                if i < rest.len() {
                    assert(!rest.contains(x));
                }
            }
        }
    }
}

/// Removing a value that does not occur is a no-op.
pub proof fn lemma_remove_absent_noop<T>(s: Seq<T>, x: T)
    requires
        !s.contains(x),
    ensures
        remove_val(s, x) == s,
    decreases s.len(),
{
    if s.len() > 0 {
        assert forall|i: int| 0 <= i < s.drop_last().len() implies s.drop_last()[i] != x by {
            assert(s[i] == s.drop_last()[i]);
        }
        assert(!s.drop_last().contains(x));
        lemma_remove_absent_noop(s.drop_last(), x);
        assert(s[s.len() - 1] != x);
        assert(remove_val(s, x) =~= s);
    }
}

/// Removing a value twice leaves the list exactly as removing it once.
pub proof fn lemma_remove_idempotent<T>(s: Seq<T>, x: T)
    ensures
        remove_val(remove_val(s, x), x) == remove_val(s, x),
{
    lemma_remove_not_contains(s, x);
    lemma_remove_absent_noop(remove_val(s, x), x);
}

/// Extending the removed prefix by one element either keeps the result or
/// appends the surviving element.
pub proof fn lemma_remove_take_step<T>(s: Seq<T>, x: T, k: int)
    requires
        0 <= k < s.len(),
    ensures
        remove_val(s.take(k + 1), x) == (if s[k] == x {
            remove_val(s.take(k), x)
        } else {
            remove_val(s.take(k), x).push(s[k])
        }),
{
    assert(s.take(k + 1).len() == k + 1);
    assert(s.take(k + 1).drop_last() =~= s.take(k));
    assert(s.take(k + 1).last() == s[k]);
}

/// The removal of a shorter prefix is itself a prefix of the removal of a
/// longer one, and never longer than it.
pub proof fn lemma_remove_take_prefix<T>(s: Seq<T>, x: T, a: int, b: int)
    requires
        0 <= a <= b <= s.len(),
    ensures
        remove_val(s.take(a), x).len() <= remove_val(s.take(b), x).len(),
        remove_val(s.take(b), x).take(remove_val(s.take(a), x).len() as int) == remove_val(
            s.take(a),
            x,
        ),
    decreases b - a,
{
    let ra = remove_val(s.take(a), x);
    if a == b {
        assert(ra.take(ra.len() as int) =~= ra);
    } else {
        lemma_remove_take_prefix(s, x, a, b - 1);
        let rp = remove_val(s.take(b - 1), x);
        lemma_remove_take_step(s, x, b - 1);
        if s[b - 1] == x {
        } else {
            assert(rp.push(s[b - 1]).take(ra.len() as int) =~= rp.take(ra.len() as int));
        }
    }
}

/// Removing a value preserves the relative order of the remaining
/// elements: any two surviving elements reappear, in the same order, at
/// the positions `surviving_index` names for them.
pub proof fn lemma_remove_preserves_order<T>(s: Seq<T>, x: T, i: int, j: int)
    requires
        0 <= i < j < s.len(),
        s[i] != x,
        s[j] != x,
    ensures
        0 <= surviving_index(s, x, i) < surviving_index(s, x, j) < remove_val(s, x).len(),
        remove_val(s, x)[surviving_index(s, x, i)] == s[i],
        remove_val(s, x)[surviving_index(s, x, j)] == s[j],
{
    let r = remove_val(s, x);
    assert(s.take(s.len() as int) =~= s);
    lemma_remove_survivor_position(s, x, i);
    lemma_remove_survivor_position(s, x, j);
    lemma_remove_take_prefix(s, x, i + 1, j);
}

/// A surviving element `s[i]` stands at `surviving_index(s, x, i)` in the
/// removal result.
pub proof fn lemma_remove_survivor_position<T>(s: Seq<T>, x: T, i: int)
    requires
        0 <= i < s.len(),
        s[i] != x,
    ensures
        0 <= surviving_index(s, x, i) < remove_val(s, x).len(),
        remove_val(s, x)[surviving_index(s, x, i)] == s[i],
        surviving_index(s, x, i) < remove_val(s.take(i + 1), x).len(),
{
    let ri = remove_val(s.take(i), x);
    lemma_remove_take_step(s, x, i);
    assert(remove_val(s.take(i + 1), x) == ri.push(s[i]));
    assert(ri.push(s[i])[ri.len() as int] == s[i]);
    lemma_remove_take_prefix(s, x, i + 1, s.len() as int);
    assert(s.take(s.len() as int) =~= s);
    let rfull = remove_val(s, x);
    let rstep = remove_val(s.take(i + 1), x);
    assert(rfull.take(rstep.len() as int) == rstep);
    assert(rfull.take(rstep.len() as int)[ri.len() as int] == s[i]);
}

} // verus!
