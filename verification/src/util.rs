use vstd::prelude::*;

verus! {

/// Whether `v` holds `x`.
pub fn vec_contains(v: &Vec<u16>, x: u16) -> (r: bool)
    ensures
        r == v@.contains(x),
{
    let mut i: usize = 0;
    while i < v.len()
        invariant
            i <= v.len(),
            forall|j: int| 0 <= j < i ==> v@[j] != x,
        decreases v.len() - i,
    {
        if v[i] == x {
            assert(v@[i as int] == x);
            return true;
        }
        i = i + 1;
    }
    false
}

/// `s` without the occurrences of `x`.
pub open spec fn without(s: Seq<u16>, x: u16) -> Seq<u16> {
    s.filter(|y: u16| y != x)
}

/// Drops every occurrence of `x` from `v`, keeping the order of the rest.
pub fn remove_all(v: &mut Vec<u16>, x: u16)
    ensures
        final(v)@ == without(old(v)@, x),
{
    let ghost orig = v@;
    let mut kept: Vec<u16> = Vec::new();
    let mut i: usize = 0;
    while i < v.len()
        invariant
            i <= v.len(),
            v@ == orig,
            kept@ == without(orig.take(i as int), x),
        decreases v.len() - i,
    {
        proof {
            reveal_with_fuel(Seq::<_>::filter, 1);
            assert(orig.take(i + 1).drop_last() =~= orig.take(i as int));
        }
        if v[i] != x {
            kept.push(v[i]);
        }
        i = i + 1;
    }
    proof {
        assert(orig.take(orig.len() as int) =~= orig);
    }
    *v = kept;
}

/// A sequence without `x` does not hold `x`, and keeps all other elements.
pub proof fn lemma_without(s: Seq<u16>, x: u16)
    ensures
        !without(s, x).contains(x),
        forall|y: u16| y != x ==> (without(s, x).contains(y) <==> s.contains(y)),
        without(s, x).len() <= s.len(),
        !s.contains(x) ==> without(s, x) == s,
    decreases s.len(),
{
    broadcast use vstd::seq_lib::group_filter_ensures;
    if s.len() > 0 {
        lemma_without(s.drop_last(), x);
        reveal_with_fuel(Seq::<_>::filter, 1);
        assert(s.drop_last().push(s.last()) =~= s);
        if !s.contains(x) {
            assert(!s.drop_last().contains(x)) by {
                if s.drop_last().contains(x) {
                    let k = choose|k: int| 0 <= k < s.drop_last().len() && s.drop_last()[k] == x;
                    assert(s[k] == x);
                }
            }
        }
        let w = without(s.drop_last(), x);
        assert(without(s, x) == (if s.last() != x { w.push(s.last()) } else { w }));
        assert forall|y: u16| y != x implies (without(s, x).contains(y) <==> s.contains(y)) by {
            if s.contains(y) {
                let k = choose|k: int| 0 <= k < s.len() && s[k] == y;
                if k < s.len() - 1 {
                    assert(s.drop_last()[k] == y);
                    assert(w.contains(y));
                    if s.last() != x {
                        let k2 = choose|k2: int| 0 <= k2 < w.len() && w[k2] == y;
                        assert(w.push(s.last())[k2] == y);
                    }
                } else {
                    assert(w.push(s.last())[w.len() as int] == y);
                }
            }
            if without(s, x).contains(y) {
                let k = choose|k: int| 0 <= k < without(s, x).len() && without(s, x)[k] == y;
                if s.last() != x && k == w.len() {
                    assert(s[s.len() - 1] == y);
                } else {
                    assert(w[k] == y);
                    assert(s.drop_last().contains(y));
                    let k2 = choose|k2: int| 0 <= k2 < s.drop_last().len() && s.drop_last()[k2] == y;
                    assert(s[k2] == y);
                }
            }
        }
        assert(!without(s, x).contains(x)) by {
            if without(s, x).contains(x) {
                let k = choose|k: int| 0 <= k < without(s, x).len() && without(s, x)[k] == x;
                if !(s.last() != x && k == w.len()) {
                    assert(w[k] == x);
                }
            }
        }
    } else {
        assert(without(s, x) =~= s);
    }
}

/// A sequence without duplicates.
pub open spec fn no_dups(s: Seq<u16>) -> bool {
    forall|i: int, j: int| 0 <= i < j < s.len() ==> s[i] != s[j]
}

/// Filtering a sequence without duplicates leaves no duplicates.
pub proof fn lemma_filter_no_dups(s: Seq<u16>, x: u16)
    requires
        no_dups(s),
    ensures
        no_dups(without(s, x)),
    decreases s.len(),
{
    if s.len() > 0 {
        lemma_filter_no_dups(s.drop_last(), x);
        reveal_with_fuel(Seq::<_>::filter, 1);
        let w = without(s.drop_last(), x);
        lemma_without(s.drop_last(), x);
        if s.last() != x {
            assert(!w.contains(s.last())) by {
                if w.contains(s.last()) {
                    assert(s.drop_last().contains(s.last()));
                    let k = choose|k: int| 0 <= k < s.drop_last().len() && s.drop_last()[k] == s.last();
                    assert(s[k] == s[s.len() - 1]);
                }
            }
            assert forall|i: int, j: int| 0 <= i < j < w.push(s.last()).len() implies w.push(s.last())[i]
                != w.push(s.last())[j] by {
                if j == w.len() {
                    assert(w[i] == w.push(s.last())[i]);
                }
            }
        }
    }
}

/// `s` with `x` added at the end unless it is already there.
pub open spec fn set_insert(s: Seq<u16>, x: u16) -> Seq<u16> {
    if s.contains(x) {
        s
    } else {
        s.push(x)
    }
}

/// Adds `x` to `v` unless `v` holds it already.
pub fn insert_key(v: &mut Vec<u16>, x: u16)
    requires
        no_dups(old(v)@),
    ensures
        final(v)@ == set_insert(old(v)@, x),
        no_dups(final(v)@),
{
    if !vec_contains(v, x) {
        v.push(x);
    }
}

/// Removes `x` from `v`.
pub fn remove_key(v: &mut Vec<u16>, x: u16)
    requires
        no_dups(old(v)@),
    ensures
        final(v)@ == without(old(v)@, x),
        no_dups(final(v)@),
{
    proof {
        lemma_filter_no_dups(v@, x);
    }
    remove_all(v, x);
}

} // verus!

verus! {

/// A copy of a vector of key codes.
pub fn clone_keys(v: &Vec<u16>) -> (r: Vec<u16>)
    ensures
        r@ == v@,
{
    let r = v.clone();
    assert(r@ =~= v@);
    r
}

} // verus!
