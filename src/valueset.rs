use vstd::prelude::*;

verus! {

broadcast use vstd::seq::Seq::lemma_push_to_set_commute;

/// Whether `x` is one of the values in `v`.
pub fn contains_value(v: &Vec<usize>, x: usize) -> (r: bool)
    ensures
        r == v@.contains(x),
{
    let mut i: usize = 0;
    while i < v.len()
        invariant
            i <= v.len(),
            forall|j: int| 0 <= j < i ==> v@[j] != x,
        decreases v.len() - i,
    {
        if v[i] == x {
            return true;
        }
        i = i + 1;
    }
    false
}

/// Adds `x` to the values in `v`, at the end, unless it is there already.
pub fn insert_value(v: &mut Vec<usize>, x: usize)
    ensures
        final(v)@.to_set() == old(v)@.to_set().insert(x),
        old(v)@.contains(x) ==> final(v)@ == old(v)@,
        !old(v)@.contains(x) ==> final(v)@ == old(v)@.push(x),
        old(v)@.no_duplicates() ==> final(v)@.no_duplicates(),
{
    if !contains_value(v, x) {
        v.push(x);
        assert(v@.to_set() =~= old(v)@.to_set().insert(x));
    } else {
        assert(v@.to_set() =~= old(v)@.to_set().insert(x));
    }
}

/// Adds every value of `src` to `dst`, keeping the values already there in
/// place and adding the new ones at the end.
pub fn union_into(dst: &mut Vec<usize>, src: &Vec<usize>)
    ensures
        final(dst)@.to_set() == old(dst)@.to_set() + src@.to_set(),
        final(dst)@.subrange(0, old(dst)@.len() as int) == old(dst)@,
        old(dst)@.len() <= final(dst)@.len(),
        old(dst)@.no_duplicates() ==> final(dst)@.no_duplicates(),
{
    let ghost start = dst@;
    let mut i: usize = 0;
    while i < src.len()
        invariant
            i <= src.len(),
            dst@.to_set() == start.to_set() + src@.subrange(0, i as int).to_set(),
            dst@.subrange(0, start.len() as int) == start,
            start.len() <= dst@.len(),
            start.no_duplicates() ==> dst@.no_duplicates(),
        decreases src.len() - i,
    {
        let ghost before = dst@;
        insert_value(dst, src[i]);
        assert(src@.subrange(0, i + 1).to_set() =~= src@.subrange(0, i as int).to_set().insert(
            src@[i as int],
        )) by {
            assert(src@.subrange(0, i + 1) =~= src@.subrange(0, i as int).push(src@[i as int]));
        }
        assert(dst@.subrange(0, start.len() as int) =~= before.subrange(0, start.len() as int));
        i = i + 1;
    }
    assert(src@.subrange(0, src.len() as int) =~= src@);
    assert(dst@.to_set() =~= start.to_set() + src@.to_set());
}

} // verus!
