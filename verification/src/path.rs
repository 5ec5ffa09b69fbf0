//! Slash-separated paths as sequences of components. Components are matched
//! literally: nothing collapses `.` or `..`, and an empty component is a
//! component like any other.

use vstd::prelude::*;

verus! {

/// The byte that separates the components of a path.
pub const SLASH: u8 = 47;

/// The components of a path: what stands between its slashes. A path with
/// `n` slashes has `n + 1` components, some of them possibly empty.
pub open spec fn split_path(p: Seq<u8>) -> Seq<Seq<u8>>
    decreases p.len(),
{
    if p.len() == 0 {
        seq![Seq::<u8>::empty()]
    } else {
        let before = split_path(p.drop_last());
        if p.last() == SLASH {
            before.push(Seq::<u8>::empty())
        } else {
            before.drop_last().push(before.last().push(p.last()))
        }
    }
}

/// The components of a path with a slash between each two.
pub open spec fn join_path(comps: Seq<Seq<u8>>) -> Seq<u8>
    decreases comps.len(),
{
    if comps.len() == 0 {
        Seq::<u8>::empty()
    } else if comps.len() == 1 {
        comps[0]
    } else {
        join_path(comps.drop_last()) + seq![SLASH] + comps.last()
    }
}

/// A list of components, each as its bytes.
pub open spec fn comps_view(comps: Seq<Vec<u8>>) -> Seq<Seq<u8>> {
    comps.map_values(|c: Vec<u8>| c@)
}

/// A path always has at least one component.
pub proof fn lemma_split_nonempty(p: Seq<u8>)
    ensures
        split_path(p).len() >= 1,
    decreases p.len(),
{
    if p.len() > 0 {
        lemma_split_nonempty(p.drop_last());
    }
}

/// No component holds a slash.
pub proof fn lemma_split_no_slash(p: Seq<u8>)
    ensures
        forall|i: int, j: int|
            0 <= i < split_path(p).len() && 0 <= j < split_path(p)[i].len() ==> split_path(
                p,
            )[i][j] != SLASH,
    decreases p.len(),
{
    if p.len() > 0 {
        lemma_split_nonempty(p.drop_last());
        lemma_split_no_slash(p.drop_last());
    }
}

/// Joining the components of a path gives the path back.
pub proof fn lemma_join_split(p: Seq<u8>)
    ensures
        join_path(split_path(p)) == p,
    decreases p.len(),
{
    if p.len() > 0 {
        let q = p.drop_last();
        let before = split_path(q);
        lemma_split_nonempty(q);
        lemma_join_split(q);
        if p.last() == SLASH {
            let after = before.push(Seq::<u8>::empty());
            assert(after.drop_last() =~= before);
            assert(join_path(after) =~= join_path(before) + seq![SLASH] + Seq::<u8>::empty());
            assert(join_path(after) =~= p);
        } else {
            let grown = before.last().push(p.last());
            let after = before.drop_last().push(grown);
            if before.len() == 1 {
                assert(join_path(before) == before[0]);
                assert(after.len() == 1 && after[0] == grown);
                assert(q.push(p.last()) =~= p);
                assert(join_path(after) =~= p);
            } else {
                assert(after.drop_last() =~= before.drop_last());
                assert(join_path(before) == join_path(before.drop_last()) + seq![SLASH]
                    + before.last());
                assert(join_path(after) =~= join_path(before.drop_last()) + seq![SLASH] + grown);
                assert(q.push(p.last()) =~= p);
                assert(join_path(after) =~= p);
            }
        }
    }
}

/// A path without a slash is its own single component.
pub proof fn lemma_split_single(p: Seq<u8>)
    requires
        forall|j: int| 0 <= j < p.len() ==> p[j] != SLASH,
    ensures
        split_path(p) == seq![p],
    decreases p.len(),
{
    if p.len() == 0 {
        assert(p =~= Seq::<u8>::empty());
    } else {
        lemma_split_single(p.drop_last());
        assert(p.drop_last().push(p.last()) =~= p);
        assert(seq![p.drop_last()].drop_last().push(p.drop_last().push(p.last())) =~= seq![p]);
    }
}

/// Whether two byte strings are equal.
pub fn bytes_equal(a: &Vec<u8>, b: &Vec<u8>) -> (r: bool)
    ensures
        r == (a@ == b@),
{
    if a.len() != b.len() {
        return false;
    }
    let mut i: usize = 0;
    while i < a.len()
        invariant
            i <= a.len(),
            a.len() == b.len(),
            forall|j: int| 0 <= j < i ==> a@[j] == b@[j],
        decreases a.len() - i,
    {
        if a[i] != b[i] {
            return false;
        }
        i += 1;
    }
    assert(a@ =~= b@);
    true
}

/// A copy of a byte string.
pub fn copy_bytes(bytes: &Vec<u8>) -> (r: Vec<u8>)
    ensures
        r@ == bytes@,
{
    let mut out: Vec<u8> = Vec::new();
    let mut i: usize = 0;
    while i < bytes.len()
        invariant
            i <= bytes.len(),
            out@ == bytes@.take(i as int),
        decreases bytes.len() - i,
    {
        out.push(bytes[i]);
        assert(out@ =~= bytes@.take(i + 1));
        i += 1;
    }
    assert(bytes@.take(bytes.len() as int) =~= bytes@);
    out
}

/// Splits a path on `/` into its components.
pub fn split(path: &[u8]) -> (r: Vec<Vec<u8>>)
    ensures
        comps_view(r@) == split_path(path@),
        r.len() >= 1,
{
    let mut done: Vec<Vec<u8>> = Vec::new();
    let mut current: Vec<u8> = Vec::new();
    let mut i: usize = 0;
    assert(path@.take(0) =~= Seq::<u8>::empty());
    assert(comps_view(done@).push(current@) =~= split_path(path@.take(0)));
    while i < path.len()
        invariant
            i <= path.len(),
            comps_view(done@).push(current@) == split_path(path@.take(i as int)),
        decreases path.len() - i,
    {
        let b: u8 = path[i];
        let ghost before = comps_view(done@).push(current@);
        assert(path@.take(i + 1).drop_last() =~= path@.take(i as int));
        assert(path@.take(i + 1).last() == b);
        if b == SLASH {
            done.push(current);
            current = Vec::new();
            assert(comps_view(done@) =~= before);
            assert(comps_view(done@).push(current@) =~= before.push(Seq::<u8>::empty()));
        } else {
            current.push(b);
            assert(comps_view(done@).push(current@) =~= before.drop_last().push(
                before.last().push(b),
            ));
        }
        i += 1;
    }
    assert(path@.take(path.len() as int) =~= path@);
    done.push(current);
    assert(comps_view(done@) =~= split_path(path@));
    done
}

/// Whether `prefix` is `path` or one of the directories above it, component
/// by component.
pub fn starts_with(path: &Vec<Vec<u8>>, prefix: &Vec<Vec<u8>>) -> (r: bool)
    ensures
        r == comps_view(prefix@).is_prefix_of(comps_view(path@)),
{
    if prefix.len() > path.len() {
        return false;
    }
    let mut i: usize = 0;
    while i < prefix.len()
        invariant
            i <= prefix.len(),
            prefix.len() <= path.len(),
            forall|j: int| 0 <= j < i ==> prefix@[j]@ == path@[j]@,
        decreases prefix.len() - i,
    {
        if !bytes_equal(&prefix[i], &path[i]) {
            assert(comps_view(prefix@)[i as int] != comps_view(path@)[i as int]);
            return false;
        }
        i += 1;
    }
    assert(comps_view(prefix@) =~= comps_view(path@).subrange(0, prefix.len() as int));
    true
}

} // verus!
