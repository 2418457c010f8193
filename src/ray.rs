//! Bookkeeping of the media a ray travels through.
//!
//! Walking the intersections of a ray in order, each surface crossed either enters the
//! object it belongs to or, when the ray is already inside that object, leaves it. The
//! object entered last and not yet left is the medium the ray is in; its refractive index
//! is `n1` just before a hit and `n2` just after it (the surrounding vacuum when there is
//! none).
use vstd::prelude::*;

verus! {

/// The objects a ray is inside of, in order of entry, after `o`'s surface is crossed.
pub open spec fn toggle(inside: Seq<usize>, o: usize) -> Seq<usize> {
    if inside.contains(o) {
        inside.remove_value(o)
    } else {
        inside.push(o)
    }
}

/// The objects a ray is inside of, in order of entry, after crossing the surfaces of
/// the first `k` hits (each given by its object's identity).
pub open spec fn containers(hits: Seq<usize>, k: nat) -> Seq<usize>
    decreases k,
{
    if k == 0 || k > hits.len() {
        Seq::empty()
    } else {
        toggle(containers(hits, (k - 1) as nat), hits[k - 1])
    }
}

/// The object entered last and not yet left, if any.
pub open spec fn innermost(inside: Seq<usize>) -> Option<usize> {
    if inside.len() == 0 {
        None
    } else {
        Some(inside.last())
    }
}

/// A ray is inside an object at most once: no object appears twice among the media it is in.
pub proof fn lemma_containers_distinct(hits: Seq<usize>, k: nat)
    ensures
        containers(hits, k).no_duplicates(),
    decreases k,
{
    if k > 0 && k <= hits.len() {
        lemma_containers_distinct(hits, (k - 1) as nat);
        let c = containers(hits, (k - 1) as nat);
        let o = hits[k - 1];
        if c.contains(o) {
            c.index_of_first_ensures(o);
            let i = c.index_of_first(o).unwrap();
            let r = c.remove(i);
            assert forall|a: int, b: int| 0 <= a < r.len() && 0 <= b < r.len() && a != b implies r[a]
                != r[b] by {
                let a2 = if a < i { a } else { a + 1 };
                let b2 = if b < i { b } else { b + 1 };
                assert(r[a] == c[a2]);
                assert(r[b] == c[b2]);
            }
        } else {
            let r = c.push(o);
            assert forall|a: int, b: int| 0 <= a < r.len() && 0 <= b < r.len() && a != b implies r[a]
                != r[b] by {
                if a < c.len() && b < c.len() {
                    assert(r[a] == c[a] && r[b] == c[b]);
                } else if a < c.len() {
                    assert(r[a] == c[a]);
                } else if b < c.len() {
                    assert(r[b] == c[b]);
                }
            }
        }
    }
}

fn toggle_exec(inside: &mut Vec<usize>, o: usize)
    ensures
        final(inside)@ == toggle(old(inside)@, o),
{
    let mut i: usize = 0;
    while i < inside.len()
        invariant
            i <= inside@.len(),
            inside@ == old(inside)@,
            forall|j: int| 0 <= j < i ==> inside@[j] != o,
        decreases inside@.len() - i,
    {
        if inside[i] == o {
            proof {
                assert(inside@[i as int] == o);
                inside@.index_of_first_ensures(o);
            }
            inside.remove(i);
            return;
        }
        i = i + 1;
    }
    proof {
        assert(!inside@.contains(o));
    }
    inside.push(o);
}

fn innermost_exec(inside: &Vec<usize>) -> (r: Option<usize>)
    ensures
        r == innermost(inside@),
{
    if inside.len() == 0 {
        None
    } else {
        Some(inside[inside.len() - 1])
    }
}

/// For the intersections of a ray, in order, given by the identities of their objects,
/// and the index `target` of the hit being shaded: the object whose medium the ray is
/// in just before the hit (exited, `n1`) and just after it (entered, `n2`), `None` for
/// the vacuum. An index past the intersections gives the vacuum on both sides.
pub fn media_at(hits: &Vec<usize>, target: usize) -> (r: (Option<usize>, Option<usize>))
    ensures
        target < hits@.len() ==> r == (
            innermost(containers(hits@, target as nat)),
            innermost(containers(hits@, (target + 1) as nat)),
        ),
        target >= hits@.len() ==> r == (None::<usize>, None::<usize>),
{
    if target >= hits.len() {
        return (None, None);
    }
    let mut inside: Vec<usize> = Vec::new();
    let mut i: usize = 0;
    while i < target
        invariant
            target < hits@.len(),
            i <= target,
            inside@ == containers(hits@, i as nat),
        decreases target - i,
    {
        toggle_exec(&mut inside, hits[i]);
        i = i + 1;
    }
    let before = innermost_exec(&inside);
    toggle_exec(&mut inside, hits[target]);
    let after = innermost_exec(&inside);
    (before, after)
}

} // verus!
