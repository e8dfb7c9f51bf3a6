//! Laws of the reference-counted layer: what sequences of clone and drop
//! transitions do to a shared block.
//!
//! The exec operations on `RcArray` pin their effect on the store down to the
//! step predicates `clone_step` and `drop_step`; the lemmas here are proved
//! over those predicates alone, so they hold of every program that uses the
//! operations, whatever the interleaving.

use super::generic::RcStore;
use crate::traits::LabelledArray;
use super::generic::ArcStruct;
use vstd::prelude::*;

verus! {

/// Law: cloning a handle to a block with a single reference and then
/// dropping the original leaves the clone fully valid with unchanged
/// contents and label, and destroys nothing; dropping the clone afterwards
/// destroys the block, so the block is destroyed exactly once across the
/// whole sequence.
pub proof fn lemma_clone_then_drop<E, L, A: LabelledArray<E, ArcStruct<L>>>(
    s0: RcStore<E, L, A>,
    s1: RcStore<E, L, A>,
    s2: RcStore<E, L, A>,
    s3: RcStore<E, L, A>,
    i: int,
)
    requires
        s0.count_at(i) == 1,
        s0.clone_step(s1, i),
        s1.drop_step(s2, i),
        s2.drop_step(s3, i),
    ensures
        !s0.destroys(s1, i),
        !s1.destroys(s2, i),
        s2.live(i),
        s2.elems_at(i) == s0.elems_at(i),
        s2.label_at(i) == s0.label_at(i),
        s2.count_at(i) == 1,
        s2.destroys(s3, i),
{
    assert(s1.count_at(i) == 2);
}

/// Law: a run of clone transitions on one slot leaves the block live, grows
/// its count by the number of clones, and changes neither its elements nor
/// its label.
pub proof fn lemma_clones_add_up<E, L, A: LabelledArray<E, ArcStruct<L>>>(
    states: Seq<RcStore<E, L, A>>,
    i: int,
)
    requires
        states.len() >= 1,
        states[0].live(i),
        forall|k: int|
            0 <= k < states.len() - 1 ==> (#[trigger] states[k]).clone_step(states[k + 1], i),
    ensures
        states.last().live(i),
        states.last().count_at(i) == states[0].count_at(i) + states.len() - 1,
        states.last().elems_at(i) == states[0].elems_at(i),
        states.last().label_at(i) == states[0].label_at(i),
        forall|k: int| 0 <= k < states.len() - 1 ==> !(#[trigger] states[k]).destroys(states[k + 1], i),
    decreases states.len(),
{
    if states.len() > 1 {
        let prefix = states.drop_last();
        assert forall|k: int|
            0 <= k < prefix.len() - 1 implies (#[trigger] prefix[k]).clone_step(prefix[k + 1], i) by {
            assert(states[k].clone_step(states[k + 1], i));
        }
        lemma_clones_add_up(prefix, i);
        assert(states[states.len() - 2].clone_step(states[states.len() - 1], i));
        assert(prefix.last() == states[states.len() - 2]);
        assert forall|k: int|
            0 <= k < states.len() - 1 implies !(#[trigger] states[k]).destroys(states[k + 1], i) by {
            assert(states[k].clone_step(states[k + 1], i));
            if states[k].live(i) {
                assert(states[k + 1].live(i));
            }
        }
    }
}

/// Law: a run of drop transitions on one slot, as many as the block has
/// references, keeps the block live and its contents unchanged through every
/// drop but the last, and the last drop alone destroys it: one destruction,
/// never two, whatever handles the drops came from.
pub proof fn lemma_drops_destroy_once<E, L, A: LabelledArray<E, ArcStruct<L>>>(
    states: Seq<RcStore<E, L, A>>,
    i: int,
)
    requires
        states.len() >= 2,
        states[0].live(i),
        states[0].count_at(i) == states.len() - 1,
        forall|k: int|
            0 <= k < states.len() - 1 ==> (#[trigger] states[k]).drop_step(states[k + 1], i),
    ensures
        forall|k: int|
            0 <= k < states.len() - 2 ==> !(#[trigger] states[k]).destroys(states[k + 1], i),
        forall|k: int|
            0 <= k < states.len() - 1 ==> (#[trigger] states[k].live(i)) && states[k].elems_at(i)
                == states[0].elems_at(i),
        states[states.len() - 2].destroys(states.last(), i),
    decreases states.len(),
{
    assert(states[0].drop_step(states[1], i));
    if states.len() == 2 {
        assert(states[0].count_at(i) == 1);
        assert(!states[1].live(i));
    } else {
        assert(states[0].count_at(i) > 1);
        assert(states[1].live(i));
        assert(states[1].count_at(i) == states[0].count_at(i) - 1);
        let rest = states.subrange(1, states.len() as int);
        assert forall|k: int|
            0 <= k < rest.len() - 1 implies (#[trigger] rest[k]).drop_step(rest[k + 1], i) by {
            assert(states[k + 1].drop_step(states[k + 2], i));
        }
        lemma_drops_destroy_once(rest, i);
        assert forall|k: int|
            0 <= k < states.len() - 2 implies !(#[trigger] states[k]).destroys(states[k + 1], i) by {
            if k > 0 {
                assert(!rest[k - 1].destroys(rest[k], i));
            } else {
                assert(states[1].live(i));
            }
        }
        assert forall|k: int|
            0 <= k < states.len() - 1 implies (#[trigger] states[k].live(i)) && states[k].elems_at(
            i,
        ) == states[0].elems_at(i) by {
            if k > 0 {
                assert(rest[k - 1].live(i));
                assert(rest[k - 1].elems_at(i) == rest[0].elems_at(i));
            }
        }
        assert(rest[rest.len() - 2] == states[states.len() - 2]);
        assert(rest.last() == states.last());
    }
}

/// Law: starting from a sole handle, cloning it `n` times and then dropping
/// all `n + 1` handles results in exactly one destruction event: none of the
/// clones and none of the drops but the last destroys the block, and the
/// last drop does.
pub proof fn lemma_shared_destruction_once<E, L, A: LabelledArray<E, ArcStruct<L>>>(
    states: Seq<RcStore<E, L, A>>,
    n: int,
    i: int,
)
    requires
        n >= 0,
        states.len() == 2 * n + 2,
        states[0].live(i),
        states[0].count_at(i) == 1,
        forall|k: int| 0 <= k < n ==> (#[trigger] states[k]).clone_step(states[k + 1], i),
        forall|k: int| n <= k < 2 * n + 1 ==> (#[trigger] states[k]).drop_step(states[k + 1], i),
    ensures
        forall|k: int| 0 <= k < 2 * n ==> !(#[trigger] states[k]).destroys(states[k + 1], i),
        states[2 * n].destroys(states[2 * n + 1], i),
{
    let clones = states.subrange(0, n + 1);
    assert forall|k: int|
        0 <= k < clones.len() - 1 implies (#[trigger] clones[k]).clone_step(clones[k + 1], i) by {
        assert(states[k].clone_step(states[k + 1], i));
    }
    lemma_clones_add_up(clones, i);
    assert(states[n].live(i));
    assert(states[n].count_at(i) == n + 1);
    let drops = states.subrange(n, 2 * n + 2);
    assert forall|k: int|
        0 <= k < drops.len() - 1 implies (#[trigger] drops[k]).drop_step(drops[k + 1], i) by {
        assert(states[n + k].drop_step(states[n + k + 1], i));
    }
    lemma_drops_destroy_once(drops, i);
    assert forall|k: int|
        0 <= k < 2 * n implies !(#[trigger] states[k]).destroys(states[k + 1], i) by {
        if k < n {
            assert(!clones[k].destroys(clones[k + 1], i));
        } else {
            assert(!drops[k - n].destroys(drops[k - n + 1], i));
        }
    }
    assert(drops[drops.len() - 2].destroys(drops.last(), i));
    assert(drops[drops.len() - 2] == states[2 * n]);
    assert(drops.last() == states[2 * n + 1]);
}

} // verus!
