//! Facts about the block mapping that a world is built with.
use vstd::prelude::*;

verus! {

/// What the world loader reads of one block of the internal mapping: the
/// internal id of its default state and those of all its states.
pub struct BlockIds {
    pub default_internal_id: u32,
    pub state_ids: Vec<u32>,
}

/// The largest of `acc` and the ids.
pub open spec fn max_of(acc: u32, ids: Seq<u32>) -> u32
    decreases ids.len(),
{
    if ids.len() == 0 {
        acc
    } else {
        let rest = max_of(acc, ids.drop_last());
        if ids.last() > rest {
            ids.last()
        } else {
            rest
        }
    }
}

/// The largest internal id of the blocks seen so far, from 0.
pub open spec fn spec_largest_internal_id(blocks: Seq<BlockIds>) -> u32
    decreases blocks.len(),
{
    if blocks.len() == 0 {
        0
    } else {
        let b = blocks.last();
        max_of(max_of(spec_largest_internal_id(blocks.drop_last()), b.state_ids@), seq![b.default_internal_id])
    }
}

/// The largest internal id of any state of any block; 0 when there is none.
pub fn find_largest_internal_id(blocks: &[BlockIds]) -> (r: u32)
    ensures
        r == spec_largest_internal_id(blocks@),
        forall|i: int, j: int|
            0 <= i < blocks@.len() && 0 <= j < blocks@[i].state_ids@.len() ==> blocks@[i].state_ids@[j] <= r,
        forall|i: int| 0 <= i < blocks@.len() ==> blocks@[i].default_internal_id <= r,
{
    let mut acc: u32 = 0;
    let mut i: usize = 0;
    while i < blocks.len()
        invariant
            i <= blocks@.len(),
            acc == spec_largest_internal_id(blocks@.take(i as int)),
            forall|a: int, j: int|
                0 <= a < i && 0 <= j < blocks@[a].state_ids@.len() ==> blocks@[a].state_ids@[j] <= acc,
            forall|a: int| 0 <= a < i ==> blocks@[a].default_internal_id <= acc,
        decreases blocks@.len() - i,
    {
        let b = &blocks[i];
        let ghost before = acc;
        let mut k: usize = 0;
        while k < b.state_ids.len()
            invariant
                k <= b.state_ids@.len(),
                acc == max_of(before, b.state_ids@.take(k as int)),
                before <= acc,
                forall|j: int| 0 <= j < k ==> b.state_ids@[j] <= acc,
            decreases b.state_ids@.len() - k,
        {
            assert(b.state_ids@.take(k + 1).drop_last() =~= b.state_ids@.take(k as int));
            if b.state_ids[k] > acc {
                acc = b.state_ids[k];
            }
            k = k + 1;
        }
        assert(b.state_ids@.take(k as int) =~= b.state_ids@);
        if b.default_internal_id > acc {
            acc = b.default_internal_id;
        }
        proof {
            assert(blocks@.take(i + 1).drop_last() =~= blocks@.take(i as int));
            assert(blocks@.take(i + 1).last() == blocks@[i as int]);
            reveal_with_fuel(max_of, 2);
        }
        i = i + 1;
    }
    assert(blocks@.take(i as int) =~= blocks@);
    acc
}

} // verus!
