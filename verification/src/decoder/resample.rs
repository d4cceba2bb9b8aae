use vstd::prelude::*;
use crate::decoder::dsp::{is_shortest_len, planar_len, take_from_planar, taken};

verus! {

/// Takes a block of exactly `need` frames off the staging buffer when every
/// channel holds that many; otherwise returns `None` and leaves it alone.
pub fn take_ready_block<T>(stage_planar: &mut [Vec<T>], need: usize) -> (out: Option<Vec<Vec<T>>>)
    ensures
        match out {
            None => {
                &&& final(stage_planar)@ == old(stage_planar)@
                &&& exists|m: nat| is_shortest_len(old(stage_planar)@, m) && m < need
            },
            Some(block) => {
                &&& exists|m: nat| is_shortest_len(old(stage_planar)@, m) && m >= need
                &&& final(stage_planar)@.len() == old(stage_planar)@.len()
                &&& block@.len() == old(stage_planar)@.len()
                &&& forall|ch: int| 0 <= ch < old(stage_planar)@.len() ==> {
                    &&& (#[trigger] block@[ch])@ == old(stage_planar)@[ch]@.take(need as int)
                    &&& final(stage_planar)@[ch]@ == old(stage_planar)@[ch]@.skip(need as int)
                }
            },
        },
{
    let have = planar_len(stage_planar);
    if have < need {
        return None;
    }
    let block = take_from_planar(stage_planar, need);
    proof {
        assert forall|ch: int| 0 <= ch < old(stage_planar)@.len() implies
            taken(old(stage_planar)@[ch]@.len(), need as nat) == need as int by {
            assert(have as nat <= old(stage_planar)@[ch]@.len());
        }
    }
    Some(block)
}

/// Takes every whole frame left in the staging buffer, or returns `None`
/// when no channel has any (or there is no channel).
pub fn drain_remaining_planar<T>(stage_planar: &mut [Vec<T>]) -> (out: Option<Vec<Vec<T>>>)
    ensures
        match out {
            None => {
                &&& final(stage_planar)@ == old(stage_planar)@
                &&& is_shortest_len(old(stage_planar)@, 0)
            },
            Some(block) => exists|m: nat| {
                &&& is_shortest_len(old(stage_planar)@, m)
                &&& m > 0
                &&& final(stage_planar)@.len() == old(stage_planar)@.len()
                &&& block@.len() == old(stage_planar)@.len()
                &&& forall|ch: int| 0 <= ch < old(stage_planar)@.len() ==> {
                    &&& (#[trigger] block@[ch])@ == old(stage_planar)@[ch]@.take(m as int)
                    &&& final(stage_planar)@[ch]@ == old(stage_planar)@[ch]@.skip(m as int)
                }
            },
        },
{
    let have = planar_len(stage_planar);
    if have > 0 {
        let block = take_from_planar(stage_planar, have);
        proof {
            assert forall|ch: int| 0 <= ch < old(stage_planar)@.len() implies
                taken(old(stage_planar)@[ch]@.len(), have as nat) == have as int by {
                assert(have as nat <= old(stage_planar)@[ch]@.len());
            }
            assert(is_shortest_len(old(stage_planar)@, have as nat));
        }
        Some(block)
    } else {
        None
    }
}

} // verus!
