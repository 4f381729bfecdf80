//! Duplicate checks on the battles of a vote.
use vstd::prelude::*;
use crate::pallet::Pallet;
use crate::types::{BattleId, VoteSelect};

verus! {

/// The battles that a list of selections is about, in order.
pub open spec fn battle_ids(s: Seq<VoteSelect>) -> Seq<BattleId> {
    s.map_values(|x: VoteSelect| x.battle_id)
}

/// Some battle occurs twice in `v`.
pub open spec fn has_repeat(v: Seq<BattleId>) -> bool {
    exists|i: int, j: int| 0 <= i < j < v.len() && v[i] == v[j]
}

/// Some selection of `new` names a battle that `old`, or an earlier selection
/// of `new`, names already.
pub open spec fn appends_repeat(old: Seq<VoteSelect>, new: Seq<VoteSelect>) -> bool {
    let ids = battle_ids(old) + battle_ids(new);
    exists|j: int, k: int| 0 <= j < k && old.len() <= k < ids.len() && ids[j] == ids[k]
}

impl Pallet {
    /// Whether a non-empty list of battles names some battle twice.
    pub fn duplicate(v: Vec<BattleId>) -> (r: bool)
        requires
            v.len() > 0,
        ensures
            r == has_repeat(v@),
    {
        if v.len() == 1 {
            return false;
        }
        let n = v.len();
        let mut i: usize = 0;
        while i < n - 1
            invariant
                n == v.len(),
                n >= 2,
                i <= n - 1,
                forall|a: int, b: int| 0 <= a < i && a < b < n ==> v@[a] != v@[b],
            decreases n - 1 - i,
        {
            let mut j: usize = i + 1;
            while j < n
                invariant
                    n == v.len(),
                    i < n - 1,
                    i + 1 <= j <= n,
                    forall|a: int, b: int| 0 <= a < i && a < b < n ==> v@[a] != v@[b],
                    forall|b: int| i < b < j ==> v@[i as int] != v@[b],
                decreases n - j,
            {
                if v[i] == v[j] {
                    return true;
                }
                j = j + 1;
            }
            i = i + 1;
        }
        proof {
            assert forall|a: int, b: int| 0 <= a < b < n implies v@[a] != v@[b] by {
                assert(a < n - 1);
            }
        }
        false
    }

    /// Whether appending the selections `new_select` to `old_select` would name
    /// some battle twice.
    pub fn append_vote_check_duplicate(old_select: &Vec<VoteSelect>, new_select: &Vec<VoteSelect>) -> (r:
        bool)
        ensures
            r == appends_repeat(old_select@, new_select@),
    {
        let ghost ids = battle_ids(old_select@) + battle_ids(new_select@);
        let mut old_battle_ids: Vec<BattleId> = Vec::new();
        let mut i: usize = 0;
        while i < old_select.len()
            invariant
                i <= old_select.len(),
                old_battle_ids@ == battle_ids(old_select@).subrange(0, i as int),
            decreases old_select.len() - i,
        {
            old_battle_ids.push(old_select[i].battle_id);
            i = i + 1;
        }
        assert(old_battle_ids@ == ids.subrange(0, old_select@.len() as int));
        let mut k: usize = 0;
        while k < new_select.len()
            invariant
                ids == battle_ids(old_select@) + battle_ids(new_select@),
                k <= new_select.len(),
                old_battle_ids@ == ids.subrange(0, old_select@.len() + k),
                forall|j: int, kk: int|
                    0 <= j < kk && old_select@.len() <= kk < old_select@.len() + k ==> ids[j] != ids[kk],
            decreases new_select.len() - k,
        {
            let id = new_select[k].battle_id;
            assert(ids[old_select@.len() + k] == id);
            let mut p: usize = 0;
            while p < old_battle_ids.len() && old_battle_ids[p] != id
                invariant
                    p <= old_battle_ids.len(),
                    forall|q: int| 0 <= q < p ==> old_battle_ids@[q] != id,
                decreases old_battle_ids.len() - p,
            {
                p = p + 1;
            }
            if p < old_battle_ids.len() {
                assert(ids[p as int] == ids[old_select@.len() + k]);
                return true;
            }
            assert forall|j: int| 0 <= j < old_select@.len() + k implies #[trigger] ids[j] != ids[old_select@.len()
                + k] by {
                assert(old_battle_ids@[j] == ids[j]);
            }
            old_battle_ids.push(id);
            k = k + 1;
        }
        false
    }
}

} // verus!
