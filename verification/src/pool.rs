//! The pool: the numbers from 1 to 90 that have not been drawn yet.
//!
//! The pool is never stored. It is computed from the drawn values whenever
//! it is needed, so it cannot go stale.

use vstd::prelude::*;

verus! {

/// The largest number of the game; the smallest is 1.
pub const LAST_NUMBER: i32 = 90;

/// `v` is one of the numbers of the game.
pub open spec fn is_game_number(v: i32) -> bool {
    1 <= v <= LAST_NUMBER
}

/// The pool that is left once `drawn` have been drawn.
pub open spec fn pool(drawn: Seq<i32>) -> Set<i32> {
    Set::new(|v: i32| is_game_number(v) && !drawn.contains(v))
}

/// Every number of the game, in ascending order.
pub open spec fn all_numbers() -> Seq<i32> {
    Seq::new(LAST_NUMBER as nat, |i: int| (i + 1) as i32)
}

/// `drawn` is what a game can hold: numbers of the game, each at most once.
pub open spec fn valid_game(drawn: Seq<i32>) -> bool {
    &&& drawn.no_duplicates()
    &&& forall|i: int| 0 <= i < drawn.len() ==> is_game_number(#[trigger] drawn[i])
}

/// `values` ascend strictly.
pub open spec fn strictly_ascending(values: Seq<i32>) -> bool {
    forall|i: int, j: int| 0 <= i < j < values.len() ==> values[i] < values[j]
}

/// The pool is finite and never larger than the game.
pub proof fn lemma_pool_bounded(drawn: Seq<i32>)
    ensures
        pool(drawn).finite(),
        pool(drawn).len() <= LAST_NUMBER,
{
    let all = all_numbers();
    assert(all.no_duplicates());
    all.unique_seq_to_set();
    assert forall|v: i32| pool(drawn).contains(v) implies all.to_set().contains(v) by {
        assert(all[v - 1] == v);
    }
    vstd::set_lib::lemma_len_subset(pool(drawn), all.to_set());
}

/// In a valid game the pool and the drawn numbers together make up the
/// ninety numbers: what is left is ninety less what was drawn.
pub proof fn lemma_pool_size(drawn: Seq<i32>)
    requires
        valid_game(drawn),
    ensures
        pool(drawn).len() + drawn.len() == LAST_NUMBER,
{
    let all = all_numbers();
    assert(all.no_duplicates());
    all.unique_seq_to_set();
    drawn.unique_seq_to_set();
    lemma_pool_bounded(drawn);
    let rest = pool(drawn);
    let taken = drawn.to_set();
    assert(rest.disjoint(taken));
    assert((rest + taken) =~= all.to_set()) by {
        assert forall|v: i32| all.to_set().contains(v) implies (rest + taken).contains(v) by {
            let i = choose|i: int| 0 <= i < all.len() && all[i] == v;
            assert(is_game_number(v));
        }
        assert forall|v: i32| (rest + taken).contains(v) implies all.to_set().contains(v) by {
            if taken.contains(v) {
                let i = choose|i: int| 0 <= i < drawn.len() && drawn[i] == v;
                assert(is_game_number(drawn[i]));
            }
            assert(all[v - 1] == v);
        }
    }
    vstd::set_lib::lemma_set_disjoint_lens(rest, taken);
}

/// Whether `v` occurs among `values`.
pub fn contains(values: &Vec<i32>, v: i32) -> (found: bool)
    ensures
        found == values@.contains(v),
{
    let n = values.len();
    let mut i: usize = 0;
    while i < n
        invariant
            n == values.len(),
            i <= n,
            forall|k: int| 0 <= k < i ==> values[k] != v,
        decreases n - i,
    {
        if values[i] == v {
            return true;
        }
        i += 1;
    }
    false
}

/// The pool that is left once `drawn` have been drawn, in ascending order.
pub fn undrawn(drawn: &Vec<i32>) -> (left: Vec<i32>)
    ensures
        left@.to_set() == pool(drawn@),
        strictly_ascending(left@),
        left@.no_duplicates(),
        left@.len() == pool(drawn@).len(),
        left@.len() <= LAST_NUMBER,
{
    let mut left: Vec<i32> = Vec::new();
    let mut x: i32 = 1;
    while x <= LAST_NUMBER
        invariant
            1 <= x <= LAST_NUMBER + 1,
            strictly_ascending(left@),
            forall|k: int| 0 <= k < left@.len() ==> 1 <= #[trigger] left@[k] < x && !drawn@.contains(
                left@[k],
            ),
            forall|v: i32| 1 <= v < x && !drawn@.contains(v) ==> left@.contains(v),
        decreases LAST_NUMBER + 1 - x,
    {
        if !contains(drawn, x) {
            let ghost before = left@;
            left.push(x);
            assert forall|v: i32| 1 <= v < x + 1 && !drawn@.contains(v) implies left@.contains(
                v,
            ) by {
                if v == x {
                    assert(left@[before.len() as int] == x);
                } else {
                    let k = choose|k: int| 0 <= k < before.len() && before[k] == v;
                    assert(left@[k] == v);
                }
            }
        }
        x += 1;
    }
    proof {
        assert(left@.to_set() =~= pool(drawn@));
        left@.unique_seq_to_set();
        lemma_pool_bounded(drawn@);
    }
    left
}

} // verus!
