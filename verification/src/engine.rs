//! The draw engine: picks numbers from the pool at random, without
//! replacement, and appends them to the store.
//!
//! A draw holds the store by exclusive reference from the moment it reads the
//! drawn numbers until its last append, so no other draw can slip in between
//! and pick a number of the same pool.

use crate::pool::{is_game_number, lemma_pool_size, pool, undrawn, valid_game, LAST_NUMBER};
use crate::store::{next_id, values_of, DrawnNumber, NumberStore};
use crate::text::{decimal, decimal_text};
use rand::seq::SliceRandom;
use vstd::prelude::*;
use vstd::string::*;

verus! {

/// Why a draw did not go through.
#[derive(Clone, Copy, Debug, PartialEq, Eq, Structural)]
pub enum DrawError {
    /// The requested count is not positive. `available` is the size of the
    /// pool, the largest count that could have been asked for.
    InvalidCount { requested: usize, available: usize },
    /// More numbers were requested than the pool holds.
    PoolExhausted { requested: usize, available: usize },
    /// The store refused a write. The `added` numbers appended before it
    /// stay in the store.
    Persistence { added: usize },
}

/// What the caller is told of a failed draw. The text names the count that
/// was asked for and the bound that it has to keep, or the count of numbers
/// that were added before the store failed.
pub open spec fn message_text(e: DrawError) -> Seq<char> {
    match e {
        DrawError::InvalidCount { requested, available } => "Cannot add "@ + decimal(
            requested as nat,
        ) + " numbers: the count must be at least 1 and at most "@ + decimal(available as nat),
        DrawError::PoolExhausted { requested, available } => "Cannot add "@ + decimal(
            requested as nat,
        ) + " numbers: the pool holds only "@ + decimal(available as nat),
        DrawError::Persistence { added } => "The store failed after "@ + decimal(added as nat)
            + " numbers were added"@,
    }
}

impl DrawError {
    /// What the caller is told of this failure.
    pub fn message(&self) -> (text: String)
        ensures
            text@ == message_text(*self),
    {
        match *self {
            DrawError::InvalidCount { requested, available } => {
                let mut text = String::from_str("Cannot add ");
                text.append(decimal_text(requested).as_str());
                text.append(" numbers: the count must be at least 1 and at most ");
                text.append(decimal_text(available).as_str());
                text
            },
            DrawError::PoolExhausted { requested, available } => {
                let mut text = String::from_str("Cannot add ");
                text.append(decimal_text(requested).as_str());
                text.append(" numbers: the pool holds only ");
                text.append(decimal_text(available).as_str());
                text
            },
            DrawError::Persistence { added } => {
                let mut text = String::from_str("The store failed after ");
                text.append(decimal_text(added).as_str());
                text.append(" numbers were added");
                text
            },
        }
    }
}

/// How many more records the id sequence of `log` can number.
pub open spec fn id_room(log: Seq<DrawnNumber>) -> int {
    i32::MAX - next_id(log) + 1
}

/// `log` with `values` appended in order, all drawn at `now`, under the ids
/// that follow those of `log`.
pub open spec fn extended(log: Seq<DrawnNumber>, values: Seq<i32>, now: u64) -> Seq<DrawnNumber> {
    log + Seq::new(
        values.len(),
        |i: int| DrawnNumber { id: (next_id(log) + i) as i32, value: values[i], drawn_at: now },
    )
}

/// `picks` holds elements of `items` taken at positions that are all
/// different: as many as `amount`, or all of them where `items` has fewer.
pub open spec fn sampled_from(items: Seq<i32>, amount: nat, picks: Seq<i32>) -> bool {
    &&& picks.len() == if amount <= items.len() {
        amount
    } else {
        items.len()
    }
    &&& exists|at: Seq<int>| #[trigger] taken_at(items, at, picks)
}

/// `picks[i]` is `items[at[i]]` for each `i`, and no position occurs twice
/// in `at`.
pub open spec fn taken_at(items: Seq<i32>, at: Seq<int>, picks: Seq<i32>) -> bool {
    &&& at.len() == picks.len()
    &&& at.no_duplicates()
    &&& forall|i: int|
        0 <= i < at.len() ==> 0 <= #[trigger] at[i] < items.len() && picks[i] == items[at[i]]
}

/// `picks` are `n` different numbers of the pool that `drawn` leaves.
pub open spec fn picked_from_pool(drawn: Seq<i32>, n: nat, picks: Seq<i32>) -> bool {
    &&& picks.len() == n
    &&& picks.no_duplicates()
    &&& forall|i: int| 0 <= i < picks.len() ==> pool(drawn).contains(#[trigger] picks[i])
}

/// How many of `count` appends in a row the store lets through when its log
/// is `log`.
pub open spec fn admitted(log: Seq<DrawnNumber>, count: nat) -> nat {
    if count <= id_room(log) {
        count
    } else {
        id_room(log) as nat
    }
}

/// What appending `picks` one by one leaves behind: the log after it, and
/// whether all of them went in.
pub open spec fn committed(
    pre: Seq<DrawnNumber>,
    picks: Seq<i32>,
    now: u64,
    post: Seq<DrawnNumber>,
    outcome: Result<(), DrawError>,
) -> bool {
    let k = admitted(pre, picks.len());
    &&& post == extended(pre, picks.take(k as int), now)
    &&& outcome == if k == picks.len() {
        Ok::<(), DrawError>(())
    } else {
        Err::<(), DrawError>(DrawError::Persistence { added: k as usize })
    }
}

/// The drawn numbers that a result reports, if it reports any.
pub open spec fn reported(r: Result<Vec<i32>, DrawError>) -> Result<Seq<i32>, DrawError> {
    match r {
        Ok(values) => Ok(values@),
        Err(e) => Err(e),
    }
}

/// A draw of `n` numbers at `now` has taken the log from `pre` to `post` and
/// returned `r`, having picked `picks`.
pub open spec fn drew(
    pre: Seq<DrawnNumber>,
    n: usize,
    now: u64,
    post: Seq<DrawnNumber>,
    r: Result<Vec<i32>, DrawError>,
    picks: Seq<i32>,
) -> bool {
    let k = admitted(pre, n as nat);
    &&& picked_from_pool(values_of(pre), n as nat, picks)
    &&& post == extended(pre, picks.take(k as int), now)
    &&& reported(r) == if k == n {
        Ok::<Seq<i32>, DrawError>(picks)
    } else {
        Err::<Seq<i32>, DrawError>(DrawError::Persistence { added: k as usize })
    }
}

/// What a draw of `n` numbers at `now` may do to a log `pre`.
///
/// A count of zero and a count above the size of the pool are refused, and
/// the log stays as it was. Any other count picks `n` different numbers of
/// the pool and appends them in the order picked. The draw succeeds when the
/// store took them all, and reports how many it took when it did not.
pub open spec fn draw_outcome(
    pre: Seq<DrawnNumber>,
    n: usize,
    now: u64,
    post: Seq<DrawnNumber>,
    r: Result<Vec<i32>, DrawError>,
) -> bool {
    let available = pool(values_of(pre)).len();
    if n == 0 {
        &&& post == pre
        &&& r == Err::<Vec<i32>, DrawError>(
            DrawError::InvalidCount { requested: n, available: available as usize },
        )
    } else if n > available {
        &&& post == pre
        &&& r == Err::<Vec<i32>, DrawError>(
            DrawError::PoolExhausted { requested: n, available: available as usize },
        )
    } else {
        exists|picks: Seq<i32>| #[trigger] drew(pre, n, now, post, r, picks)
    }
}

/// Picks `amount` elements of `items` at random, or all of them where
/// `items` has fewer.
///
/// Calls `rand::seq::SliceRandom::choose_multiple` on the slice with the
/// thread's generator, `rand::thread_rng`. The contract claims what that
/// method documents of every outcome: it takes the smaller of `amount` and
/// the length of the slice as the number of elements, samples that many
/// different positions, and yields the elements at those positions. Which
/// positions, and in which order, is left to chance.
#[verifier::external_body]
fn choose_multiple(items: &Vec<i32>, amount: usize) -> (picks: Vec<i32>)
    ensures
        sampled_from(items@, amount as nat, picks@),
{
    let mut rng = rand::thread_rng();
    items.choose_multiple(&mut rng, amount).cloned().collect()
}

/// Elements taken at different positions of a sequence without duplicates
/// are themselves different, and each is an element of the sequence.
pub proof fn lemma_sample_is_distinct(items: Seq<i32>, amount: nat, picks: Seq<i32>)
    requires
        items.no_duplicates(),
        sampled_from(items, amount, picks),
    ensures
        picks.no_duplicates(),
        forall|i: int| 0 <= i < picks.len() ==> items.contains(#[trigger] picks[i]),
{
    let at = choose|at: Seq<int>| taken_at(items, at, picks);
    assert forall|i: int, j: int| 0 <= i < picks.len() && 0 <= j < picks.len() && i != j implies picks[i]
        != picks[j] by {
        assert(at[i] != at[j]);
    }
    assert forall|i: int| 0 <= i < picks.len() implies items.contains(#[trigger] picks[i]) by {
        assert(items[at[i]] == picks[i]);
    }
}

/// The ids of an extended log go on where those of the log end.
pub proof fn lemma_next_id_extended(log: Seq<DrawnNumber>, values: Seq<i32>, now: u64)
    requires
        values.len() <= id_room(log),
    ensures
        next_id(extended(log, values, now)) == next_id(log) + values.len(),
{
    let longer = extended(log, values, now);
    if values.len() > 0 {
        assert(longer.last() == longer[log.len() + values.len() - 1]);
    } else {
        assert(longer == log);
    }
}

/// Appends `picks` to the store one by one, in order, all drawn at `now`.
///
/// Each number is a write of its own. When the store refuses one, the
/// numbers appended before it stay, and the error says how many they are.
pub fn commit(store: &mut NumberStore, picks: &Vec<i32>, now: u64) -> (r: Result<(), DrawError>)
    requires
        old(store).wf(),
    ensures
        final(store).wf(),
        committed(old(store)@, picks@, now, final(store)@, r),
{
    let ghost pre = store@;
    let n = picks.len();
    let mut i: usize = 0;
    while i < n
        invariant
            store.wf(),
            pre == old(store)@,
            n == picks.len(),
            i <= n,
            i <= id_room(pre),
            store@ == extended(pre, picks@.take(i as int), now),
        decreases n - i,
    {
        proof {
            lemma_next_id_extended(pre, picks@.take(i as int), now);
        }
        match store.append(picks[i], now) {
            Ok(_) => {
                proof {
                    assert(picks@.take(i as int + 1) == picks@.take(i as int).push(picks@[i as int]));
                    assert(store@ == extended(pre, picks@.take(i as int + 1), now));
                }
            },
            Err(_) => {
                return Err(DrawError::Persistence { added: i });
            },
        }
        i += 1;
    }
    proof {
        assert(picks@.take(n as int) == picks@);
    }
    Ok(())
}

/// Draws `n` numbers: picks them at random from the pool, no number twice,
/// and appends them to the store, all drawn at `now`.
///
/// Returns the numbers in the order in which they were appended. A count of
/// zero fails with `InvalidCount`, a count above the size of the pool with
/// `PoolExhausted`; in both cases the store is not touched. When the store
/// refuses a write part of the way, the draw fails with `Persistence` and
/// what was appended before stays.
pub fn draw(n: usize, store: &mut NumberStore, now: u64) -> (r: Result<Vec<i32>, DrawError>)
    requires
        old(store).wf(),
    ensures
        final(store).wf(),
        draw_outcome(old(store)@, n, now, final(store)@, r),
        valid_game(values_of(old(store)@)) ==> valid_game(values_of(final(store)@)),
{
    let ghost pre = store@;
    let drawn = store.values();
    let left = undrawn(&drawn);
    let available = left.len();
    if n == 0 {
        return Err(DrawError::InvalidCount { requested: n, available });
    }
    if n > available {
        return Err(DrawError::PoolExhausted { requested: n, available });
    }
    let picks = choose_multiple(&left, n);
    proof {
        lemma_sample_is_distinct(left@, n as nat, picks@);
        assert forall|i: int| 0 <= i < picks@.len() implies pool(drawn@).contains(
            #[trigger] picks@[i],
        ) by {
            assert(left@.to_set().contains(picks@[i]));
        }
        assert(picked_from_pool(values_of(pre), n as nat, picks@));
    }
    let committed = commit(store, &picks, now);
    let r = match committed {
        Ok(_) => Ok(picks),
        Err(e) => Err(e),
    };
    proof {
        assert(drew(pre, n, now, store@, r, picks@));
        if valid_game(values_of(pre)) {
            lemma_draw_keeps_game_valid(pre, n, now, store@, r);
        }
    }
    r
}

/// A draw on a valid game leaves a valid game: no number twice, and every
/// number between 1 and 90.
pub proof fn lemma_draw_keeps_game_valid(
    pre: Seq<DrawnNumber>,
    n: usize,
    now: u64,
    post: Seq<DrawnNumber>,
    r: Result<Vec<i32>, DrawError>,
)
    requires
        draw_outcome(pre, n, now, post, r),
        valid_game(values_of(pre)),
    ensures
        valid_game(values_of(post)),
{
    let available = pool(values_of(pre)).len();
    if n != 0 && n <= available {
        let picks = choose|picks: Seq<i32>| drew(pre, n, now, post, r, picks);
        let k = admitted(pre, n as nat) as int;
        let before = values_of(pre);
        let after = values_of(post);
        assert(after.len() == before.len() + k);
        assert forall|i: int| 0 <= i < after.len() implies after[i] == if i < before.len() {
            before[i]
        } else {
            picks[i - before.len()]
        } by {}
        assert forall|i: int| 0 <= i < after.len() implies is_game_number(#[trigger] after[i]) by {
            if i >= before.len() {
                assert(pool(before).contains(picks[i - before.len()]));
            }
        }
        assert forall|i: int, j: int| 0 <= i < after.len() && 0 <= j < after.len() && i != j implies after[i]
            != after[j] by {
            if i >= before.len() {
                assert(pool(before).contains(picks[i - before.len()]));
            }
            if j >= before.len() {
                assert(pool(before).contains(picks[j - before.len()]));
            }
        }
    }
}

/// A draw on a valid game is refused when the count is zero or above what
/// ninety less the drawn numbers leave, and a refused draw leaves the log as
/// it was.
pub proof fn lemma_refused_draw_changes_nothing(
    pre: Seq<DrawnNumber>,
    n: usize,
    now: u64,
    post: Seq<DrawnNumber>,
    r: Result<Vec<i32>, DrawError>,
)
    requires
        draw_outcome(pre, n, now, post, r),
        valid_game(values_of(pre)),
        n == 0 || n > LAST_NUMBER - pre.len(),
    ensures
        r is Err,
        post == pre,
{
    lemma_pool_size(values_of(pre));
}

/// A draw of `n` numbers that succeeds makes the log longer by exactly `n`
/// records: those of the numbers it returns, in the order returned.
pub proof fn lemma_successful_draw_adds_n(
    pre: Seq<DrawnNumber>,
    n: usize,
    now: u64,
    post: Seq<DrawnNumber>,
    r: Result<Vec<i32>, DrawError>,
)
    requires
        draw_outcome(pre, n, now, post, r),
        r is Ok,
    ensures
        post.len() == pre.len() + n,
        r->Ok_0@.len() == n,
        post.take(pre.len() as int) == pre,
        values_of(post) == values_of(pre) + r->Ok_0@,
{
    let picks = choose|picks: Seq<i32>| drew(pre, n, now, post, r, picks);
    assert(picks.take(n as int) == picks);
    assert(values_of(post) =~= values_of(pre) + picks);
    assert(post.take(pre.len() as int) =~= pre);
}

/// One draw that succeeded has taken the log from `pre` to `post`.
pub open spec fn successful_draw(pre: Seq<DrawnNumber>, post: Seq<DrawnNumber>) -> bool {
    exists|n: usize, now: u64, r: Result<Vec<i32>, DrawError>|
        r is Ok && #[trigger] draw_outcome(pre, n, now, post, r)
}

/// The step from `logs[k]` to the log after it is a draw that succeeded.
pub open spec fn draw_step(logs: Seq<Seq<DrawnNumber>>, k: int) -> bool {
    successful_draw(logs[k], logs[k + 1])
}

/// `logs` are the logs that a store went through in a run of draws that all
/// succeeded, the log before the first draw coming first.
pub open spec fn successive_draws(logs: Seq<Seq<DrawnNumber>>) -> bool {
    forall|k: int| 0 <= k < logs.len() - 1 ==> #[trigger] draw_step(logs, k)
}

/// However many draws succeed in a row on a valid game, and an empty store
/// is one, the log never holds a number twice nor a number outside 1 to 90.
pub proof fn lemma_successive_draws_stay_valid(logs: Seq<Seq<DrawnNumber>>, k: int)
    requires
        successive_draws(logs),
        0 <= k < logs.len(),
        valid_game(values_of(logs[0])),
    ensures
        valid_game(values_of(logs[k])),
    decreases k,
{
    if k > 0 {
        lemma_successive_draws_stay_valid(logs, k - 1);
        assert(draw_step(logs, k - 1));
        let (n, now, r) = choose|n: usize, now: u64, r: Result<Vec<i32>, DrawError>|
            r is Ok && #[trigger] draw_outcome(logs[k - 1], n, now, logs[k], r);
        lemma_draw_keeps_game_valid(logs[k - 1], n, now, logs[k], r);
    }
}

/// Two draws on one store run one after the other, since each holds the
/// store exclusively. When the two counts together do not exceed what is left
/// of a valid game, the second finds enough numbers left by the first: the
/// log holds no number twice after both, and where the id sequence has room
/// for both, both succeed.
pub proof fn lemma_draws_in_turn(
    start: Seq<DrawnNumber>,
    n1: usize,
    now1: u64,
    between: Seq<DrawnNumber>,
    r1: Result<Vec<i32>, DrawError>,
    n2: usize,
    now2: u64,
    end: Seq<DrawnNumber>,
    r2: Result<Vec<i32>, DrawError>,
)
    requires
        valid_game(values_of(start)),
        draw_outcome(start, n1, now1, between, r1),
        draw_outcome(between, n2, now2, end, r2),
        n1 + n2 <= LAST_NUMBER - start.len(),
    ensures
        valid_game(values_of(end)),
        !(r1 is Err && r1->Err_0 is PoolExhausted),
        !(r2 is Err && r2->Err_0 is PoolExhausted),
        n1 > 0 && n2 > 0 && n1 + n2 <= id_room(start) ==> r1 is Ok && r2 is Ok && end.len()
            == start.len() + n1 + n2,
{
    lemma_draw_keeps_game_valid(start, n1, now1, between, r1);
    lemma_draw_keeps_game_valid(between, n2, now2, end, r2);
    lemma_pool_size(values_of(start));
    lemma_pool_size(values_of(between));
    if n1 > 0 {
        let picks = choose|picks: Seq<i32>| drew(start, n1, now1, between, r1, picks);
        let k = admitted(start, n1 as nat);
        assert(between.len() == start.len() + k);
        if n1 + n2 <= id_room(start) {
            assert(picks.take(k as int) == picks);
            lemma_next_id_extended(start, picks, now1);
        }
    }
    if n1 > 0 && n2 > 0 && n1 + n2 <= id_room(start) {
        lemma_successful_draw_adds_n(start, n1, now1, between, r1);
        lemma_successful_draw_adds_n(between, n2, now2, end, r2);
    }
}

} // verus!
