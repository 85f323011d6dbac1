use vstd::prelude::*;

use crate::lcg::{lcg_output, lcg_step, Lcg};

verus! {

/// Width of the playfield, in columns.
pub const WIDTH: usize = 56;

/// Height of the playfield, in rows.
pub const HEIGHT: usize = 18;

/// The row the dragon stands on; obstacles grow upwards from it.
pub const GROUND_ROW: usize = 15;

/// The column the dragon occupies.
pub const PLAYER_X: usize = 8;

/// Number of jumps allowed before the dragon lands again.
pub const MAX_JUMPS: u8 = 2;

/// Smallest draw that counts as reaching 45 percent of the draw range, when the
/// draw is read as a single-precision fraction of `u32::MAX`.
pub const ROLL_45_PERCENT: u32 = 1932735168;

/// Smallest draw that counts as reaching 90 percent of the draw range.
pub const ROLL_90_PERCENT: u32 = 3865470336;

/// Smallest draw that counts as reaching 30 percent of the draw range.
pub const ROLL_30_PERCENT: u32 = 1288490176;

/// Smallest draw that counts as reaching 70 percent of the draw range.
pub const ROLL_70_PERCENT: u32 = 3006476929;

/// Smallest draw that counts as reaching 95 percent of the draw range.
pub const ROLL_95_PERCENT: u32 = 4080218753;

/// Smallest draw that counts as reaching 25 percent of the draw range.
pub const ROLL_25_PERCENT: u32 = 1073741792;

/// Smallest draw that counts as reaching 60 percent of the draw range.
pub const ROLL_60_PERCENT: u32 = 2576980352;

/// Height of a new obstacle for the current score and one 32-bit draw.
/// Up to score 5 heights 1 to 3 appear (45, 45 and 10 percent); from 6 to 14
/// heights 1 to 4 (30, 40, 25, 5 percent); from 15 on (25, 35, 30, 10 percent).
pub open spec fn height_for_roll(score: u32, roll: u32) -> usize {
    if score <= 5 {
        if roll < ROLL_45_PERCENT {
            1
        } else if roll < ROLL_90_PERCENT {
            2
        } else {
            3
        }
    } else if score <= 14 {
        if roll < ROLL_30_PERCENT {
            1
        } else if roll < ROLL_70_PERCENT {
            2
        } else if roll < ROLL_95_PERCENT {
            3
        } else {
            4
        }
    } else {
        if roll < ROLL_25_PERCENT {
            1
        } else if roll < ROLL_60_PERCENT {
            2
        } else if roll < ROLL_90_PERCENT {
            3
        } else {
            4
        }
    }
}

/// Height of a new obstacle for the current score, given the generator's draw.
pub fn obstacle_height_for_roll(score: u32, roll: u32) -> (height: usize)
    ensures
        height == height_for_roll(score, roll),
{
    if score <= 5 {
        if roll < ROLL_45_PERCENT {
            1
        } else if roll < ROLL_90_PERCENT {
            2
        } else {
            3
        }
    } else if score <= 14 {
        if roll < ROLL_30_PERCENT {
            1
        } else if roll < ROLL_70_PERCENT {
            2
        } else if roll < ROLL_95_PERCENT {
            3
        } else {
            4
        }
    } else {
        if roll < ROLL_25_PERCENT {
            1
        } else if roll < ROLL_60_PERCENT {
            2
        } else if roll < ROLL_90_PERCENT {
            3
        } else {
            4
        }
    }
}

/// Draws once from `rng` and picks the height of a new obstacle for `score`.
pub fn obstacle_height_for_score(rng: &mut Lcg, score: u32) -> (height: usize)
    ensures
        final(rng)@ == lcg_step(old(rng)@),
        height == height_for_roll(score, lcg_output(final(rng)@)),
{
    let roll = rng.next_u32();
    obstacle_height_for_roll(score, roll)
}

/// Every obstacle is between one and four rows tall, and up to score 5 at most three.
pub proof fn lemma_height_bounds(score: u32, roll: u32)
    ensures
        1 <= height_for_roll(score, roll) <= 4,
        score <= 5 ==> height_for_roll(score, roll) <= 3,
{
}

/// The draw thresholds, as numbers: up to score 5 a draw below 1932735168
/// gives 1 row and from 3865470336 on 3 rows; from 6 to 14 the steps are at
/// 1288490176, 3006476929 and 4080218753; from 15 on at 1073741792,
/// 2576980352 and 3865470336.
pub proof fn lemma_height_thresholds(score: u32, roll: u32)
    ensures
        score <= 5 ==> ((height_for_roll(score, roll) == 1) <==> roll < 1932735168u32),
        score <= 5 ==> ((height_for_roll(score, roll) <= 2) <==> roll < 3865470336u32),
        score <= 5 ==> height_for_roll(score, roll) <= 3,
        6 <= score <= 14 ==> ((height_for_roll(score, roll) == 1) <==> roll < 1288490176u32),
        6 <= score <= 14 ==> ((height_for_roll(score, roll) <= 2) <==> roll < 3006476929u32),
        6 <= score <= 14 ==> ((height_for_roll(score, roll) <= 3) <==> roll < 4080218753u32),
        score >= 15 ==> ((height_for_roll(score, roll) == 1) <==> roll < 1073741792u32),
        score >= 15 ==> ((height_for_roll(score, roll) <= 2) <==> roll < 2576980352u32),
        score >= 15 ==> ((height_for_roll(score, roll) <= 3) <==> roll < 3865470336u32),
        height_for_roll(score, roll) >= 1,
        height_for_roll(score, roll) <= 4,
{
}

/// A larger draw never gives a lower obstacle.
pub proof fn lemma_height_monotone_in_roll(score: u32, low: u32, high: u32)
    requires
        low <= high,
    ensures
        height_for_roll(score, low) <= height_for_roll(score, high),
{
}

/// For the same draw, a higher score never gives a lower obstacle.
pub proof fn lemma_height_monotone_in_score(low: u32, high: u32, roll: u32)
    requires
        low <= high,
    ensures
        height_for_roll(low, roll) <= height_for_roll(high, roll),
{
}

/// Topmost row covered by an obstacle of `height`: the ground row minus one
/// row for every row above the first, but never above row 0. A height of 0
/// gives the ground row.
pub open spec fn top_row(height: usize) -> usize {
    if height == 0 {
        GROUND_ROW
    } else if height - 1 >= GROUND_ROW {
        0
    } else {
        (GROUND_ROW - (height - 1)) as usize
    }
}

/// Topmost row covered by an obstacle of `height`.
pub fn obstacle_top(height: usize) -> (top: usize)
    ensures
        top == top_row(height),
{
    GROUND_ROW.saturating_sub(height.saturating_sub(1))
}

/// Where an obstacle stands in one frame: its screen column and its height.
#[derive(Clone, Copy, Debug, PartialEq, Eq)]
pub struct ObstacleCell {
    pub col: isize,
    pub height: usize,
}

/// The obstacle stands in the dragon's column and the dragon's row is at or
/// below the obstacle's top.
pub open spec fn hits_dragon(obstacle: ObstacleCell, dragon_row: usize) -> bool {
    obstacle.col == PLAYER_X as isize && dragon_row >= top_row(obstacle.height)
}

/// Whether any obstacle hits the dragon standing at `dragon_row` in column `PLAYER_X`.
pub fn dragon_collides(obstacles: &Vec<ObstacleCell>, dragon_row: usize) -> (hit: bool)
    ensures
        hit <==> exists|i: int| 0 <= i < obstacles@.len() && hits_dragon(#[trigger] obstacles@[i], dragon_row),
{
    let dragon_col = PLAYER_X as isize;
    let mut i: usize = 0;
    while i < obstacles.len()
        invariant
            i <= obstacles@.len(),
            dragon_col == PLAYER_X as isize,
            forall|j: int| 0 <= j < i ==> !hits_dragon(#[trigger] obstacles@[j], dragon_row),
        decreases obstacles@.len() - i,
    {
        let obstacle_top = obstacle_top(obstacles[i].height);
        if obstacles[i].col == dragon_col && dragon_row >= obstacle_top {
            assert(hits_dragon(obstacles@[i as int], dragon_row));
            return true;
        }
        i = i + 1;
    }
    false
}

/// Score bookkeeping of one obstacle in one frame: `crossed` says whether the
/// obstacle is now left of the dragon. An obstacle that was not yet passed
/// and has crossed becomes passed and adds one to the score.
pub open spec fn pass_result(passed: bool, crossed: bool, score: u32) -> (bool, int) {
    if !passed && crossed {
        (true, score + 1)
    } else {
        (passed, score as int)
    }
}

/// Marks an obstacle as passed once it has crossed the dragon's column, and
/// counts it then, only once.
pub fn register_pass(passed: bool, crossed: bool, score: u32) -> (result: (bool, u32))
    requires
        !passed && crossed ==> score < u32::MAX,
    ensures
        result.0 == pass_result(passed, crossed, score).0,
        result.1 == pass_result(passed, crossed, score).1,
{
    if !passed && crossed {
        (true, score + 1)
    } else {
        (passed, score)
    }
}

/// An obstacle is counted at most once: once it is marked passed, later frames
/// leave both the mark and the score unchanged, whatever they report.
pub proof fn lemma_pass_counted_once(passed: bool, crossed: bool, score: u32, later: bool)
    requires
        !passed && crossed ==> score < u32::MAX,
    ensures
        ({
            let first = pass_result(passed, crossed, score);
            first.0 ==> pass_result(first.0, later, first.1 as u32) == (first.0, first.1)
        }),
        pass_result(passed, crossed, score).1 - score <= 1,
        pass_result(passed, crossed, score).1 >= score,
        passed ==> pass_result(passed, crossed, score).0,
{
}

/// Obstacle tops: an obstacle of height `h` between 1 and 16 reaches up to
/// row `16 - h`, that is `GROUND_ROW + 1 - h`; taller ones reach row 0, and
/// height 0 counts as the ground row.
pub proof fn lemma_top_row_values(height: usize)
    ensures
        1 <= height <= GROUND_ROW + 1 ==> top_row(height) + height == GROUND_ROW + 1,
        height > GROUND_ROW + 1 ==> top_row(height) == 0,
        height == 0 ==> top_row(height) == GROUND_ROW,
{
}

/// The dragon collides with an obstacle exactly when the obstacle stands in
/// the dragon's column `PLAYER_X` and the dragon's row is at least
/// `GROUND_ROW + 1 - h` for an obstacle `h` rows tall (1 to 16 rows); an
/// obstacle taller than that hits it in every row; one in another column
/// never does.
pub proof fn lemma_collision_rows(obstacle: ObstacleCell, dragon_row: usize)
    ensures
        obstacle.col != PLAYER_X as isize ==> !hits_dragon(obstacle, dragon_row),
        obstacle.col == PLAYER_X as isize && 1 <= obstacle.height <= GROUND_ROW + 1 ==> (
        hits_dragon(obstacle, dragon_row) <==> dragon_row + obstacle.height >= GROUND_ROW + 1),
        obstacle.col == PLAYER_X as isize && obstacle.height > GROUND_ROW + 1 ==> hits_dragon(
            obstacle,
            dragon_row,
        ),
        obstacle.col == PLAYER_X as isize && obstacle.height == 0 ==> (hits_dragon(
            obstacle,
            dragon_row,
        ) <==> dragon_row >= GROUND_ROW),
{
}

/// One frame of scoring: the obstacle ends up passed exactly when it was
/// passed before or crosses now, and the score grows by one exactly when a
/// not yet passed obstacle crosses, and otherwise stays.
pub proof fn lemma_pass_frame(passed: bool, crossed: bool, score: u32)
    ensures
        pass_result(passed, crossed, score).0 == (passed || crossed),
        !passed && crossed ==> pass_result(passed, crossed, score).1 == score + 1,
        !(!passed && crossed) ==> pass_result(passed, crossed, score).1 == score,
{
}

/// Crossing in two successive frames, from not yet passed, adds exactly one
/// point and leaves the obstacle passed.
pub proof fn lemma_crossing_twice_scores_once(score: u32)
    requires
        score < u32::MAX,
    ensures
        pass_result(false, true, score) == (true, score + 1),
        ({
            let first = pass_result(false, true, score);
            pass_result(first.0, true, first.1 as u32) == (true, score + 1)
        }),
{
}

} // verus!
