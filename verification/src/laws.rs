//! What holds of every game.

use vstd::prelude::*;
use crate::ball::{balls_wf, lemma_launched_wf, lemma_moved_wf, Ball, BALL_SPEED};
use crate::block::{all_standing, blocks_wf, Block};
use crate::collision::{lemma_deflected_unit, lemma_pushed_out_wf};
use crate::fixed::{lemma_travel_zero_time, UNIT};
use crate::input::Input;
use crate::layout::is_layout;
use crate::model::{
    ball_turn, in_play, off_paddle, standing, strike_block, strike_blocks, sweep_balls, Chance,
    Game, GameState, Strike, Sweep, GRID_HEIGHT, GRID_WIDTH,
};
use crate::player::{lemma_paddle_deflected_unit, Player, PLAYER_SPEED};
use crate::rect::Rect;
use crate::vec2::{all_in_reach, lemma_unit_components};
use crate::viewport::Viewport;

verus! {

/// The ball has come to rest in the game: no edge of the play area has yet
/// to turn it back, it overlaps neither the paddle nor any block, and it
/// has not fallen below the line.
pub open spec fn ball_at_rest(ball: Ball, game: Game) -> bool {
    &&& ball.moved(0, game.viewport) == ball
    &&& !ball.rect.overlaps(game.player.rect)
    &&& forall|j: int|
        0 <= j < game.blocks.len() ==> !ball.rect.overlaps((#[trigger] game.blocks[j]).rect)
    &&& in_play(game.viewport)(ball)
}

/// Every ball of the game has come to rest.
pub open spec fn at_rest(game: Game) -> bool {
    forall|i: int| 0 <= i < game.balls.len() ==> ball_at_rest(#[trigger] game.balls[i], game)
}

/// Filtering takes nothing from a sequence of which every item passes.
pub proof fn lemma_filter_keeps_all<A>(s: Seq<A>, pred: spec_fn(A) -> bool)
    requires
        forall|i: int| 0 <= i < s.len() ==> pred(#[trigger] s[i]),
    ensures
        s.filter(pred) == s,
    decreases s.len(),
{
    reveal(Seq::filter);
    if s.len() > 0 {
        lemma_filter_keeps_all(s.drop_last(), pred);
        assert(s.drop_last().push(s.last()) == s);
    }
}

/// A ball that overlaps none of the blocks passes them without a trace.
pub proof fn lemma_strike_misses(s: Strike, n: nat)
    requires
        n <= s.blocks.len(),
        forall|j: int| 0 <= j < s.blocks.len() ==> !s.ball.rect.overlaps((#[trigger] s.blocks[j]).rect),
    ensures
        strike_blocks(s, n) == s,
    decreases n,
{
    if n > 0 {
        lemma_strike_misses(s, (n - 1) as nat);
        assert(!s.ball.rect.overlaps(s.blocks[n - 1].rect));
    }
}

/// Balls at rest take their turns in a frame of no duration without a trace.
pub proof fn lemma_sweep_at_rest(game: Game, n: nat)
    requires
        at_rest(game),
        n <= game.balls.len(),
    ensures
        sweep_balls(
            Sweep { balls: game.balls, blocks: game.blocks, queued: Seq::empty() },
            game.player.rect,
            0,
            game.viewport,
            n,
        ) == (Sweep { balls: game.balls, blocks: game.blocks, queued: Seq::empty() }),
    decreases n,
{
    if n > 0 {
        lemma_sweep_at_rest(game, (n - 1) as nat);
        let ball = game.balls[n - 1];
        assert(ball_at_rest(ball, game));
        let s = Strike { ball, blocks: game.blocks, queued: Seq::empty() };
        assert(off_paddle(ball.moved(0, game.viewport), game.player.rect) == ball);
        lemma_strike_misses(s, game.blocks.len());
        assert(ball_turn(ball, game.blocks, Seq::empty(), game.player.rect, 0, game.viewport) == s);
        assert(game.balls.update(n - 1, ball) == game.balls);
    }
}

/// Moving for no time leaves a ball where it is.
pub proof fn lemma_moved_in_no_time(ball: Ball, view: Viewport)
    requires
        ball.rect.wf(),
    ensures
        ball.moved(0, view).rect == ball.rect,
{
    lemma_travel_zero_time(ball.vel.x as int, BALL_SPEED as int);
    lemma_travel_zero_time(ball.vel.y as int, BALL_SPEED as int);
}

/// In a frame of no duration in which the player does nothing, the paddle
/// stays where it is.
pub proof fn lemma_idle_paddle_rests(player: Player, input: Input, view: Viewport)
    requires
        view.wf(),
        player.wf(view),
        !input.move_left,
        !input.move_right,
    ensures
        player.moved(0, input, view) == player,
{
    lemma_travel_zero_time(Player::heading(input), PLAYER_SPEED as int);
}

/// A frame of no duration in which the player does nothing leaves a game
/// as it is: always while the game is not on, and while it is on where
/// every ball has come to rest.
pub proof fn lemma_still_frame(game: Game, input: Input, next: Game)
    requires
        game.wf(),
        input.is_idle(),
        game.state == GameState::Playing ==> at_rest(game),
        game.leads_to(0, input, next),
    ensures
        next == game,
{
    let chance = choose|chance: Chance|
        game.chance_fits(0, input, chance) && next == #[trigger] game.frame(0, input, chance);
    if game.state == GameState::Playing {
        assert(game.prepared(input, chance) == game);
        lemma_idle_paddle_rests(game.player, input, game.viewport);
        let moved = Game { player: game.player.moved(0, input, game.viewport), ..game };
        assert(moved == game);
        lemma_sweep_at_rest(game, game.balls.len());
        let sweep = game.swept(0);
        assert(chance.spawned.len() == 0);
        assert(sweep.balls + chance.spawned == game.balls);
        lemma_filter_keeps_all(game.blocks, standing());
        assert forall|i: int| 0 <= i < game.balls.len() implies in_play(game.viewport)(
            #[trigger] game.balls[i],
        ) by {
            assert(ball_at_rest(game.balls[i], game));
        }
        lemma_filter_keeps_all(game.balls, in_play(game.viewport));
        let grown = Game {
            balls: sweep.balls + chance.spawned,
            blocks: sweep.blocks.filter(standing()),
            ..moved
        };
        assert(grown == game);
        assert(grown.without_lost_balls() == game);
    }
}

/// Filtering leaves only items of the sequence, and only those that pass.
pub proof fn lemma_filter_keeps<A>(s: Seq<A>, pred: spec_fn(A) -> bool, holds: spec_fn(A) -> bool)
    requires
        forall|i: int| 0 <= i < s.len() ==> holds(#[trigger] s[i]),
    ensures
        forall|i: int|
            0 <= i < s.filter(pred).len() ==> holds(#[trigger] s.filter(pred)[i]) && pred(
                s.filter(pred)[i],
            ),
    decreases s.len(),
{
    reveal(Seq::filter);
    if s.len() > 0 {
        lemma_filter_keeps(s.drop_last(), pred, holds);
        let shorter = s.drop_last().filter(pred);
        assert forall|i: int| 0 <= i < s.filter(pred).len() implies holds(
            #[trigger] s.filter(pred)[i],
        ) && pred(s.filter(pred)[i]) by {
            if i < shorter.len() {
                assert(holds(shorter[i]) && pred(shorter[i]));
            } else {
                assert(holds(s.last()));
            }
        }
    }
}

/// A ball on its way through the blocks: everything is well-formed.
pub open spec fn strike_wf(s: Strike) -> bool {
    &&& s.ball.wf()
    &&& blocks_wf(s.blocks)
    &&& all_in_reach(s.queued)
}

/// Meeting a block leaves the ball and the blocks well-formed.
pub proof fn lemma_strike_block_wf(s: Strike, j: int)
    requires
        strike_wf(s),
        0 <= j < s.blocks.len(),
    ensures
        strike_wf(strike_block(s, j)),
        strike_block(s, j).blocks.len() == s.blocks.len(),
{
    let block = s.blocks[j];
    assert(block.wf());
    lemma_unit_components(s.ball.vel);
    lemma_pushed_out_wf(s.ball.rect, block.rect);
    lemma_deflected_unit(s.ball.vel, s.ball.rect, block.rect);
    let after = strike_block(s, j);
    assert forall|k: int| 0 <= k < after.blocks.len() implies (#[trigger] after.blocks[k]).wf() by {
        if k != j {
            assert(s.blocks[k].wf());
        }
    }
    assert forall|k: int| 0 <= k < after.queued.len() implies (#[trigger] after.queued[k]).in_reach() by {
        if k < s.queued.len() {
            assert(s.queued[k].in_reach());
        }
    }
}

/// Meeting the blocks leaves the ball and the blocks well-formed.
pub proof fn lemma_strike_blocks_wf(s: Strike, n: nat)
    requires
        strike_wf(s),
        n <= s.blocks.len(),
    ensures
        strike_wf(strike_blocks(s, n)),
        strike_blocks(s, n).blocks.len() == s.blocks.len(),
    decreases n,
{
    if n > 0 {
        lemma_strike_blocks_wf(s, (n - 1) as nat);
        lemma_strike_block_wf(strike_blocks(s, (n - 1) as nat), n - 1);
    }
}

/// The turns of the balls leave balls and blocks well-formed.
pub proof fn lemma_sweep_wf(s: Sweep, paddle: Rect, dt: int, view: Viewport, n: nat)
    requires
        balls_wf(s.balls),
        blocks_wf(s.blocks),
        all_in_reach(s.queued),
        paddle.wf(),
        n <= s.balls.len(),
    ensures
        balls_wf(sweep_balls(s, paddle, dt, view, n).balls),
        blocks_wf(sweep_balls(s, paddle, dt, view, n).blocks),
        all_in_reach(sweep_balls(s, paddle, dt, view, n).queued),
        sweep_balls(s, paddle, dt, view, n).balls.len() == s.balls.len(),
    decreases n,
{
    if n > 0 {
        lemma_sweep_wf(s, paddle, dt, view, (n - 1) as nat);
        let before = sweep_balls(s, paddle, dt, view, (n - 1) as nat);
        let ball = before.balls[n - 1];
        assert(ball.wf());
        lemma_moved_wf(ball, dt, view);
        let moved = ball.moved(dt, view);
        lemma_pushed_out_wf(moved.rect, paddle);
        lemma_paddle_deflected_unit(moved.vel, moved.rect, paddle);
        let start = Strike {
            ball: off_paddle(moved, paddle),
            blocks: before.blocks,
            queued: before.queued,
        };
        lemma_strike_blocks_wf(start, before.blocks.len());
        let after = sweep_balls(s, paddle, dt, view, n);
        assert forall|k: int| 0 <= k < after.balls.len() implies (#[trigger] after.balls[k]).wf() by {
            if k != n - 1 {
                assert(before.balls[k].wf());
            }
        }
    }
}

/// The blocks of the grid with which a game starts are well-formed and
/// not destroyed.
pub proof fn lemma_layout_wf(blocks: Seq<Block>, view: Viewport)
    requires
        view.wf(),
        is_layout(blocks, GRID_WIDTH as int, GRID_HEIGHT as int, view),
    ensures
        blocks.len() == GRID_WIDTH * GRID_HEIGHT,
        blocks_wf(blocks),
        all_standing(blocks),
{
    assert forall|j: int| 0 <= j < blocks.len() implies (#[trigger] blocks[j]).wf()
        && blocks[j].standing() by {
        assert(blocks.len() == 36);
        assert(0 <= j / 6 < 6 && 0 <= j % 6 < 6);
    }
}

/// Whatever a frame makes of a game that is as a game is between two
/// frames is such a game again: everything has its size and lies within
/// the coordinate limit, the paddle lies within the play area, every ball
/// moves in a direction of unit length, no block is destroyed, and a game
/// that is on has a life and a block left.
pub proof fn lemma_frame_keeps_wf(game: Game, dt: int, input: Input, next: Game)
    requires
        game.wf(),
        game.leads_to(dt, input, next),
    ensures
        next.wf(),
{
    let chance = choose|chance: Chance|
        game.chance_fits(dt, input, chance) && next == #[trigger] game.frame(dt, input, chance);
    let view = game.viewport;
    if game.lays_out(input) {
        lemma_layout_wf(chance.laid, view);
    }
    let prepared = game.prepared(input, chance);
    if game.state == GameState::Playing {
        if input.launch_pressed {
            let heading = choose|heading: int|
                -UNIT <= heading <= UNIT && chance.launched
                    == #[trigger] Ball::launched(game.launch_point(), heading);
            lemma_launched_wf(game.launch_point(), heading);
            assert forall|i: int| 0 <= i < prepared.balls.len() implies (
            #[trigger] prepared.balls[i]).wf() by {
                if i < game.balls.len() {
                    assert(game.balls[i].wf());
                }
            }
        }
        assert(prepared.wf());
        let moved = Game { player: prepared.player.moved(dt, input, view), ..prepared };
        let start = Sweep { balls: moved.balls, blocks: moved.blocks, queued: Seq::empty() };
        lemma_sweep_wf(start, moved.player.rect, dt, view, moved.balls.len());
        let sweep = moved.swept(dt);
        assert forall|k: int| 0 <= k < chance.spawned.len() implies (
        #[trigger] chance.spawned[k]).wf() by {
            assert(chance.spawned[k].is_launched_at(sweep.queued[k]));
            assert(sweep.queued[k].in_reach());
            let heading = choose|heading: int|
                -UNIT <= heading <= UNIT && chance.spawned[k]
                    == #[trigger] Ball::launched(sweep.queued[k], heading);
            lemma_launched_wf(sweep.queued[k], heading);
        }
        let all = sweep.balls + chance.spawned;
        assert forall|i: int| 0 <= i < all.len() implies (|b: Ball| b.wf())(#[trigger] all[i]) by {
            if i < sweep.balls.len() {
                assert(sweep.balls[i].wf());
            } else {
                assert(chance.spawned[i - sweep.balls.len()].wf());
            }
        }
        lemma_filter_keeps(all, in_play(view), |b: Ball| b.wf());
        assert forall|j: int| 0 <= j < sweep.blocks.len() implies (|b: Block| b.wf())(
            #[trigger] sweep.blocks[j],
        ) by {
            assert(sweep.blocks[j].wf());
        }
        lemma_filter_keeps(sweep.blocks, standing(), |b: Block| b.wf());
        let grown = Game {
            balls: all,
            blocks: sweep.blocks.filter(standing()),
            ..moved
        };
        assert(next == grown.without_lost_balls().judged());
        assert forall|i: int| 0 <= i < next.balls.len() implies (#[trigger] next.balls[i]).wf() by {
            assert((|b: Ball| b.wf())(all.filter(in_play(view))[i]));
        }
        assert forall|j: int| 0 <= j < next.blocks.len() implies (#[trigger] next.blocks[j]).wf()
            && next.blocks[j].standing() by {
            assert((|b: Block| b.wf())(sweep.blocks.filter(standing())[j]));
            assert(standing()(sweep.blocks.filter(standing())[j]));
        }
    }
}

} // verus!
