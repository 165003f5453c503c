use vstd::prelude::*;

use crate::direction::Direction;
use crate::game::{
    lemma_step_keeps_wf, next_cell, next_heading, step_spec, EndReason, GameView, Status, GROWTH,
};
use crate::input::{polled, Input};

verus! {

/// The game after the given commands, one step each.
pub open spec fn run_steps(g: GameView, inputs: Seq<Option<Input>>) -> GameView
    decreases inputs.len(),
{
    if inputs.len() == 0 {
        g
    } else {
        step_spec(run_steps(g, inputs.drop_last()), inputs.last()).0
    }
}

proof fn lemma_run_keeps_wf(g: GameView, inputs: Seq<Option<Input>>)
    requires
        g.wf(),
    ensures
        run_steps(g, inputs).wf(),
    decreases inputs.len(),
{
    if inputs.len() > 0 {
        lemma_run_keeps_wf(g, inputs.drop_last());
        lemma_step_keeps_wf(run_steps(g, inputs.drop_last()), inputs.last());
    }
}

/// Whatever commands a game is given, after every step its body is no
/// longer than its target length.
pub proof fn lemma_length_within_target(g: GameView, inputs: Seq<Option<Input>>)
    requires
        g.wf(),
    ensures
        forall|n: int|
            0 <= n <= inputs.len() ==> #[trigger] run_steps(g, inputs.take(n)).body.len()
                <= run_steps(g, inputs.take(n)).target_length,
{
    assert forall|n: int| 0 <= n <= inputs.len() implies #[trigger] run_steps(
        g,
        inputs.take(n),
    ).body.len() <= run_steps(g, inputs.take(n)).target_length by {
        lemma_run_keeps_wf(g, inputs.take(n));
    }
}

/// Asking for the reverse of the heading leaves the heading as it is.
pub proof fn lemma_reversal_ignored(g: GameView, d: Direction)
    requires
        d == g.heading.reversed(),
    ensures
        step_spec(g, Some(Input::D(d))).0.heading == g.heading,
{
}

/// Eating the apple scores one point and grows the target length by
/// `GROWTH`. The apple is gone until `Game::tick` places the next one, on a
/// free cell of the game as it is after the step, so off the new body.
pub proof fn lemma_eating_apple(g: GameView, input: Option<Input>)
    requires
        g.wf(),
        step_spec(g, input).1 is Running,
        g.apple == Some(step_spec(g, input).0.head()),
    ensures
        step_spec(g, input).0.score == g.score + 1,
        step_spec(g, input).0.target_length == g.target_length + GROWTH,
        step_spec(g, input).0.apple is None,
{
    lemma_step_keeps_wf(g, input);
}

/// Whether a step from `p` in direction `d` leaves a `width` by `height`
/// board.
pub open spec fn leaves_board(p: (u32, u32), d: Direction, width: u32, height: u32) -> bool {
    match d {
        Direction::Up => p.0 == 0,
        Direction::Down => p.0 + 1 == height,
        Direction::Left => p.1 == 0,
        Direction::Right => p.1 + 1 == width,
    }
}

/// From a cell on the edge, a step off the board ends the game by wall
/// collision: the snake is neither held at the edge nor wrapped round.
pub proof fn lemma_wall_ends_game(g: GameView, input: Option<Input>)
    requires
        g.wf(),
        !(input matches Some(Input::Quit)),
        leaves_board(g.head(), next_heading(g.heading, input), g.width, g.height),
    ensures
        step_spec(g, input) == (g, Status::Terminated(EndReason::WallCollision)),
{
}

/// Moving the head onto a segment that stays ends the game by self
/// collision. Every segment stays but the oldest of a body at its target
/// length, which moves on in the same tick.
pub proof fn lemma_self_collision(g: GameView, input: Option<Input>, i: int)
    requires
        g.wf(),
        !(input matches Some(Input::Quit)),
        0 <= i < g.body.len(),
        next_cell(g.head(), next_heading(g.heading, input), g.width, g.height) == Some(g.body[i]),
        !(i == 0 && g.body.len() >= g.target_length),
    ensures
        step_spec(g, input) == (g, Status::Terminated(EndReason::SelfCollision)),
{
    let head = g.body[i];
    crate::game::lemma_kept_segments(g, head);
    let start: int = if g.body.len() >= g.target_length { 1 } else { 0 };
    let kept = g.body.subrange(start, g.body.len() as int);
    assert(kept[i - start] == head);
}

/// Polling an empty channel, any number of times, never changes the
/// heading.
pub proof fn lemma_empty_polls_keep_heading(g: GameView, n: nat)
    ensures
        run_steps(g, Seq::new(n, |i: int| polled(Seq::<Input>::empty()))).heading == g.heading,
    decreases n,
{
    let inputs = Seq::new(n, |i: int| polled(Seq::<Input>::empty()));
    assert(polled(Seq::<Input>::empty()) is None);
    if n > 0 {
        lemma_empty_polls_keep_heading(g, (n - 1) as nat);
        assert(inputs.drop_last() =~= Seq::new((n - 1) as nat, |i: int| polled(Seq::<Input>::empty())));
    }
}

} // verus!
