//! What holds of every run of the game.
//!
//! A run is a new game followed by a sequence of events: key presses, and
//! ticks that each carry the cell on which food reappears if the snake eats
//! on that tick.
use vstd::prelude::*;
use crate::direction::Key;
use crate::grid::in_grid;
use crate::model::State;

verus! {

/// What can happen to a game.
pub enum Event {
    /// A key is pressed.
    Press(Key),
    /// Time advances by one tick; the cell is where the next food lies if the
    /// snake eats on this tick.
    Tick((int, int)),
}

impl State {
    /// The game after `event`.
    pub open spec fn apply(self, event: Event) -> State {
        match event {
            Event::Press(key) => self.press(key),
            Event::Tick(refill) => self.tick(refill),
        }
    }

    /// Whether `event` may happen to this game: a key may always be pressed,
    /// but time advances only while the game is in play, and food reappears
    /// on the grid.
    pub open spec fn admits(self, event: Event) -> bool {
        match event {
            Event::Press(_) => true,
            Event::Tick(refill) => !self.lost() && in_grid(refill, self.width, self.height),
        }
    }

    /// Whether `event` is a tick on which the snake eats.
    pub open spec fn eats_on(self, event: Event) -> bool {
        event is Tick && self.eats_next()
    }

    /// The game after `events`, in their order.
    pub open spec fn run(self, events: Seq<Event>) -> State
        decreases events.len(),
    {
        if events.len() == 0 {
            self
        } else {
            self.run(events.drop_last()).apply(events.last())
        }
    }

    /// Whether each of `events` may happen to the game that it meets.
    pub open spec fn admits_all(self, events: Seq<Event>) -> bool
        decreases events.len(),
    {
        if events.len() == 0 {
            true
        } else {
            self.admits_all(events.drop_last()) && self.run(events.drop_last()).admits(
                events.last(),
            )
        }
    }

    /// The number of ticks among `events` on which the snake eats.
    pub open spec fn meals(self, events: Seq<Event>) -> nat
        decreases events.len(),
    {
        if events.len() == 0 {
            0
        } else {
            let earlier = self.meals(events.drop_last());
            if self.run(events.drop_last()).eats_on(events.last()) {
                earlier + 1
            } else {
                earlier
            }
        }
    }

    /// Whatever happens to a snake with a body, it gains one segment and the
    /// game one point for each meal, and nothing else changes either.
    pub proof fn lemma_run_grows(self, events: Seq<Event>)
        requires
            self.snake.body.len() >= 1,
        ensures
            self.run(events).snake.body.len() == self.snake.body.len() + self.meals(events),
            self.run(events).score == self.score + self.meals(events),
        decreases events.len(),
    {
        if events.len() > 0 {
            self.lemma_run_grows(events.drop_last());
        }
    }

    /// Events that may happen keep the invariant.
    pub proof fn lemma_run_inv(self, events: Seq<Event>)
        requires
            self.inv(),
            self.admits_all(events),
        ensures
            self.run(events).inv(),
        decreases events.len(),
    {
        if events.len() > 0 {
            let before = self.run(events.drop_last());
            self.lemma_run_inv(events.drop_last());
            match events.last() {
                Event::Press(key) => before.lemma_press_inv(key),
                Event::Tick(refill) => before.lemma_tick_inv(refill),
            }
        }
    }

    /// A lost game stays lost: whatever may still happen to it moves neither
    /// the snake nor the food nor the score.
    pub proof fn lemma_lost_is_final(self, events: Seq<Event>)
        requires
            self.lost(),
            self.admits_all(events),
        ensures
            self.run(events).lost(),
            self.run(events).snake == self.snake,
            self.run(events).food == self.food,
            self.run(events).score == self.score,
        decreases events.len(),
    {
        if events.len() > 0 {
            self.lemma_lost_is_final(events.drop_last());
        }
    }
}

/// In every game, whatever has happened, the snake has a body.
pub proof fn lemma_body_never_empty(width: int, height: int, food: (int, int), events: Seq<Event>)
    ensures
        State::initial(width, height, food).run(events).snake.body.len() >= 1,
{
    State::initial(width, height, food).lemma_run_grows(events);
}

/// In every game in play, no two segments of the snake share a cell.
pub proof fn lemma_running_snake_never_overlaps(
    width: int,
    height: int,
    food: (int, int),
    events: Seq<Event>,
)
    requires
        0 < width,
        0 < height,
        in_grid(food, width, height),
        State::initial(width, height, food).admits_all(events),
    ensures
        !State::initial(width, height, food).run(events).lost() ==> State::initial(
            width,
            height,
            food,
        ).run(events).snake.body.no_duplicates(),
{
    State::lemma_initial_inv(width, height, food);
    State::initial(width, height, food).lemma_run_inv(events);
}

/// In every game, the snake is as long as its two first segments and its
/// meals together, and the score is the number of meals.
pub proof fn lemma_growth(width: int, height: int, food: (int, int), events: Seq<Event>)
    ensures
        State::initial(width, height, food).run(events).snake.body.len() == 2 + State::initial(
            width,
            height,
            food,
        ).meals(events),
        State::initial(width, height, food).run(events).score == State::initial(
            width,
            height,
            food,
        ).meals(events),
{
    State::initial(width, height, food).lemma_run_grows(events);
}

/// A tick on which the snake does not eat slides it along: the head enters
/// the next cell in the heading, every other segment takes the place of the
/// one before it, and the snake's length, the food and the score stay.
pub proof fn lemma_plain_tick_slides(state: State, refill: (int, int))
    requires
        state.snake.body.len() >= 1,
        !state.eats_next(),
    ensures
        state.tick(refill).snake.head() == state.snake.next_head(state.pending),
        state.tick(refill).snake.body.drop_first() == state.snake.body.drop_last(),
        state.tick(refill).snake.body.len() == state.snake.body.len(),
        state.tick(refill).food == state.food,
        state.tick(refill).score == state.score,
{
}

/// A tick on which the snake eats lengthens it: the head enters the cell of
/// the food, the whole old body follows, the score grows by one, and new
/// food lies at `refill`.
pub proof fn lemma_meal_grows(state: State, refill: (int, int))
    requires
        state.eats_next(),
    ensures
        state.tick(refill).snake.head() == state.food,
        state.tick(refill).snake.body.drop_first() == state.snake.body,
        state.tick(refill).snake.body.len() == state.snake.body.len() + 1,
        state.tick(refill).food == refill,
        state.tick(refill).score == state.score + 1,
{
}

/// Of two key presses between two ticks only the first accepted one counts:
/// once a press is accepted the next changes nothing, and the snake heads
/// where the accepted key asks after the tick.
pub proof fn lemma_first_accepted_press_wins(
    state: State,
    first: Key,
    second: Key,
    refill: (int, int),
)
    ensures
        state.accepts(first) ==> state.press(first).press(second) == state.press(first),
        state.accepts(first) ==> first.direction() == Some(
            state.press(first).press(second).tick(refill).snake.heading,
        ),
        !state.accepts(first) ==> state.press(first).press(second) == state.press(second),
        !state.accepts(first) && state.accepts(second) ==> second.direction() == Some(
            state.press(first).press(second).tick(refill).snake.heading,
        ),
{
}

/// A key that asks for the opposite of the snake's heading is never
/// accepted, whether or not a turn has been accepted since the last tick.
pub proof fn lemma_reverse_is_rejected(state: State, key: Key)
    requires
        key.direction() == Some(state.snake.heading.opposite()),
    ensures
        !state.accepts(key),
        state.press(key) == state,
{
}

/// The snake never turns back on itself: after a tick it does not head
/// opposite to where it headed before.
pub proof fn lemma_never_reverses(state: State, refill: (int, int))
    requires
        state.inv(),
    ensures
        state.tick(refill).snake.heading != state.snake.heading.opposite(),
{
}

} // verus!
