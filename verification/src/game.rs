//! The tick-driven simulation state: snake, food, and one-shot signals.

use vstd::prelude::*;

use crate::grid::ARENA_HEIGHT;
use crate::grid::ARENA_WIDTH;
use crate::grid::Direction;
use crate::grid::Position;
use crate::grid::in_bounds;
use crate::grid::spec_in_bounds;
use crate::grid::spec_next_position;
use crate::rng::random_below;

verus! {

/// Mathematical model of the whole simulation state.
#[verifier::ext_equal]
pub ghost struct GameModel {
    /// Body cells in chain order; index 0 is the head, the last is the tail.
    pub segments: Seq<Position>,
    /// Direction the head will move on the next movement step.
    pub direction: Direction,
    /// The cell vacated by the tail in the most recent movement step.
    pub last_tail: Option<Position>,
    /// Cells holding live food, in spawn order.
    pub foods: Seq<Position>,
    /// Growth signals raised this tick and not yet consumed.
    pub pending_growth: nat,
    /// Whether a terminal condition was raised this tick.
    pub pending_game_over: bool,
}

impl GameModel {
    /// The chain always has at least a head.
    pub open spec fn wf(self) -> bool {
        self.segments.len() >= 1
    }
}

/// The fixed cell where the head (and the one body segment) starts.
pub open spec fn spec_start_position() -> Position {
    Position { x: 3, y: 3 }
}

/// The startup configuration: head plus one body segment at the start cell,
/// facing up, no food, no recorded tail cell, no pending signals.
pub open spec fn initial_model() -> GameModel {
    GameModel {
        segments: seq![spec_start_position(), spec_start_position()],
        direction: Direction::Up,
        last_tail: None,
        foods: Seq::empty(),
        pending_growth: 0,
        pending_game_over: false,
    }
}

/// The simulation state, exclusively owned by the core and mutated only by
/// the phase operations below.
pub struct Game {
    /// Body cells in chain order; index 0 is the head, the last is the tail.
    pub segments: Vec<Position>,
    /// Direction the head will move on the next movement step.
    pub direction: Direction,
    /// The cell vacated by the tail in the most recent movement step.
    pub last_tail_position: Option<Position>,
    /// Cells holding live food, in spawn order.
    pub foods: Vec<Position>,
    /// Growth signals raised this tick and not yet consumed.
    pub pending_growth: usize,
    /// Whether a terminal condition was raised this tick.
    pub pending_game_over: bool,
}

impl View for Game {
    type V = GameModel;

    open spec fn view(&self) -> GameModel {
        GameModel {
            segments: self.segments@,
            direction: self.direction,
            last_tail: self.last_tail_position,
            foods: self.foods@,
            pending_growth: self.pending_growth as nat,
            pending_game_over: self.pending_game_over,
        }
    }
}

/// What `set_direction` does: the candidate is taken unless it is the exact
/// opposite of the current direction, in which case the state is unchanged.
pub open spec fn spec_set_direction(m: GameModel, requested: Direction) -> GameModel {
    if requested == m.direction.spec_opposite() {
        m
    } else {
        GameModel { direction: requested, ..m }
    }
}

/// What `advance` does: the head moves one cell in the current direction,
/// every later segment takes the pre-move cell of its predecessor, the
/// pre-move tail cell is recorded, and a game-over signal is raised when the
/// new head cell is off the arena or coincides with any pre-move segment
/// cell (the pre-move tail cell included).
pub open spec fn spec_advance(m: GameModel) -> GameModel {
    let new_head = spec_next_position(m.segments[0], m.direction);
    GameModel {
        segments: Seq::new(
            m.segments.len(),
            |i: int| if i == 0 { new_head } else { m.segments[i - 1] },
        ),
        last_tail: Some(m.segments.last()),
        pending_game_over: m.pending_game_over || !spec_in_bounds(new_head)
            || m.segments.contains(new_head),
        ..m
    }
}

/// How many entries of `s` equal `p`.
pub open spec fn count_eq(s: Seq<Position>, p: Position) -> nat
    decreases s.len(),
{
    if s.len() == 0 {
        0
    } else {
        count_eq(s.drop_last(), p) + (if s.last() == p {
            1nat
        } else {
            0nat
        })
    }
}

/// The entries of `s` not equal to `p`, in their original order.
pub open spec fn remove_eq(s: Seq<Position>, p: Position) -> Seq<Position>
    decreases s.len(),
{
    if s.len() == 0 {
        s
    } else if s.last() == p {
        remove_eq(s.drop_last(), p)
    } else {
        remove_eq(s.drop_last(), p).push(s.last())
    }
}

/// At most every entry of `s` equals `p`.
pub proof fn lemma_count_eq_le_len(s: Seq<Position>, p: Position)
    ensures
        count_eq(s, p) <= s.len(),
    decreases s.len(),
{
    if s.len() != 0 {
        lemma_count_eq_le_len(s.drop_last(), p);
    }
}

/// No entry equal to `p` survives `remove_eq`.
pub proof fn lemma_remove_eq_no_match(s: Seq<Position>, p: Position)
    ensures
        forall|j: int| 0 <= j < remove_eq(s, p).len() ==> remove_eq(s, p)[j] != p,
    decreases s.len(),
{
    if s.len() != 0 {
        lemma_remove_eq_no_match(s.drop_last(), p);
        if s.last() != p {
            let rec = remove_eq(s.drop_last(), p);
            assert forall|j: int| 0 <= j < remove_eq(s, p).len() implies remove_eq(s, p)[j]
                != p by {
                if j < rec.len() {
                    assert(remove_eq(s, p)[j] == rec[j]);
                } else {
                    assert(remove_eq(s, p)[j] == s.last());
                }
            }
        }
    }
}

/// What `check_eating` does: every live food at the head's cell is removed,
/// and one growth signal is raised for each such food.
pub open spec fn spec_check_eating(m: GameModel) -> GameModel {
    GameModel {
        foods: remove_eq(m.foods, m.segments[0]),
        pending_growth: m.pending_growth + count_eq(m.foods, m.segments[0]),
        ..m
    }
}

/// What `apply_growth` does: one tail segment is appended at the recorded
/// last-vacated cell for each pending growth signal, and the signals and the
/// recorded cell are consumed.  With no pending signal, a no-op.
pub open spec fn spec_apply_growth(m: GameModel) -> GameModel {
    if m.pending_growth == 0 {
        m
    } else {
        GameModel {
            segments: m.segments + Seq::new(
                m.pending_growth,
                |i: int| m.last_tail.unwrap(),
            ),
            last_tail: None,
            pending_growth: 0,
            ..m
        }
    }
}

/// What `handle_game_over` does: a pending game-over signal tears the whole
/// state down and rebuilds the startup configuration; without one, nothing
/// changes.
pub open spec fn spec_handle_game_over(m: GameModel) -> GameModel {
    if m.pending_game_over {
        initial_model()
    } else {
        m
    }
}

/// `remove_eq` drops exactly the entries that `count_eq` counts.
pub proof fn lemma_remove_eq_len(s: Seq<Position>, p: Position)
    ensures
        remove_eq(s, p).len() == s.len() - count_eq(s, p),
    decreases s.len(),
{
    lemma_count_eq_le_len(s, p);
    if s.len() != 0 {
        lemma_remove_eq_len(s.drop_last(), p);
    }
}

/// Eating exactly one food lying at the head's cell removes it, leaves no
/// food at the head's cell, and raises exactly one growth signal; applying
/// growth then appends exactly one tail segment, at the recorded
/// last-vacated cell, leaving every earlier segment in place.
pub proof fn lemma_eat_then_grow(m: GameModel)
    requires
        m.wf(),
        count_eq(m.foods, m.segments[0]) == 1,
        m.pending_growth == 0,
        m.last_tail is Some,
    ensures
        ({
            let eaten = spec_check_eating(m);
            let grown = spec_apply_growth(eaten);
            &&& eaten.pending_growth == 1
            &&& eaten.foods.len() == m.foods.len() - 1
            &&& forall|j: int| 0 <= j < eaten.foods.len() ==> eaten.foods[j] != m.segments[0]
            &&& grown.segments.len() == m.segments.len() + 1
            &&& grown.segments.subrange(0, m.segments.len() as int) == m.segments
            &&& grown.segments.last() == m.last_tail.unwrap()
            &&& grown.pending_growth == 0
        }),
{
    lemma_remove_eq_no_match(m.foods, m.segments[0]);
    lemma_remove_eq_len(m.foods, m.segments[0]);
    let eaten = spec_check_eating(m);
    let grown = spec_apply_growth(eaten);
    assert(grown.segments.subrange(0, m.segments.len() as int) =~= m.segments);
}

/// What one full movement-cadence tick does once the input intent has been
/// applied: movement, then eating, then growth, then the game-over check,
/// each stage observing only the committed output of the one before.
pub open spec fn spec_movement_tick(m: GameModel) -> GameModel {
    spec_handle_game_over(spec_apply_growth(spec_check_eating(spec_advance(m))))
}

/// How many redraws the food spawner makes before it falls back to a
/// deterministic free cell.  Collision with the single excluded cell is rare
/// on a 10x10 arena, so the fallback is all but unreachable.
pub const SPAWN_RETRY_LIMIT: u32 = 1000;

/// Whether `p` occurs among the cells of `v`.
fn contains_position(v: &Vec<Position>, p: Position) -> (r: bool)
    ensures
        r == v@.contains(p),
{
    let mut i: usize = 0;
    while i < v.len()
        invariant
            i <= v@.len(),
            forall|k: int| 0 <= k < i ==> v@[k] != p,
        decreases v@.len() - i,
    {
        if v[i] == p {
            proof {
                assert(v@.contains(p)) by {
                    assert(v@[i as int] == p);
                }
            }
            return true;
        }
        i += 1;
    }
    false
}

impl Game {
    /// The chain always has at least a head.
    pub open spec fn wf(self) -> bool {
        self@.wf()
    }

    /// Create the startup state.
    pub fn new() -> (g: Game)
        ensures
            g@ == initial_model(),
            g.wf(),
    {
        let start = Position { x: 3, y: 3 };
        let mut segments: Vec<Position> = Vec::new();
        segments.push(start);
        segments.push(start);
        let g = Game {
            segments,
            direction: Direction::Up,
            last_tail_position: None,
            foods: Vec::new(),
            pending_growth: 0,
            pending_game_over: false,
        };
        proof {
            assert(g@ =~= initial_model());
        }
        g
    }

    /// Apply a directional intent from the input collaborator.  An immediate
    /// U-turn is silently ignored; any other candidate becomes the head
    /// direction.  Runs strictly before the movement step of the same tick.
    pub fn set_direction(&mut self, requested: Direction)
        ensures
            final(self)@ == spec_set_direction(old(self)@, requested),
            final(self)@.direction == (if requested == old(self)@.direction.spec_opposite() {
                old(self)@.direction
            } else {
                requested
            }),
            final(self)@.segments == old(self)@.segments,
            final(self)@.last_tail == old(self)@.last_tail,
            final(self)@.foods == old(self)@.foods,
            final(self)@.pending_growth == old(self)@.pending_growth,
            final(self)@.pending_game_over == old(self)@.pending_game_over,
    {
        let opp = self.direction.opposite();
        if requested != opp {
            self.direction = requested;
        }
        proof {
            assert(self@ =~= spec_set_direction(old(self)@, requested));
        }
    }

    /// One movement step.  Snapshots every segment cell, moves the head one
    /// cell in the current direction, raises a game-over signal on boundary
    /// exit or on collision with any snapshot cell, shifts each later
    /// segment to its predecessor's snapshot cell in one parallel pass, and
    /// records the snapshot cell of the tail.  A raised signal does not stop
    /// the step: shifting and tail recording still complete.
    #[verifier::loop_isolation(false)]
    pub fn advance(&mut self)
        requires
            old(self).wf(),
            i32::MIN < old(self)@.segments[0].x < i32::MAX,
            i32::MIN < old(self)@.segments[0].y < i32::MAX,
        ensures
            final(self).wf(),
            final(self)@ == spec_advance(old(self)@),
            final(self)@.segments.len() == old(self)@.segments.len(),
            final(self)@.segments[0] == spec_next_position(
                old(self)@.segments[0],
                old(self)@.direction,
            ),
            forall|i: int|
                1 <= i < old(self)@.segments.len() ==> final(self)@.segments[i] == old(
                    self,
                )@.segments[i - 1],
            !spec_in_bounds(final(self)@.segments[0]) ==> final(self)@.pending_game_over,
            old(self)@.segments.contains(final(self)@.segments[0])
                ==> final(self)@.pending_game_over,
            final(self)@.last_tail == Some(old(self)@.segments.last()),
    {
        // pre-move snapshot of every segment cell, in chain order
        let mut snapshot: Vec<Position> = Vec::new();
        let mut i: usize = 0;
        while i < self.segments.len()
            invariant
                i <= self.segments@.len(),
                snapshot@ =~= self.segments@.subrange(0, i as int),
            decreases self.segments@.len() - i,
        {
            let p = self.segments[i];
            snapshot.push(p);
            i += 1;
        }
        proof {
            assert(snapshot@ =~= old(self)@.segments);
        }

        // move the head one cell in the current direction
        let head = snapshot[0];
        let new_head = match self.direction {
            Direction::Left => Position { x: head.x - 1, y: head.y },
            Direction::Right => Position { x: head.x + 1, y: head.y },
            Direction::Up => Position { x: head.x, y: head.y + 1 },
            Direction::Down => Position { x: head.x, y: head.y - 1 },
        };
        self.segments.set(0, new_head);

        // terminal check: off the arena
        if !in_bounds(new_head) {
            self.pending_game_over = true;
        }

        // terminal check: collision with any pre-move segment cell
        if contains_position(&snapshot, new_head) {
            self.pending_game_over = true;
        }

        // parallel shift: each later segment takes its predecessor's
        // snapshot cell, never another segment's post-move cell
        let mut j: usize = 1;
        while j < self.segments.len()
            invariant
                1 <= j <= self.segments@.len(),
                self.segments@.len() == snapshot@.len(),
                self.segments@[0] == new_head,
                forall|k: int| 1 <= k < j ==> self.segments@[k] == snapshot@[k - 1],
                self.direction == old(self).direction,
                self.foods@ == old(self)@.foods,
                self.last_tail_position == old(self).last_tail_position,
                self.pending_growth == old(self).pending_growth,
                self.pending_game_over == (old(self)@.pending_game_over || !spec_in_bounds(
                    new_head,
                ) || old(self)@.segments.contains(new_head)),
            decreases self.segments@.len() - j,
        {
            let p = snapshot[j - 1];
            self.segments.set(j, p);
            j += 1;
        }

        // record the cell the tail vacated this step
        let tail = snapshot[snapshot.len() - 1];
        self.last_tail_position = Some(tail);

        proof {
            assert(self@.segments =~= spec_advance(old(self)@).segments);
            assert(self@ =~= spec_advance(old(self)@));
        }
    }

    /// Scan every live food against the head's current cell; each exact
    /// match destroys that food and raises one growth signal.  Runs strictly
    /// after the movement step, so the head cell is the post-move one.
    #[verifier::loop_isolation(false)]
    pub fn check_eating(&mut self)
        requires
            old(self).wf(),
            old(self)@.pending_growth + old(self)@.foods.len() <= usize::MAX,
        ensures
            final(self).wf(),
            final(self)@ == spec_check_eating(old(self)@),
            final(self)@.pending_growth == old(self)@.pending_growth + count_eq(
                old(self)@.foods,
                old(self)@.segments[0],
            ),
            forall|j: int|
                0 <= j < final(self)@.foods.len() ==> final(self)@.foods[j] != old(
                    self,
                )@.segments[0],
    {
        let head = self.segments[0];
        let mut kept: Vec<Position> = Vec::new();
        let mut i: usize = 0;
        while i < self.foods.len()
            invariant
                i <= self.foods@.len(),
                self.segments@ == old(self)@.segments,
                self.direction == old(self).direction,
                self.last_tail_position == old(self).last_tail_position,
                self.foods@ == old(self)@.foods,
                self.pending_game_over == old(self).pending_game_over,
                kept@ == remove_eq(old(self)@.foods.subrange(0, i as int), head),
                self.pending_growth as nat == old(self)@.pending_growth + count_eq(
                    old(self)@.foods.subrange(0, i as int),
                    head,
                ),
            decreases self.foods@.len() - i,
        {
            let f = self.foods[i];
            proof {
                assert(old(self)@.foods.subrange(0, (i + 1) as int).drop_last() =~= old(
                    self,
                )@.foods.subrange(0, i as int));
                assert(old(self)@.foods.subrange(0, (i + 1) as int).last() == f);
                lemma_count_eq_le_len(old(self)@.foods.subrange(0, i as int), head);
            }
            if f == head {
                self.pending_growth = self.pending_growth + 1;
            } else {
                kept.push(f);
            }
            i += 1;
        }
        proof {
            assert(old(self)@.foods.subrange(0, self.foods@.len() as int) =~= old(self)@.foods);
        }
        self.foods = kept;
        proof {
            lemma_remove_eq_no_match(old(self)@.foods, head);
            assert(self@ =~= spec_check_eating(old(self)@));
        }
    }

    /// Consume every growth signal raised this tick: for each one, append a
    /// new tail segment at the recorded last-vacated cell.  Runs strictly
    /// after eating within the same tick.
    #[verifier::loop_isolation(false)]
    pub fn apply_growth(&mut self)
        requires
            old(self).wf(),
            old(self)@.pending_growth > 0 ==> old(self)@.last_tail is Some,
        ensures
            final(self).wf(),
            final(self)@ == spec_apply_growth(old(self)@),
            final(self)@.segments.len() == old(self)@.segments.len()
                + old(self)@.pending_growth,
            forall|k: int|
                0 <= k < old(self)@.segments.len()
                    ==> final(self)@.segments[k] == old(self)@.segments[k],
            forall|k: int|
                old(self)@.segments.len() <= k < final(self)@.segments.len()
                    ==> final(self)@.segments[k] == old(self)@.last_tail.unwrap(),
            final(self)@.pending_growth == 0,
    {
        if self.pending_growth > 0 {
            let t = self.last_tail_position.unwrap();
            let n = self.pending_growth;
            let mut k: usize = 0;
            while k < n
                invariant
                    k <= n,
                    self.segments@ =~= old(self)@.segments + Seq::new(k as nat, |i: int| t),
                    self.direction == old(self).direction,
                    self.last_tail_position == old(self).last_tail_position,
                    self.foods@ == old(self)@.foods,
                    self.pending_growth == n,
                    self.pending_game_over == old(self).pending_game_over,
                decreases n - k,
            {
                self.segments.push(t);
                k += 1;
                proof {
                    assert(self.segments@ =~= old(self)@.segments + Seq::new(
                        k as nat,
                        |i: int| t,
                    ));
                }
            }
            self.pending_growth = 0;
            self.last_tail_position = None;
            proof {
                assert(self@ =~= spec_apply_growth(old(self)@));
            }
        }
    }

    /// Consume the game-over signal: if one is pending, discard every
    /// segment and every food and rebuild the startup configuration.  Runs
    /// after movement, eating and growth in the same tick, so a terminal
    /// condition is honored only once all same-tick mutations are applied.
    pub fn handle_game_over(&mut self)
        requires
            old(self).wf(),
        ensures
            final(self).wf(),
            final(self)@ == spec_handle_game_over(old(self)@),
            old(self)@.pending_game_over ==> final(self)@ == initial_model(),
            !old(self)@.pending_game_over ==> final(self)@ == old(self)@,
    {
        if self.pending_game_over {
            *self = Game::new();
        }
    }

    /// Spawn one food at a uniformly drawn cell of the arena, redrawing
    /// while the draw lands on the head's current cell.  After
    /// `SPAWN_RETRY_LIMIT` rejected draws the spawner settles on a
    /// deterministic free cell instead.  The spawned cell is returned; it is
    /// always on the arena and never the head's cell.  Whether food is
    /// already live is deliberately not checked.
    #[verifier::loop_isolation(false)]
    pub fn spawn_if_absent(&mut self) -> (spawned: Position)
        requires
            old(self).wf(),
        ensures
            final(self).wf(),
            spec_in_bounds(spawned),
            spawned != old(self)@.segments[0],
            final(self)@.foods == old(self)@.foods.push(spawned),
            final(self)@.segments == old(self)@.segments,
            final(self)@.direction == old(self)@.direction,
            final(self)@.last_tail == old(self)@.last_tail,
            final(self)@.pending_growth == old(self)@.pending_growth,
            final(self)@.pending_game_over == old(self)@.pending_game_over,
    {
        let head = self.segments[0];
        let mut p = random_cell();
        let mut attempts: u32 = 0;
        while p == head && attempts < SPAWN_RETRY_LIMIT
            invariant
                spec_in_bounds(p),
            decreases SPAWN_RETRY_LIMIT - attempts,
        {
            p = random_cell();
            attempts += 1;
        }
        if p == head {
            // deterministic fallback: a corner cell, or its right neighbor
            // when the head sits on that corner
            p = if head.x == 0 && head.y == 0 {
                Position { x: 1, y: 0 }
            } else {
                Position { x: 0, y: 0 }
            };
        }
        self.foods.push(p);
        proof {
            assert(self@.foods =~= old(self)@.foods.push(p));
        }
        p
    }

    /// One full movement-cadence tick: apply the sampled directional intent
    /// if there is one, then move, eat, grow, and check for game over, as a
    /// strict pipeline within the same tick.
    pub fn movement_tick(&mut self, requested: Option<Direction>)
        requires
            old(self).wf(),
            i32::MIN < old(self)@.segments[0].x < i32::MAX,
            i32::MIN < old(self)@.segments[0].y < i32::MAX,
            old(self)@.pending_growth + old(self)@.foods.len() <= usize::MAX,
        ensures
            final(self).wf(),
            final(self)@ == spec_movement_tick(
                match requested {
                    Some(d) => spec_set_direction(old(self)@, d),
                    None => old(self)@,
                },
            ),
    {
        if let Some(d) = requested {
            self.set_direction(d);
        }
        self.advance();
        self.check_eating();
        self.apply_growth();
        self.handle_game_over();
    }
}

/// A uniformly drawn cell of the arena.
fn random_cell() -> (p: Position)
    ensures
        spec_in_bounds(p),
{
    let x = random_below(ARENA_WIDTH);
    let y = random_below(ARENA_HEIGHT);
    Position { x: x as i32, y: y as i32 }
}

} // verus!
