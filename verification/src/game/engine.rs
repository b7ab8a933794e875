//! The game engine: who plays, who has left, and what one tick of the game does.

use vstd::prelude::*;

use crate::chance::Dice;
use crate::game::clock::Clock;
use crate::game::board::{drew_cell, on_board, Board, Position};
use crate::game::snake::{advanced, fresh_body, queued, turned, Direction, Snake, SnakeModel};

verus! {

/// `tokio::time::Instant`, held opaquely.
#[verifier::external_type_specification]
#[verifier::external_body]
pub struct ExInstant(tokio::time::Instant);

/// Calls `tokio::time::Instant::now`; the moment it returns is not stated.
#[verifier::external_body]
pub(crate) fn now() -> (t: tokio::time::Instant) {
    tokio::time::Instant::now()
}

/// Calls `tokio::time::Instant::elapsed` on `epoch` and converts the duration
/// with `std::time::Duration::as_nanos`, cut to 64 bits: the nanoseconds since
/// `epoch`, by the clock. The number depends on the clock and is not stated.
#[verifier::external_body]
pub(crate) fn nanos_since(epoch: &tokio::time::Instant) -> (nanos: u64) {
    epoch.elapsed().as_nanos() as u64
}

/// Why a player could not join.
#[derive(Clone, Copy, PartialEq, Eq, Debug, Structural)]
pub enum EngineError {
    /// A player of that name is already in the game.
    UsernameTaken,
    /// The game already holds as many players as it allows.
    ServerFull,
}

impl EngineError {
    /// The text that a client is sent for this error.
    pub fn message(&self) -> (s: &'static str)
        ensures
            s@ == self.text(),
    {
        match self {
            EngineError::UsernameTaken => "username already connected",
            EngineError::ServerFull => "server full",
        }
    }

    /// The text of the error.
    pub open spec fn text(&self) -> Seq<char> {
        match self {
            EngineError::UsernameTaken => "username already connected"@,
            EngineError::ServerFull => "server full"@,
        }
    }
}

/// What a client is shown of a snake after a tick.
#[derive(Clone, Debug)]
pub struct SnakeState {
    pub name: String,
    pub body: Vec<Position>,
    pub dir: Direction,
    pub crowns: u32,
}

/// A snake that reached the winning length in a tick, with its new crown count.
#[derive(Clone, Debug)]
pub struct CrownEvent {
    pub name: String,
    pub crowns: u32,
}

/// What one tick produced.
#[derive(Clone, Debug)]
pub struct TickResult {
    pub tick: u64,
    pub food: Position,
    pub snakes: Vec<SnakeState>,
    pub crowns: Vec<CrownEvent>,
}

/// No two snakes share a name.
pub open spec fn names_distinct(s: Seq<SnakeModel>) -> bool {
    forall|i: int, j: int| 0 <= i < s.len() && 0 <= j < s.len() && i != j ==> s[i].name != s[j].name
}

/// Some snake of `s` is called `name`.
pub open spec fn has_name(s: Seq<SnakeModel>, name: Seq<char>) -> bool {
    exists|i: int| 0 <= i < s.len() && s[i].name == name
}

/// The snakes of the disconnected list, without their timestamps.
pub open spec fn snakes_of(s: Seq<(SnakeModel, u64)>) -> Seq<SnakeModel> {
    s.map_values(|e: (SnakeModel, u64)| e.0)
}

/// A snake after the turn and the move of a tick.
pub open spec fn moved(m: SnakeModel, width: int, height: int) -> SnakeModel {
    advanced(turned(m), width, height)
}

/// A moved snake whose head lies on the food.
pub open spec fn eats(m: SnakeModel, food: Position) -> bool {
    m.body[0] == food
}

/// A moved snake, with one more pending segment if it has eaten.
pub open spec fn fed(m: SnakeModel, food: Position) -> SnakeModel {
    if eats(m, food) {
        SnakeModel { growing: (m.growing + 1) as u32, ..m }
    } else {
        m
    }
}

/// A moved snake that is at least `win_length` long.
pub open spec fn wins(m: SnakeModel, win_length: u16) -> bool {
    m.body.len() >= win_length
}

/// `n` is the winner `m` after its crown: same name, one crown more, and a
/// fresh snake of `start_length` heading right from some cell of the board.
pub open spec fn crowned(m: SnakeModel, n: SnakeModel, start_length: u16, width: int, height: int) -> bool {
    &&& n.name == m.name
    &&& n.crowns == m.crowns + 1
    &&& n.dir == Direction::Right
    &&& n.next_dir == None::<Direction>
    &&& n.growing == 0
    &&& exists|p: Position|
        on_board(width, height, p) && n.body == fresh_body(p, Direction::Right, start_length, width, height)
}

/// What a tick makes of the snake `m`: it turns and moves; if it is then long
/// enough it is crowned and starts afresh; otherwise it grows if it has eaten.
pub open spec fn tick_outcome(
    m: SnakeModel,
    n: SnakeModel,
    food: Position,
    width: int,
    height: int,
    start_length: u16,
    win_length: u16,
) -> bool {
    let k = moved(m, width, height);
    if wins(k, win_length) {
        crowned(k, n, start_length, width, height)
    } else {
        n == fed(k, food)
    }
}

/// Some snake of `s`, once moved, has its head on the food.
pub open spec fn someone_eats(s: Seq<SnakeModel>, food: Position, width: int, height: int) -> bool {
    exists|i: int| 0 <= i < s.len() && eats(#[trigger] moved(s[i], width, height), food)
}

/// The crowns that a tick awards to the snakes `s`, in their order: name and new count.
pub open spec fn crown_list(s: Seq<SnakeModel>, width: int, height: int, win_length: u16) -> Seq<
    (Seq<char>, u32),
>
    decreases s.len(),
{
    if s.len() == 0 {
        seq![]
    } else {
        let rest = crown_list(s.drop_last(), width, height, win_length);
        let k = moved(s.last(), width, height);
        if wins(k, win_length) {
            rest.push((k.name, (k.crowns + 1) as u32))
        } else {
            rest
        }
    }
}

/// The numbers that a tick draws to restart its winners: for each snake of
/// `o` (before the tick) that wins once moved, in order, the coordinates `x`
/// then `y` of the head of its counterpart in `n` (after the tick).
pub open spec fn restarts(o: Seq<SnakeModel>, n: Seq<SnakeModel>, width: int, height: int, win_length: u16) -> Seq<
    u64,
>
    decreases o.len(),
{
    if o.len() == 0 || n.len() == 0 {
        seq![]
    } else {
        let rest = restarts(o.drop_last(), n.drop_last(), width, height, win_length);
        if wins(moved(o.last(), width, height), win_length) {
            rest.push(n.last().body[0].x as u64).push(n.last().body[0].y as u64)
        } else {
            rest
        }
    }
}

/// The view of a crown event.
pub open spec fn crown_view(c: CrownEvent) -> (Seq<char>, u32) {
    (c.name@, c.crowns)
}

/// The snapshot `st` shows the snake `m`.
pub open spec fn shows(st: SnakeState, m: SnakeModel) -> bool {
    &&& st.name@ == m.name
    &&& st.body@ == m.body
    &&& st.dir == m.dir
    &&& st.crowns == m.crowns
}

/// The disconnected entries of `s` whose age (in whole seconds, `ages[i]` for
/// `s[i]`) is below `timeout_s`, in their order.
pub open spec fn recent(s: Seq<(SnakeModel, u64)>, ages: Seq<u64>, timeout_s: u64) -> Seq<
    (SnakeModel, u64),
>
    decreases s.len(),
{
    if s.len() == 0 {
        seq![]
    } else {
        let rest = recent(s.drop_last(), ages.take(s.len() - 1), timeout_s);
        if ages[s.len() - 1] < timeout_s {
            rest.push(s.last())
        } else {
            rest
        }
    }
}

/// `m` is a newcomer called `name`: no crowns, heading right, nothing queued
/// or pending, and a fresh body of `start_length` from some cell of the board.
pub open spec fn newcomer(m: SnakeModel, name: Seq<char>, start_length: u16, width: int, height: int) -> bool {
    &&& m.name == name
    &&& m.crowns == 0
    &&& m.dir == Direction::Right
    &&& m.next_dir == None::<Direction>
    &&& m.growing == 0
    &&& exists|p: Position|
        on_board(width, height, p) && m.body == fresh_body(p, Direction::Right, start_length, width, height)
}

/// The view of a disconnected entry.
pub open spec fn absent_view(e: (Snake, u64)) -> (SnakeModel, u64) {
    (e.0@, e.1)
}

/// The views of the entries of a disconnected list.
pub open spec fn entries_view(v: Seq<(Snake, u64)>) -> Seq<(SnakeModel, u64)> {
    v.map_values(|e: (Snake, u64)| absent_view(e))
}

/// The age in whole seconds, at the moment `now`, of an entry stamped `stamp`
/// (both in nanoseconds since the same moment); a stamp after `now` has age 0.
pub open spec fn age_secs(stamp: u64, now: u64) -> u64 {
    if now >= stamp {
        ((now - stamp) / 1_000_000_000) as u64
    } else {
        0
    }
}

/// The ages at the moment `now` of the entries of `s`, in their order.
pub open spec fn ages_at(s: Seq<(SnakeModel, u64)>, now: u64) -> Seq<u64> {
    s.map_values(|e: (SnakeModel, u64)| age_secs(e.1, now))
}

/// The age in whole seconds at `now` of an entry stamped `stamp`.
fn age_of(stamp: u64, now: u64) -> (a: u64)
    ensures
        a == age_secs(stamp, now),
{
    if now >= stamp {
        (now - stamp) / 1_000_000_000
    } else {
        0
    }
}

/// What `recent` keeps comes from `s`, and keeps names apart if `s` does.
pub(crate) proof fn lemma_recent_keeps(s: Seq<(SnakeModel, u64)>, ages: Seq<u64>, timeout_s: u64)
    requires
        ages.len() == s.len(),
        names_distinct(snakes_of(s)),
    ensures
        names_distinct(snakes_of(recent(s, ages, timeout_s))),
        forall|j: int|
            0 <= j < recent(s, ages, timeout_s).len() ==> exists|m: int|
                0 <= m < s.len() && #[trigger] recent(s, ages, timeout_s)[j] == s[m],
    decreases s.len(),
{
    if s.len() > 0 {
        let d = s.drop_last();
        let ad = ages.take(s.len() - 1);
        assert(names_distinct(snakes_of(d))) by {
            assert forall|i: int, j: int| 0 <= i < d.len() && 0 <= j < d.len() && i != j implies
                snakes_of(d)[i].name != snakes_of(d)[j].name by {
                assert(snakes_of(d)[i] == snakes_of(s)[i]);
                assert(snakes_of(d)[j] == snakes_of(s)[j]);
            }
        }
        lemma_recent_keeps(d, ad, timeout_s);
        let r = recent(d, ad, timeout_s);
        if ages[s.len() - 1] < timeout_s {
            let rr = r.push(s.last());
            assert(recent(s, ages, timeout_s) == rr);
            assert forall|j: int| 0 <= j < rr.len() implies exists|m: int|
                0 <= m < s.len() && #[trigger] rr[j] == s[m] by {
                if j < r.len() {
                    let m = choose|m: int| 0 <= m < d.len() && #[trigger] r[j] == d[m];
                    assert(rr[j] == s[m]);
                } else {
                    assert(rr[j] == s[s.len() - 1]);
                }
            }
            assert forall|i: int, j: int|
                0 <= i < rr.len() && 0 <= j < rr.len() && i != j implies snakes_of(rr)[i].name
                != snakes_of(rr)[j].name by {
                if i < r.len() && j < r.len() {
                    assert(snakes_of(rr)[i] == snakes_of(r)[i]);
                    assert(snakes_of(rr)[j] == snakes_of(r)[j]);
                } else if i < r.len() {
                    let m = choose|m: int| 0 <= m < d.len() && #[trigger] r[i] == d[m];
                    assert(snakes_of(rr)[i] == snakes_of(s)[m]);
                    assert(snakes_of(rr)[j] == snakes_of(s)[s.len() - 1]);
                } else {
                    let m = choose|m: int| 0 <= m < d.len() && #[trigger] r[j] == d[m];
                    assert(snakes_of(rr)[j] == snakes_of(s)[m]);
                    assert(snakes_of(rr)[i] == snakes_of(s)[s.len() - 1]);
                }
            }
        } else {
            assert(recent(s, ages, timeout_s) == r);
            assert forall|j: int| 0 <= j < r.len() implies exists|m: int|
                0 <= m < s.len() && #[trigger] r[j] == s[m] by {
                let m = choose|m: int| 0 <= m < d.len() && #[trigger] r[j] == d[m];
                assert(r[j] == s[m]);
            }
        }
    }
}

/// The game: the board, the players in play, the players who left (each with
/// the moment it left, by `clock`), the tick counter, the rules, the random
/// generator, and the game's clock.
pub struct GameEngine {
    board: Board,
    active: Vec<Snake>,
    disconnected: Vec<(Snake, u64)>,
    tick: u64,
    start_length: u16,
    win_length: u16,
    max_players: u32,
    rng: Dice,
    clock: Clock,
}

/// Finds the snake called `name` in `list`.
fn position_of(list: &Vec<Snake>, name: &String) -> (r: Option<usize>)
    ensures
        match r {
            Some(i) => i < list@.len() && list@[i as int].name@ == name@,
            None => forall|i: int| 0 <= i < list@.len() ==> list@[i].name@ != name@,
        },
{
    let mut i: usize = 0;
    while i < list.len()
        invariant
            i <= list@.len(),
            forall|j: int| 0 <= j < i ==> list@[j].name@ != name@,
        decreases list@.len() - i,
    {
        if list[i].name == *name {
            return Some(i);
        }
        i = i + 1;
    }
    None
}

/// Finds the disconnected snake called `name` in `list`.
fn position_of_absent(list: &Vec<(Snake, u64)>, name: &String) -> (r: Option<usize>)
    ensures
        match r {
            Some(i) => i < list@.len() && list@[i as int].0.name@ == name@,
            None => forall|i: int| 0 <= i < list@.len() ==> list@[i].0.name@ != name@,
        },
{
    let mut i: usize = 0;
    while i < list.len()
        invariant
            i <= list@.len(),
            forall|j: int| 0 <= j < i ==> list@[j].0.name@ != name@,
        decreases list@.len() - i,
    {
        if list[i].0.name == *name {
            return Some(i);
        }
        i = i + 1;
    }
    None
}

/// The positions of a snake's body, head first, in a `Vec`.
fn body_cells(body: &std::collections::VecDeque<Position>) -> (v: Vec<Position>)
    ensures
        v@ == body@,
{
    let mut v: Vec<Position> = Vec::new();
    let mut k: usize = 0;
    while k < body.len()
        invariant
            k <= body@.len(),
            v@ == body@.take(k as int),
        decreases body@.len() - k,
    {
        v.push(body[k]);
        k = k + 1;
        assert(v@ =~= body@.take(k as int));
    }
    assert(body@.take(body@.len() as int) =~= body@);
    v
}

impl GameEngine {
    /// The players in play, in order.
    pub closed spec fn players(&self) -> Seq<SnakeModel> {
        self.active@.map_values(|s: Snake| s@)
    }

    /// The players who left and may come back, each with the moment it left
    /// (in nanoseconds since the game began).
    pub closed spec fn absent(&self) -> Seq<(SnakeModel, u64)> {
        self.disconnected@.map_values(|e: (Snake, u64)| absent_view(e))
    }

    /// Every number drawn so far from the game's random generator, oldest first.
    pub closed spec fn draws(&self) -> Seq<u64> {
        self.rng.draws()
    }

    /// Every reading taken so far of the game's clock, oldest first.
    pub closed spec fn readings(&self) -> Seq<u64> {
        self.clock.readings()
    }

    /// The board.
    pub closed spec fn arena(&self) -> Board {
        self.board
    }

    /// The number of ticks played.
    pub closed spec fn ticks(&self) -> u64 {
        self.tick
    }

    /// The length of a fresh snake.
    pub closed spec fn start_len(&self) -> u16 {
        self.start_length
    }

    /// The length that earns a crown.
    pub closed spec fn win_len(&self) -> u16 {
        self.win_length
    }

    /// The number of players beyond which no new player may join.
    pub closed spec fn capacity(&self) -> u32 {
        self.max_players
    }

    /// The board has cells and food on one of them; names are unique among the
    /// players in play, among those who left, and across both; every snake has
    /// a head.
    pub closed spec fn wf(&self) -> bool {
        let p = self.players();
        let a = snakes_of(self.absent());
        &&& self.board.wf()
        &&& names_distinct(p)
        &&& names_distinct(a)
        &&& forall|i: int, j: int|
            0 <= i < p.len() && 0 <= j < a.len() ==> #[trigger] p[i].name != #[trigger] a[j].name
        &&& forall|i: int| 0 <= i < p.len() ==> (#[trigger] p[i]).body.len() > 0
        &&& forall|i: int| 0 <= i < a.len() ==> (#[trigger] a[i]).body.len() > 0
    }

    /// The settings and the board are those of `other`.
    pub open spec fn same_setting(&self, other: &Self) -> bool {
        &&& self.arena() == other.arena()
        &&& self.ticks() == other.ticks()
        &&& self.start_len() == other.start_len()
        &&& self.win_len() == other.win_len()
        &&& self.capacity() == other.capacity()
    }

    /// Lets `name` play. A name already in play is refused; so is any other
    /// name while the game is full. Otherwise a name that left comes back with
    /// its snake as it was, and a new name gets a fresh snake on a random cell.
    pub fn add_player(&mut self, name: String) -> (r: Result<(), EngineError>)
        requires
            old(self).wf(),
        ensures
            added(*old(self), *final(self), name@, r),
    {
        let ghost p0 = self.players();
        let ghost a0 = self.absent();
        if let Some(i) = position_of(&self.active, &name) {
            assert(p0[i as int].name == name@);
            return Err(EngineError::UsernameTaken);
        }
        assert(!has_name(p0, name@));
        if self.active.len() >= self.max_players as usize {
            return Err(EngineError::ServerFull);
        }
        match position_of_absent(&self.disconnected, &name) {
            Some(j) => {
                let (snake, _) = self.disconnected.remove(j);
                self.active.push(snake);
                proof {
                    assert(self.players() =~= p0.push(a0[j as int].0));
                    assert(self.absent() =~= a0.remove(j as int));
                    assert(snakes_of(self.absent()) =~= snakes_of(a0).remove(j as int));
                    assert(a0[j as int].0.name == name@);
                    assert(snakes_of(a0)[j as int].name == name@);
                    assert(has_name(snakes_of(a0), name@));
                    assert(self.wf());
                }
                Ok(())
            },
            None => {
                assert(!has_name(snakes_of(a0), name@)) by {
                    if has_name(snakes_of(a0), name@) {
                        let k = choose|k: int| 0 <= k < snakes_of(a0).len() && snakes_of(a0)[k].name == name@;
                        assert(self.disconnected@[k].0.name@ == name@);
                    }
                }
                assert(self.active@.len() == p0.len());
                let x = self.rng.below_u16(self.board.width);
                let y = self.rng.below_u16(self.board.height);
                let start = Position { x, y };
                let snake = Snake::new(name, start, Direction::Right, self.start_length, &self.board);
                self.active.push(snake);
                proof {
                    assert(self.players() =~= p0.push(snake@));
                    assert(self.players().drop_last() =~= p0);
                    assert(on_board(self.board.width as int, self.board.height as int, start));
                    assert(snake@.body.len() > 0);
                    assert(snakes_of(self.absent()) == snakes_of(a0));
                    assert(self.players().last() == snake@);
                    assert(self.wf());
                }
                Ok(())
            },
        }
    }

    /// Takes `name` out of play and keeps its snake, stamped with the present
    /// moment by the game's clock, among those who left; an unknown name
    /// changes nothing and does not read the clock.
    pub fn remove_player(&mut self, name: &str)
        requires
            old(self).wf(),
        ensures
            removed(*old(self), *final(self), name@),
            final(self).draws() == old(self).draws(),
            has_name(old(self).players(), name@) ==> took_reading(*old(self), *final(self))
                && final(self).absent().last().1 == final(self).readings().last(),
            !has_name(old(self).players(), name@) ==> final(self).readings() == old(self).readings(),
    {
        let key = name.to_owned();
        match position_of(&self.active, &key) {
            Some(i) => {
                proof {
                    assert(old(self).players()[i as int].name == name@);
                }
                let at = self.clock.read();
                self.remove_player_at(name, at);
                proof {
                    assert(self.readings().drop_last() =~= old(self).readings());
                }
            },
            None => {
                assert(!has_name(old(self).players(), name@));
            },
        }
    }

    /// Takes `name` out of play and keeps its snake, stamped `at`, among those
    /// who left; an unknown name changes nothing.
    pub fn remove_player_at(&mut self, name: &str, at: u64)
        requires
            old(self).wf(),
        ensures
            left_at(*old(self), *final(self), name@, at),
    {
        let ghost p0 = self.players();
        let ghost a0 = self.absent();
        let key = name.to_owned();
        match position_of(&self.active, &key) {
            Some(i) => {
                let snake = self.active.remove(i);
                self.disconnected.push((snake, at));
                proof {
                    assert(self.players() =~= p0.remove(i as int));
                    assert(self.absent() =~= a0.push((p0[i as int], at)));
                    assert(self.absent().drop_last() =~= a0);
                    assert(snakes_of(self.absent()) =~= snakes_of(a0).push(p0[i as int]));
                    assert forall|a: int, b: int|
                        0 <= a < self.players().len() && 0 <= b < snakes_of(self.absent()).len()
                        implies #[trigger] self.players()[a].name != #[trigger] snakes_of(self.absent())[b].name by {
                        if a < i {
                            assert(self.players()[a] == p0[a]);
                        } else {
                            assert(self.players()[a] == p0[a + 1]);
                        }
                    }
                }
            },
            None => {
                assert(!has_name(p0, name@));
            },
        }
    }

    /// Queues a turn for the player `name`, if in play; see `Snake::queue_turn`.
    pub fn queue_turn(&mut self, name: &str, dir: Direction)
        requires
            old(self).wf(),
        ensures
            turn_queued(*old(self), *final(self), name@, dir),
    {
        let ghost p0 = self.players();
        let key = name.to_owned();
        match position_of(&self.active, &key) {
            Some(i) => {
                self.active[i].queue_turn(dir);
                proof {
                    assert(self.players() =~= p0.update(i as int, queued(p0[i as int], dir)));
                }
            },
            None => {
                assert(!has_name(p0, name@));
            },
        }
    }

    /// Turns and moves every player in play and feeds those whose head reaches
    /// the food; tells whether anyone ate.
    fn step_all(&mut self) -> (ate: bool)
        requires
            old(self).wf(),
        ensures
            final(self).wf(),
            final(self).board == old(self).board,
            final(self).disconnected == old(self).disconnected,
            final(self).tick == old(self).tick,
            final(self).start_length == old(self).start_length,
            final(self).win_length == old(self).win_length,
            final(self).rng == old(self).rng,
            final(self).clock == old(self).clock,
            final(self).max_players == old(self).max_players,
            final(self).active@.len() == old(self).active@.len(),
            forall|i: int|
                0 <= i < old(self).active@.len() ==> (#[trigger] final(self).active@[i])@ == fed(
                    moved(old(self).active@[i]@, old(self).board.width as int, old(self).board.height as int),
                    old(self).board.food,
                ),
            ate == someone_eats(
                old(self).players(),
                old(self).board.food,
                old(self).board.width as int,
                old(self).board.height as int,
            ),
    {
        let ghost w = self.board.width as int;
        let ghost h = self.board.height as int;
        let ghost p0 = self.players();
        let ghost orig = self.active@;
        let ghost a0 = snakes_of(self.absent());
        let food = self.board.food();
        let n = self.active.len();
        let mut ate = false;
        let mut i: usize = 0;
        assert forall|j: int| 0 <= j < n implies (#[trigger] orig[j])@.body.len() > 0 by {
            assert(p0[j] == orig[j]@);
        }
        while i < n
            invariant
                n == self.active@.len(),
                n == orig.len(),
                n == p0.len(),
                i <= n,
                w == self.board.width,
                h == self.board.height,
                self.board.width > 0,
                self.board.height > 0,
                food == self.board.food,
                self.board == old(self).board,
                self.disconnected == old(self).disconnected,
                self.tick == old(self).tick,
                self.start_length == old(self).start_length,
                self.win_length == old(self).win_length,
                self.max_players == old(self).max_players,
                self.rng == old(self).rng,
                self.clock == old(self).clock,
                a0 == snakes_of(old(self).absent()),
                forall|j: int| 0 <= j < n ==> (#[trigger] p0[j]) == orig[j]@,
                forall|j: int| 0 <= j < n ==> (#[trigger] orig[j])@.body.len() > 0,
                forall|j: int|
                    0 <= j < i ==> (#[trigger] self.active@[j])@ == fed(moved(orig[j]@, w, h), food),
                forall|j: int| i <= j < n ==> (#[trigger] self.active@[j]) == orig[j],
                ate == exists|j: int| 0 <= j < i && eats(#[trigger] moved(p0[j], w, h), food),
            decreases n - i,
        {
            self.active[i].apply_turn();
            self.active[i].advance(&self.board);
            if self.active[i].head() == food {
                self.active[i].grow();
                ate = true;
            }
            proof {
                assert(moved(p0[i as int], w, h) == moved(orig[i as int]@, w, h));
            }
            i = i + 1;
        }
        proof {
            assert(self.players() =~= Seq::new(n as nat, |j: int| fed(moved(p0[j], w, h), food)));
            assert forall|a: int, b: int|
                0 <= a < self.players().len() && 0 <= b < snakes_of(self.absent()).len() implies
                #[trigger] self.players()[a].name != #[trigger] snakes_of(self.absent())[b].name by {
                assert(self.players()[a].name == p0[a].name);
                assert(snakes_of(self.absent()) == a0);
                assert(p0[a].name != a0[b].name);
            }
            assert forall|a: int| 0 <= a < self.players().len() implies (
            #[trigger] self.players()[a]).body.len() > 0 by {
                assert(self.players()[a] == fed(moved(p0[a], w, h), food));
            }
            assert forall|a: int, b: int|
                0 <= a < self.players().len() && 0 <= b < self.players().len() && a != b implies
                self.players()[a].name != self.players()[b].name by {
                assert(self.players()[a].name == p0[a].name);
                assert(self.players()[b].name == p0[b].name);
            }
        }
        ate
    }

    /// Crowns and restarts every moved player that reached the winning length,
    /// and takes the snapshot of every player, in order.
    fn crown_and_show(&mut self, Ghost(orig): Ghost<Seq<SnakeModel>>, Ghost(food0): Ghost<Position>) -> (out: (
        Vec<SnakeState>,
        Vec<CrownEvent>,
    ))
        requires
            old(self).board.width > 0,
            old(self).board.height > 0,
            orig.len() == old(self).active@.len(),
            forall|i: int|
                0 <= i < orig.len() ==> (#[trigger] old(self).active@[i])@ == fed(
                    moved(orig[i], old(self).board.width as int, old(self).board.height as int),
                    food0,
                ),
            forall|i: int| 0 <= i < orig.len() ==> (#[trigger] orig[i]).crowns < u32::MAX,
            forall|i: int| 0 <= i < orig.len() ==> (#[trigger] orig[i]).body.len() > 0,
        ensures
            final(self).board.width == old(self).board.width,
            final(self).board.height == old(self).board.height,
            final(self).board.food == old(self).board.food,
            final(self).disconnected == old(self).disconnected,
            final(self).tick == old(self).tick,
            final(self).start_length == old(self).start_length,
            final(self).win_length == old(self).win_length,
            final(self).clock == old(self).clock,
            final(self).rng.draws() == old(self).rng.draws() + restarts(
                orig,
                final(self).players(),
                old(self).board.width as int,
                old(self).board.height as int,
                old(self).win_length,
            ),
            final(self).max_players == old(self).max_players,
            final(self).active@.len() == orig.len(),
            forall|i: int|
                0 <= i < orig.len() ==> tick_outcome(
                    orig[i],
                    (#[trigger] final(self).active@[i])@,
                    food0,
                    old(self).board.width as int,
                    old(self).board.height as int,
                    old(self).start_length,
                    old(self).win_length,
                ),
            forall|i: int|
                0 <= i < orig.len() ==> (#[trigger] final(self).active@[i])@.name == orig[i].name
                    && final(self).active@[i]@.body.len() > 0,
            out.0@.len() == orig.len(),
            forall|i: int| 0 <= i < orig.len() ==> shows(#[trigger] out.0@[i], final(self).active@[i]@),
            out.1@.map_values(|c: CrownEvent| crown_view(c)) == crown_list(
                orig,
                old(self).board.width as int,
                old(self).board.height as int,
                old(self).win_length,
            ),
    {
        let ghost w = self.board.width as int;
        let ghost h = self.board.height as int;
        let ghost start_length = self.start_length;
        let ghost win_length = self.win_length;
        let n = self.active.len();
        let mut snakes: Vec<SnakeState> = Vec::new();
        let mut crowns: Vec<CrownEvent> = Vec::new();
        let mut i: usize = 0;
        while i < n
            invariant
                n == self.active@.len(),
                n == orig.len(),
                i <= n,
                w == self.board.width,
                h == self.board.height,
                self.board.width > 0,
                self.board.height > 0,
                self.board == old(self).board,
                self.disconnected == old(self).disconnected,
                self.tick == old(self).tick,
                self.start_length == start_length,
                self.win_length == win_length,
                start_length == old(self).start_length,
                win_length == old(self).win_length,
                self.max_players == old(self).max_players,
                self.clock == old(self).clock,
                self.rng.draws() == old(self).rng.draws() + restarts(
                    orig.take(i as int),
                    self.players().take(i as int),
                    w,
                    h,
                    win_length,
                ),
                forall|j: int| 0 <= j < n ==> (#[trigger] orig[j]).crowns < u32::MAX,
                forall|j: int| 0 <= j < n ==> (#[trigger] orig[j]).body.len() > 0,
                forall|j: int|
                    i <= j < n ==> (#[trigger] self.active@[j])@ == fed(moved(orig[j], w, h), food0),
                forall|j: int|
                    0 <= j < i ==> tick_outcome(
                        orig[j],
                        (#[trigger] self.active@[j])@,
                        food0,
                        w,
                        h,
                        start_length,
                        win_length,
                    ),
                forall|j: int|
                    0 <= j < i ==> (#[trigger] self.active@[j])@.name == orig[j].name
                        && self.active@[j]@.body.len() > 0,
                snakes@.len() == i,
                forall|j: int| 0 <= j < i ==> shows(#[trigger] snakes@[j], self.active@[j]@),
                crowns@.map_values(|c: CrownEvent| crown_view(c)) == crown_list(
                    orig.take(i as int),
                    w,
                    h,
                    win_length,
                ),
            decreases n - i,
        {
            let ghost k = moved(orig[i as int], w, h);
            let ghost before = crowns@;
            let ghost d_before = self.rng.draws();
            let ghost p_before = self.players();
            proof {
                assert(orig.take(i + 1).drop_last() =~= orig.take(i as int));
                assert(orig.take(i + 1).last() == orig[i as int]);
                assert(self.active@[i as int]@ == fed(k, food0));
            }
            if self.active[i].len() >= self.win_length as usize {
                let won = self.active[i].crowns + 1;
                let x = self.rng.below_u16(self.board.width);
                let y = self.rng.below_u16(self.board.height);
                let start = Position { x, y };
                let name = self.active[i].name.clone();
                let event_name = self.active[i].name.clone();
                let mut fresh = Snake::new(name, start, Direction::Right, self.start_length, &self.board);
                fresh.crowns = won;
                self.active.set(i, fresh);
                crowns.push(CrownEvent { name: event_name, crowns: won });
                proof {
                    assert(self.players().take(i as int) =~= p_before.take(i as int));
                    assert(self.players().take(i + 1).drop_last() =~= self.players().take(i as int));
                    assert(self.players().take(i + 1).last() == self.active@[i as int]@);
                    assert(self.active@[i as int]@.body[0] == start);
                    assert(self.rng.draws() =~= d_before.push(x as u64).push(y as u64));
                    assert(wins(k, win_length));
                    assert(self.rng.draws() =~= old(self).rng.draws() + restarts(
                        orig.take(i + 1),
                        self.players().take(i + 1),
                        w,
                        h,
                        win_length,
                    ));
                    assert(on_board(w, h, start));
                    assert(self.active@[i as int]@.body == fresh_body(start, Direction::Right, start_length, w, h));
                    assert(crowned(k, self.active@[i as int]@, start_length, w, h));
                    assert(crowns@.map_values(|c: CrownEvent| crown_view(c)) =~= before.map_values(
                        |c: CrownEvent| crown_view(c),
                    ).push((k.name, (k.crowns + 1) as u32)));
                }
            } else {
                proof {
                    assert(crowns@ == before);
                    assert(self.players().take(i + 1).drop_last() =~= self.players().take(i as int));
                    assert(!wins(k, win_length));
                    assert(self.rng.draws() =~= old(self).rng.draws() + restarts(
                        orig.take(i + 1),
                        self.players().take(i + 1),
                        w,
                        h,
                        win_length,
                    ));
                }
            }
            let shown = SnakeState {
                name: self.active[i].name.clone(),
                body: body_cells(&self.active[i].body),
                dir: self.active[i].dir,
                crowns: self.active[i].crowns,
            };
            snakes.push(shown);
            i = i + 1;
        }
        proof {
            assert(orig.take(n as int) =~= orig);
            assert(self.players().take(n as int) =~= self.players());
        }
        (snakes, crowns)
    }

    /// Plays one tick: every player in play takes its queued turn and moves one
    /// cell; those whose head reaches the food get one segment more (to come on
    /// a later move) and the food moves to a random cell; then every player at
    /// least as long as the winning length earns a crown and starts afresh on a
    /// random cell. Each random cell is the next two numbers drawn from the
    /// game's generator, `x` then `y`: the food's first, then the winners' in
    /// order. The result shows the tick number, the food, every player in
    /// order, and the crowns awarded in that order.
    pub fn tick(&mut self) -> (r: TickResult)
        requires
            old(self).wf(),
            old(self).ticks() < u64::MAX,
            forall|i: int|
                0 <= i < old(self).players().len() ==> (#[trigger] old(self).players()[i]).crowns
                    < u32::MAX,
        ensures
            ticked(*old(self), *final(self), r),
    {
        let ghost orig = self.players();
        let ghost food0 = self.board.food;
        let ghost a0 = snakes_of(self.absent());
        self.tick = self.tick + 1;
        proof {
            assert forall|i: int| 0 <= i < orig.len() implies (#[trigger] orig[i]).body.len() > 0 by {
                assert(orig[i] == self.active@[i]@);
            }
        }
        let ghost d0 = self.rng.draws();
        let ate = self.step_all();
        if ate {
            self.board.respawn_food(&mut self.rng);
        }
        let ghost d1 = self.rng.draws();
        let ghost food1 = self.board.food;
        proof {
            if ate {
                assert(d1 =~= d0 + seq![food1.x as u64, food1.y as u64]);
            } else {
                assert(d1 =~= d0 + Seq::<u64>::empty());
            }
        }
        let ghost mid = self.active@;
        proof {
            assert forall|i: int| 0 <= i < orig.len() implies (#[trigger] mid[i])@ == fed(
                moved(orig[i], self.board.width as int, self.board.height as int),
                food0,
            ) by {
                assert(orig[i] == old(self).active@[i]@);
            }
        }
        let (snakes, crowns) = self.crown_and_show(Ghost(orig), Ghost(food0));
        proof {
            let p = self.players();
            assert forall|i: int| 0 <= i < p.len() implies (#[trigger] p[i]) == self.active@[i]@ by {}
            assert forall|a: int, b: int|
                0 <= a < p.len() && 0 <= b < p.len() && a != b implies p[a].name != p[b].name by {
                assert(p[a].name == orig[a].name);
                assert(p[b].name == orig[b].name);
            }
            assert(snakes_of(self.absent()) == a0);
            assert forall|a: int, b: int|
                0 <= a < p.len() && 0 <= b < a0.len() implies #[trigger] p[a].name != #[trigger] a0[b].name by {
                assert(p[a].name == orig[a].name);
            }
            assert forall|a: int| 0 <= a < p.len() implies (#[trigger] p[a]).body.len() > 0 by {
                assert(p[a] == self.active@[a]@);
            }
            assert(food1 == self.board.food);
            assert(self.rng.draws() == d1 + restarts(
                orig,
                p,
                self.board.width as int,
                self.board.height as int,
                self.win_length,
            ));
            assert(self.rng.draws() =~= d0 + food_draws(*old(self), *self) + restarts(
                orig,
                p,
                self.board.width as int,
                self.board.height as int,
                self.win_length,
            ));
        }
        TickResult { tick: self.tick, food: self.board.food(), snakes, crowns }
    }

    /// Forgets the players who left and whose age, in whole seconds, is not below
    /// `timeout_s`; `ages[i]` is the age of the `i`-th of them. The others stay,
    /// in their order.
    pub fn purge_aged(&mut self, ages: &Vec<u64>, timeout_s: u64)
        requires
            old(self).wf(),
            ages@.len() == old(self).absent().len(),
        ensures
            final(self).wf(),
            final(self).same_setting(old(self)),
            final(self).players() == old(self).players(),
            final(self).absent() == recent(old(self).absent(), ages@, timeout_s),
            final(self).draws() == old(self).draws(),
            final(self).readings() == old(self).readings(),
    {
        let ghost orig = self.absent();
        let mut pending: Vec<(Snake, u64)> = Vec::new();
        std::mem::swap(&mut pending, &mut self.disconnected);
        let ghost start = pending@;
        let n = pending.len();
        let mut kept: Vec<(Snake, u64)> = Vec::new();
        let mut k: usize = 0;
        proof {
            assert(orig =~= entries_view(start));
            assert(entries_view(kept@) =~= recent(orig.take(0), ages@.take(0), timeout_s));
            assert(pending@ =~= start.skip(0));
        }
        while k < n
            invariant
                n == start.len(),
                n == ages@.len(),
                orig == entries_view(start),
                k <= n,
                pending@ == start.skip(k as int),
                entries_view(kept@) == recent(orig.take(k as int), ages@.take(k as int), timeout_s),
            decreases n - k,
        {
            let entry = pending.remove(0);
            proof {
                assert(orig.take(k + 1).drop_last() =~= orig.take(k as int));
                assert(ages@.take(k + 1).take(k as int) =~= ages@.take(k as int));
                assert(orig.take(k + 1).last() == orig[k as int]);
                assert(entry == start[k as int]);
                assert(pending@ =~= start.skip(k + 1));
            }
            let ghost before = kept@;
            if ages[k] < timeout_s {
                kept.push(entry);
                proof {
                    assert(entries_view(kept@) =~= entries_view(before).push(orig[k as int]));
                }
            }
            k = k + 1;
        }
        self.disconnected = kept;
        proof {
            assert(orig.take(n as int) =~= orig);
            assert(ages@.take(n as int) =~= ages@);
            assert(self.absent() == entries_view(self.disconnected@));
            lemma_recent_keeps(orig, ages@, timeout_s);
            let p0 = self.players();
            let a = snakes_of(self.absent());
            let a_old = snakes_of(orig);
            assert forall|x: int, y: int|
                0 <= x < p0.len() && 0 <= y < a.len() implies #[trigger] p0[x].name != #[trigger] a[y].name by {
                let m = choose|m: int| 0 <= m < orig.len() && #[trigger] self.absent()[y] == orig[m];
                assert(a[y] == a_old[m]);
            }
            assert forall|y: int| 0 <= y < a.len() implies (#[trigger] a[y]).body.len() > 0 by {
                let m = choose|m: int| 0 <= m < orig.len() && #[trigger] self.absent()[y] == orig[m];
                assert(a[y] == a_old[m]);
            }
        }
    }

    /// Forgets the players who left at least `timeout_s` whole seconds before
    /// the moment `now` (in nanoseconds since the game began); the others stay,
    /// in their order.
    pub fn purge_stale_at(&mut self, now: u64, timeout_s: u64)
        requires
            old(self).wf(),
        ensures
            purged_at(*old(self), *final(self), now, timeout_s),
            final(self).draws() == old(self).draws(),
            final(self).readings() == old(self).readings(),
    {
        let n = self.disconnected.len();
        let mut ages: Vec<u64> = Vec::new();
        let mut k: usize = 0;
        while k < n
            invariant
                n == self.disconnected@.len(),
                k <= n,
                ages@.len() == k,
                forall|j: int| 0 <= j < k ==> ages@[j] == age_secs(#[trigger] self.disconnected@[j].1, now),
            decreases n - k,
        {
            ages.push(age_of(self.disconnected[k].1, now));
            k = k + 1;
        }
        proof {
            assert(ages@ =~= ages_at(self.absent(), now));
        }
        self.purge_aged(&ages, timeout_s);
    }

    /// Forgets the players who left at least `timeout_s` whole seconds ago, by
    /// the game's clock, read once; the others stay, in their order. The purge
    /// goes by that reading, the one that the call adds to `readings`; what the
    /// clock reads is not known.
    pub fn purge_stale(&mut self, timeout_s: u64)
        requires
            old(self).wf(),
        ensures
            purged(*old(self), *final(self), timeout_s),
            took_reading(*old(self), *final(self)),
            purged_at(*old(self), *final(self), final(self).readings().last(), timeout_s),
            final(self).draws() == old(self).draws(),
    {
        let now = self.clock.read();
        self.purge_stale_at(now, timeout_s);
        proof {
            assert(self.readings().drop_last() =~= old(self).readings());
            assert(purged_at(*old(self), *self, now, timeout_s));
        }
    }

    /// The game's board.
    pub fn board(&self) -> (b: &Board)
        ensures
            *b == self.arena(),
    {
        &self.board
    }

    /// The players in play.
    pub fn active_players(&self) -> (v: &Vec<Snake>)
        ensures
            v@.map_values(|s: Snake| s@) == self.players(),
    {
        &self.active
    }

    /// The players in play, to change at will; nothing about the game is
    /// promised afterwards.
    pub fn active_players_mut(&mut self) -> (v: &mut Vec<Snake>)
        ensures
            (*v)@.map_values(|s: Snake| s@) == old(self).players(),
            final(v)@.map_values(|s: Snake| s@) == final(self).players(),
            final(self).absent() == old(self).absent(),
            final(self).same_setting(old(self)),
    {
        &mut self.active
    }

    /// The players who left, with the moments they left, to change at will;
    /// nothing about the game is promised afterwards.
    pub fn disconnected_players_mut(&mut self) -> (v: &mut Vec<(Snake, u64)>)
        ensures
            entries_view((*v)@) == old(self).absent(),
            entries_view(final(v)@) == final(self).absent(),
            final(self).players() == old(self).players(),
            final(self).same_setting(old(self)),
    {
        &mut self.disconnected
    }

    /// The players who left, each with the moment it left (in nanoseconds
    /// since the game began).
    pub fn disconnected_players(&self) -> (v: &Vec<(Snake, u64)>)
        ensures
            v@.map_values(|e: (Snake, u64)| absent_view(e)) == self.absent(),
    {
        &self.disconnected
    }

    /// A game on a `board_width` by `board_height` board, with the food on a
    /// random cell, no players and no ticks played; its clock starts now.
    /// `rand` panics on an empty range, so both dimensions must be positive.
    pub fn new(
        board_width: u16,
        board_height: u16,
        start_length: u16,
        win_length: u16,
        max_players: u32,
        rng: rand::rngs::StdRng,
    ) -> (e: GameEngine)
        requires
            board_width > 0,
            board_height > 0,
        ensures
            e.wf(),
            e.arena().width == board_width,
            e.arena().height == board_height,
            e.players() == Seq::<SnakeModel>::empty(),
            e.absent() == Seq::<(SnakeModel, u64)>::empty(),
            e.ticks() == 0,
            e.start_len() == start_length,
            e.win_len() == win_length,
            e.capacity() == max_players,
            e.draws() == Seq::<u64>::empty(),
            e.readings() == Seq::<u64>::empty(),
    {
        let mut rng = rng;
        let board = Board::new(board_width, board_height, &mut rng);
        let e = GameEngine {
            board,
            active: Vec::new(),
            disconnected: Vec::new(),
            tick: 0,
            start_length,
            win_length,
            max_players,
            rng: Dice::new(rng),
            clock: Clock::start(),
        };
        assert(e.players() =~= Seq::<SnakeModel>::empty());
        assert(e.absent() =~= Seq::<(SnakeModel, u64)>::empty());
        e
    }
}

/// The numbers that a tick from `old` to `new` draws for the food: the
/// coordinates of the new food, `x` then `y`, when some player ate; none
/// otherwise.
pub open spec fn food_draws(old: GameEngine, new: GameEngine) -> Seq<u64> {
    let w = old.arena().width as int;
    let h = old.arena().height as int;
    if someone_eats(old.players(), old.arena().food, w, h) {
        seq![new.arena().food.x as u64, new.arena().food.y as u64]
    } else {
        seq![]
    }
}

/// `new` is `old` after one tick that produced `r` (see `GameEngine::tick`).
pub open spec fn ticked(old: GameEngine, new: GameEngine, r: TickResult) -> bool {
    let w = old.arena().width as int;
    let h = old.arena().height as int;
    &&& new.wf()
    &&& new.ticks() == old.ticks() + 1
    &&& new.readings() == old.readings()
    &&& new.draws() == old.draws() + food_draws(old, new) + restarts(old.players(), new.players(), w, h, old.win_len())
    &&& new.start_len() == old.start_len()
    &&& new.win_len() == old.win_len()
    &&& new.capacity() == old.capacity()
    &&& new.absent() == old.absent()
    &&& new.arena().width == old.arena().width
    &&& new.arena().height == old.arena().height
    &&& !someone_eats(old.players(), old.arena().food, w, h) ==> new.arena().food == old.arena().food
    &&& new.players().len() == old.players().len()
    &&& forall|i: int|
        0 <= i < old.players().len() ==> tick_outcome(
            old.players()[i],
            #[trigger] new.players()[i],
            old.arena().food,
            w,
            h,
            old.start_len(),
            old.win_len(),
        )
    &&& r.tick == new.ticks()
    &&& r.food == new.arena().food
    &&& r.snakes@.len() == new.players().len()
    &&& forall|i: int| 0 <= i < r.snakes@.len() ==> shows(#[trigger] r.snakes@[i], new.players()[i])
    &&& r.crowns@.map_values(|c: CrownEvent| crown_view(c)) == crown_list(old.players(), w, h, old.win_len())
}

/// `new` is `old` once the players who left have been purged by their age at
/// the moment `now` against `timeout_s` (see `GameEngine::purge_stale_at`).
pub open spec fn purged_at(old: GameEngine, new: GameEngine, now: u64, timeout_s: u64) -> bool {
    &&& new.wf()
    &&& new.same_setting(&old)
    &&& new.players() == old.players()
    &&& new.absent() == recent(old.absent(), ages_at(old.absent(), now), timeout_s)
}

/// `new` is `old` once the players who left have been purged by their age at
/// some moment against `timeout_s` (see `GameEngine::purge_stale`).
pub open spec fn purged(old: GameEngine, new: GameEngine, timeout_s: u64) -> bool {
    exists|now: u64| purged_at(old, new, now, timeout_s)
}

impl GameEngine {
    /// Whether a tick can be played without overflow: the tick counter and
    /// every crown count are below their maximum.
    pub fn can_tick(&self) -> (r: bool)
        ensures
            r == (self.ticks() < u64::MAX && forall|i: int|
                0 <= i < self.players().len() ==> (#[trigger] self.players()[i]).crowns < u32::MAX),
    {
        if self.tick == u64::MAX {
            return false;
        }
        let mut i: usize = 0;
        while i < self.active.len()
            invariant
                i <= self.active@.len(),
                forall|j: int| 0 <= j < i ==> (#[trigger] self.active@[j]).crowns < u32::MAX,
            decreases self.active@.len() - i,
        {
            if self.active[i].crowns == u32::MAX {
                assert(self.players()[i as int].crowns == u32::MAX);
                return false;
            }
            i = i + 1;
        }
        assert forall|j: int| 0 <= j < self.players().len() implies (#[trigger] self.players()[j]).crowns
            < u32::MAX by {
            assert(self.players()[j] == self.active@[j]@);
        }
        true
    }
}

/// `new` is `old` after `add_player(name)` answered `r` (see `GameEngine::add_player`).
pub open spec fn added(old: GameEngine, new: GameEngine, name: Seq<char>, r: Result<(), EngineError>) -> bool {
    let p = old.players();
    let a = old.absent();
    let known = has_name(p, name);
    let away = has_name(snakes_of(a), name);
    let full = p.len() >= old.capacity();
    &&& new.wf()
    &&& new.same_setting(&old)
    &&& new.readings() == old.readings()
    &&& !(!known && !away && !full) ==> new.draws() == old.draws()
    &&& known ==> {
        &&& r == Err::<(), EngineError>(EngineError::UsernameTaken)
        &&& new.players() == p
        &&& new.absent() == a
    }
    &&& !known && full ==> {
        &&& r == Err::<(), EngineError>(EngineError::ServerFull)
        &&& new.players() == p
        &&& new.absent() == a
    }
    &&& r is Ok ==> new.players().len() <= old.capacity()
    &&& !known && !full && away ==> {
        &&& r == Ok::<(), EngineError>(())
        &&& exists|j: int|
            0 <= j < a.len() && (#[trigger] a[j]).0.name == name && new.players() == p.push(a[j].0)
                && new.absent() == a.remove(j)
    }
    &&& !known && !away && !full ==> {
        &&& r == Ok::<(), EngineError>(())
        &&& new.absent() == a
        &&& new.players().len() == p.len() + 1
        &&& new.players().drop_last() == p
        &&& newcomer(
            new.players().last(),
            name,
            old.start_len(),
            old.arena().width as int,
            old.arena().height as int,
        )
        &&& drew_cell(old.draws(), new.draws(), new.players().last().body[0])
    }
}

/// `new` is `old` after `remove_player(name)` (see `GameEngine::remove_player`).
pub open spec fn removed(old: GameEngine, new: GameEngine, name: Seq<char>) -> bool {
    let p = old.players();
    let a = old.absent();
    &&& new.wf()
    &&& new.same_setting(&old)
    &&& has_name(p, name) ==> exists|i: int|
        0 <= i < p.len() && (#[trigger] p[i]).name == name && new.players() == p.remove(i)
            && new.absent().drop_last() == a && new.absent().len() == a.len() + 1
            && new.absent().last().0 == p[i]
    &&& !has_name(p, name) ==> new.players() == p && new.absent() == a
}

/// `new` is `old` after `remove_player_at(name, at)`: as after `remove_player`,
/// and the snake that left is stamped `at`.
pub open spec fn left_at(old: GameEngine, new: GameEngine, name: Seq<char>, at: u64) -> bool {
    &&& removed(old, new, name)
    &&& has_name(old.players(), name) ==> new.absent().last().1 == at
    &&& new.draws() == old.draws()
    &&& new.readings() == old.readings()
}

/// `new` took one more reading of the game's clock than `old`: the last of
/// `new.readings()`.
pub open spec fn took_reading(old: GameEngine, new: GameEngine) -> bool {
    &&& new.readings().len() == old.readings().len() + 1
    &&& new.readings().drop_last() == old.readings()
}

/// `new` is `old` after `queue_turn(name, dir)` (see `GameEngine::queue_turn`).
pub open spec fn turn_queued(old: GameEngine, new: GameEngine, name: Seq<char>, dir: Direction) -> bool {
    let p = old.players();
    &&& new.wf()
    &&& new.same_setting(&old)
    &&& new.absent() == old.absent()
    &&& has_name(p, name) ==> exists|i: int|
        0 <= i < p.len() && (#[trigger] p[i]).name == name && new.players() == p.update(
            i,
            queued(p[i], dir),
        )
    &&& !has_name(p, name) ==> new.players() == p
    &&& new.draws() == old.draws()
    &&& new.readings() == old.readings()
}

/// The length of a snake after its move in a tick: one more while it is growing.
pub open spec fn advanced_len(m: SnakeModel) -> int {
    if m.growing > 0 {
        m.body.len() + 1int
    } else {
        m.body.len() as int
    }
}

/// What a well-formed engine guarantees of its players.
pub proof fn wf_facts(e: GameEngine)
    requires
        e.wf(),
    ensures
        e.arena().wf(),
        names_distinct(e.players()),
        names_distinct(snakes_of(e.absent())),
        forall|i: int, j: int|
            0 <= i < e.players().len() && 0 <= j < e.absent().len() ==> #[trigger] e.players()[i].name
                != #[trigger] snakes_of(e.absent())[j].name,
        forall|i: int| 0 <= i < e.players().len() ==> (#[trigger] e.players()[i]).body.len() > 0,
        forall|i: int| 0 <= i < e.absent().len() ==> (#[trigger] e.absent()[i]).0.body.len() > 0,
{
    assert forall|i: int| 0 <= i < e.absent().len() implies (#[trigger] e.absent()[i]).0.body.len() > 0 by {
        assert(snakes_of(e.absent())[i] == e.absent()[i].0);
    }
}

/// An engine whose board is sound, whose names are unique among the players
/// in play, among those who left and across both, and whose snakes all have a
/// head, is well formed; with `wf_facts`, this is what `wf` means. It gives
/// `wf` back after the players were changed through `active_players_mut` or
/// `disconnected_players_mut`.
pub proof fn wf_from_facts(e: GameEngine)
    requires
        e.arena().wf(),
        names_distinct(e.players()),
        names_distinct(snakes_of(e.absent())),
        forall|i: int, j: int|
            0 <= i < e.players().len() && 0 <= j < e.absent().len() ==> #[trigger] e.players()[i].name
                != #[trigger] snakes_of(e.absent())[j].name,
        forall|i: int| 0 <= i < e.players().len() ==> (#[trigger] e.players()[i]).body.len() > 0,
        forall|i: int| 0 <= i < e.absent().len() ==> (#[trigger] e.absent()[i]).0.body.len() > 0,
    ensures
        e.wf(),
{
    assert forall|i: int| 0 <= i < snakes_of(e.absent()).len() implies (#[trigger] snakes_of(e.absent())[i]).body.len()
        > 0 by {
        assert(snakes_of(e.absent())[i] == e.absent()[i].0);
    }
}

} // verus!
