//! The messages of the wire protocol, as plain values, and how the engine's
//! results become server messages. Their MessagePack form (a map per message,
//! tagged by a `type` field in snake case) is made outside this library.

use vstd::prelude::*;

use crate::game::board::Position;
use crate::game::engine::{CrownEvent, SnakeState, TickResult};

verus! {

/// What a client sends.
#[derive(Debug)]
pub enum ClientMessage {
    /// Asks to play under `username`.
    Join { username: String },
    /// Asks to turn; `dir` is a wire number (see `Direction::from_u8`).
    Turn { dir: u8 },
}

/// What the server sends.
#[derive(Clone, Debug)]
pub enum ServerMessage {
    /// The whole game after a tick.
    State { tick: u64, food: [u16; 2], snakes: Vec<SnakeData> },
    /// A player earned a crown and now holds `crowns` of them.
    Crown { name: String, crowns: u32 },
    /// The ranking of every known player.
    Leaderboard { players: Vec<LeaderboardEntry> },
    /// A request was refused.
    Error { msg: String },
}

/// A snake on the wire: its cells as `[x, y]`, head first, and its heading's number.
#[derive(Clone, Debug)]
pub struct SnakeData {
    pub name: String,
    pub body: Vec<[u16; 2]>,
    pub dir: u8,
    pub crowns: u32,
}

/// A line of the leaderboard. A player who left shows length 0 and `alive` false.
#[derive(Clone, Debug)]
pub struct LeaderboardEntry {
    pub name: String,
    pub crowns: u32,
    pub length: u16,
    pub alive: bool,
}

/// A cell as the pair `[x, y]`.
pub open spec fn pair_of(p: Position) -> [u16; 2] {
    [p.x, p.y]
}

/// `d` carries the snapshot `s`.
pub open spec fn carries(d: SnakeData, s: SnakeState) -> bool {
    &&& d.name@ == s.name@
    &&& d.body@ == s.body@.map_values(|p: Position| pair_of(p))
    &&& d.dir == s.dir.to_u8()
    &&& d.crowns == s.crowns
}

/// `m` is the `State` message of the tick result `r`: its number, the food as
/// `[x, y]`, and every snapshot in order.
pub open spec fn reports_tick(m: ServerMessage, r: TickResult) -> bool {
    m matches ServerMessage::State { tick, food, snakes } && {
        &&& tick == r.tick
        &&& food == pair_of(r.food)
        &&& snakes@.len() == r.snakes@.len()
        &&& forall|i: int| 0 <= i < snakes@.len() ==> carries(#[trigger] snakes@[i], r.snakes@[i])
    }
}

/// `m` is the `Crown` message of the crown event `c`.
pub open spec fn reports_crown(m: ServerMessage, c: CrownEvent) -> bool {
    m matches ServerMessage::Crown { name, crowns } && name@ == c.name@ && crowns == c.crowns
}

/// `m` is an `Error` message with the text `t`.
pub open spec fn reports_error(m: ServerMessage, t: Seq<char>) -> bool {
    m matches ServerMessage::Error { msg } && msg@ == t
}

/// The cells of a body as pairs.
fn pairs_of(body: &Vec<Position>) -> (v: Vec<[u16; 2]>)
    ensures
        v@ == body@.map_values(|p: Position| pair_of(p)),
{
    let mut v: Vec<[u16; 2]> = Vec::new();
    let mut k: usize = 0;
    while k < body.len()
        invariant
            k <= body@.len(),
            v@ == body@.take(k as int).map_values(|p: Position| pair_of(p)),
        decreases body@.len() - k,
    {
        let p = body[k];
        v.push([p.x, p.y]);
        proof {
            assert(body@.take(k + 1).map_values(|p: Position| pair_of(p)) =~= body@.take(
                k as int,
            ).map_values(|p: Position| pair_of(p)).push(pair_of(p)));
        }
        k = k + 1;
    }
    assert(body@.take(body@.len() as int) =~= body@);
    v
}

impl SnakeData {
    /// The wire form of a snapshot.
    pub fn from_state(s: &SnakeState) -> (d: SnakeData)
        ensures
            carries(d, *s),
    {
        SnakeData {
            name: s.name.clone(),
            body: pairs_of(&s.body),
            dir: s.dir.to_u8(),
            crowns: s.crowns,
        }
    }
}

impl ServerMessage {
    /// The `State` message of a tick: its number, the food as `[x, y]`, and
    /// every snapshot in order.
    pub fn from_tick(result: &TickResult) -> (m: ServerMessage)
        ensures
            reports_tick(m, *result),
    {
        let mut snakes: Vec<SnakeData> = Vec::new();
        let mut i: usize = 0;
        while i < result.snakes.len()
            invariant
                i <= result.snakes@.len(),
                snakes@.len() == i,
                forall|j: int| 0 <= j < i ==> carries(#[trigger] snakes@[j], result.snakes@[j]),
            decreases result.snakes@.len() - i,
        {
            snakes.push(SnakeData::from_state(&result.snakes[i]));
            i = i + 1;
        }
        ServerMessage::State { tick: result.tick, food: [result.food.x, result.food.y], snakes }
    }

    /// The `Crown` message of a crown event.
    pub fn from_crown(event: &CrownEvent) -> (m: ServerMessage)
        ensures
            reports_crown(m, *event),
    {
        ServerMessage::Crown { name: event.name.clone(), crowns: event.crowns }
    }
}

} // verus!
