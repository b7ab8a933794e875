//! The server's decisions: what a connection does with each frame it reads,
//! what the game loop does with each command and each tick, and what the health
//! port answers. Sockets, channels and timers are handled outside the library.

use vstd::prelude::*;

use crate::config::GameConfig;
use crate::game::engine::{
    added, has_name, purged, removed, snakes_of, ticked, turn_queued, wf_facts, EngineError, GameEngine, TickResult,
};
use crate::game::snake::{Direction, SnakeModel};
use crate::leaderboard::{compute, entry_view, ranked, unranked};
use crate::net::chaos::{is_multiple_of, multiple_of, valid_payload, ChaosInjector, ChaosPayload};
use crate::net::protocol::{reports_crown, reports_error, reports_tick, LeaderboardEntry, ServerMessage};
use crate::net::session::{name_in_use, Session, SessionError, SessionId, SessionManager};

verus! {

/// What a connection asks of the game loop.
#[derive(Debug)]
pub enum Command {
    /// The connection wants to play under `username`.
    Join { session: SessionId, username: String },
    /// The connection's player wants to turn; `dir` is a wire number.
    Turn { session: SessionId, dir: u8 },
    /// The connection has closed.
    Disconnect { session: SessionId },
}

/// What a connection asks of the session bookkeeping.
#[derive(Debug)]
pub enum SessionMgrOp {
    /// A new connection wants a number.
    Connect,
}

/// A frame that a connection read, once decoded.
pub enum Inbound {
    /// A binary frame holding a `join` message.
    Join { username: String },
    /// A binary frame holding a `turn` message.
    Turn { dir: u8 },
    /// A binary frame that holds no client message.
    Malformed,
    /// A text frame.
    Text,
    /// A close frame, or a read error.
    Close,
    /// Any other frame (ping, pong).
    Other,
}

/// What a connection does about a frame.
pub enum Reaction {
    /// Send this message to this client only.
    Reply(ServerMessage),
    /// Pass this command to the game loop.
    Forward(Command),
    /// Stop reading.
    Stop,
    /// Nothing.
    Ignore,
}

/// A connection's own state: its number, and whether it has asked to play.
pub struct Connection {
    pub session: SessionId,
    pub is_player: bool,
}

/// `r` replies with an error whose text is `t`.
pub open spec fn replies_error(r: Reaction, t: Seq<char>) -> bool {
    r matches Reaction::Reply(m) && reports_error(m, t)
}

/// An `Error` message with the given text.
fn error_message(text: &str) -> (m: ServerMessage)
    ensures
        reports_error(m, text@),
{
    ServerMessage::Error { msg: text.to_owned() }
}

impl Connection {
    /// A fresh connection under number `session`, not yet a player.
    pub fn new(session: SessionId) -> (c: Connection)
        ensures
            c.session == session,
            !c.is_player,
    {
        Connection { session, is_player: false }
    }

    /// What to do about a frame. A second `join` is refused ("already joined"),
    /// as is an empty name ("empty username"); any other `join` goes to the game
    /// loop and makes the connection a player. A `turn` before any `join` is
    /// refused ("not a player"); after it, it goes to the game loop. A frame that
    /// holds no message, and a text frame, are answered with an error ("malformed
    /// message", "expected binary frames"); a close frame stops the connection.
    pub fn react(&mut self, inbound: Inbound) -> (r: Reaction)
        ensures
            final(self).session == old(self).session,
            match inbound {
                Inbound::Join { username } => if old(self).is_player {
                    replies_error(r, "already joined"@) && final(self).is_player
                } else if username@.len() == 0 {
                    replies_error(r, "empty username"@) && !final(self).is_player
                } else {
                    final(self).is_player && (r matches Reaction::Forward(Command::Join { session, username: u })
                        && session == old(self).session && u@ == username@)
                },
                Inbound::Turn { dir } => final(self).is_player == old(self).is_player && if old(
                    self,
                ).is_player {
                    (r matches Reaction::Forward(Command::Turn { session, dir: d }) && session == old(
                        self,
                    ).session && d == dir)
                } else {
                    replies_error(r, "not a player"@)
                },
                Inbound::Malformed => replies_error(r, "malformed message"@) && final(self).is_player
                    == old(self).is_player,
                Inbound::Text => replies_error(r, "expected binary frames"@) && final(self).is_player
                    == old(self).is_player,
                Inbound::Close => r is Stop && final(self).is_player == old(self).is_player,
                Inbound::Other => r is Ignore && final(self).is_player == old(self).is_player,
            },
    {
        match inbound {
            Inbound::Join { username } => {
                if self.is_player {
                    return Reaction::Reply(error_message("already joined"));
                }
                if username.as_str().is_empty() {
                    return Reaction::Reply(error_message("empty username"));
                }
                self.is_player = true;
                Reaction::Forward(Command::Join { session: self.session, username })
            },
            Inbound::Turn { dir } => {
                if !self.is_player {
                    return Reaction::Reply(error_message("not a player"));
                }
                Reaction::Forward(Command::Turn { session: self.session, dir })
            },
            Inbound::Malformed => Reaction::Reply(error_message("malformed message")),
            Inbound::Text => Reaction::Reply(error_message("expected binary frames")),
            Inbound::Close => Reaction::Stop,
            Inbound::Other => Reaction::Ignore,
        }
    }

    /// The command that tells the game loop this connection has closed.
    pub fn farewell(&self) -> (c: Command)
        ensures
            c matches Command::Disconnect { session } && session == self.session,
    {
        Command::Disconnect { session: self.session }
    }
}

/// The name under which the connection `id` plays, if it is a player.
pub fn session_username(mgr: &SessionManager, id: SessionId) -> (r: Option<String>)
    ensures
        match r {
            Some(name) => mgr.table().contains_key(id@) && mgr.table()[id@] == Some(name@),
            None => !mgr.table().contains_key(id@) || mgr.table()[id@] is None,
        },
{
    match mgr.get(id) {
        Some(Session::Player { username }) => Some(username.clone()),
        _ => None,
    }
}

/// What the game loop sends to every client.
pub enum Outgoing {
    /// A protocol message.
    Broadcast(ServerMessage),
    /// A frame of chaos.
    Chaos(ChaosPayload),
}

/// `out` is what a tick announces, given the tick's result `r`, the engine
/// `after` right after the tick, the loop's tick count `count` and the reading
/// `chaos_on` of the chaos switch: each crown in order, then the state; then,
/// exactly when chaos is on and `count` is a multiple of `chaos_every`, a frame
/// of chaos; then, exactly when `count` is a multiple of `lb_every`, the
/// leaderboard of `after`.
pub open spec fn announces(
    out: Seq<Outgoing>,
    r: TickResult,
    after: GameEngine,
    count: u64,
    lb_every: u64,
    chaos_every: u64,
    chaos_on: bool,
) -> bool {
    let c = r.crowns@.len() as int;
    let lb: int = if multiple_of(count, lb_every) { 1 } else { 0 };
    let extra = out.len() - (c + 1) - lb;
    &&& extra == 0 || extra == 1
    &&& forall|i: int|
        0 <= i < c ==> (#[trigger] out[i] matches Outgoing::Broadcast(m) && reports_crown(m, r.crowns@[i]))
    &&& (out[c] matches Outgoing::Broadcast(m) && reports_tick(m, r))
    &&& extra == 1 <==> (chaos_on && multiple_of(count, chaos_every))
    &&& extra == 1 ==> (out[c + 1] matches Outgoing::Chaos(p) && valid_payload(p, count))
    &&& lb == 1 ==> (out.last() matches Outgoing::Broadcast(ServerMessage::Leaderboard { players }) && {
        &&& ranked(players@.map_values(|x: LeaderboardEntry| entry_view(x)))
        &&& players@.map_values(|x: LeaderboardEntry| entry_view(x)).to_multiset() == unranked(
            &after,
        ).to_multiset()
    })
}

/// Every snake of `p` is called as some player of `t`.
pub open spec fn in_use(p: Seq<SnakeModel>, t: Map<u64, Option<Seq<char>>>) -> bool {
    forall|i: int| 0 <= i < p.len() ==> name_in_use(t, (#[trigger] p[i]).name)
}

/// A `join` of a connection that was a spectator keeps every player in play
/// linked, the newcomer included.
proof fn lemma_join_links(
    g0: GameEngine,
    g1: GameEngine,
    t: Map<u64, Option<Seq<char>>>,
    session: u64,
    name: Seq<char>,
    r: Result<(), EngineError>,
)
    requires
        in_use(g0.players(), t),
        t.contains_key(session),
        t[session] is None,
        added(g0, g1, name, r),
    ensures
        in_use(g1.players(), t.insert(session, Some(name))),
{
    let p = g0.players();
    let a = g0.absent();
    let t1 = t.insert(session, Some(name));
    assert forall|i: int| 0 <= i < g1.players().len() implies name_in_use(t1, (#[trigger] g1.players()[i]).name) by {
        let q = g1.players()[i];
        if q.name == name {
            assert(t1.contains_key(session) && t1[session] == Some(name));
        } else {
            if has_name(p, name) {
                assert(q == p[i]);
            } else if has_name(snakes_of(a), name) {
                let j = choose|j: int|
                    0 <= j < a.len() && (#[trigger] a[j]).0.name == name && g1.players() == p.push(a[j].0)
                        && g1.absent() == a.remove(j);
                assert(i < p.len());
                assert(q == p[i]);
            } else if g1.players() == p {
                assert(q == p[i]);
            } else {
                assert(i != g1.players().len() - 1);
                assert(q == g1.players().drop_last()[i]);
                assert(q == p[i]);
            }
            assert(name_in_use(t, p[i].name));
            let k = choose|k: u64| t.contains_key(k) && t[k] == Some(q.name);
            assert(k != session);
            assert(t1.contains_key(k) && t1[k] == Some(q.name));
        }
    }
}

/// A `disconnect` keeps every player in play linked: the snake of the
/// connection that left, if it played, leaves play with it.
proof fn lemma_leave_links(g0: GameEngine, g1: GameEngine, t: Map<u64, Option<Seq<char>>>, session: u64)
    requires
        in_use(g0.players(), t),
        g0.wf(),
        t.contains_key(session) && t[session] is Some ==> removed(g0, g1, t[session].unwrap()),
        !(t.contains_key(session) && t[session] is Some) ==> g1.players() == g0.players(),
    ensures
        in_use(g1.players(), t.remove(session)),
{
    let p = g0.players();
    let t1 = t.remove(session);
    wf_facts(g0);
    assert forall|i: int| 0 <= i < g1.players().len() implies name_in_use(t1, (#[trigger] g1.players()[i]).name) by {
        let q = g1.players()[i];
        if t.contains_key(session) && t[session] is Some {
            let name = t[session].unwrap();
            if has_name(p, name) {
                let n = choose|n: int|
                    0 <= n < p.len() && (#[trigger] p[n]).name == name && g1.players() == p.remove(n)
                        && g1.absent().drop_last() == g0.absent() && g1.absent().len() == g0.absent().len() + 1
                        && g1.absent().last().0 == p[n];
                let m = if i < n { i } else { i + 1 };
                assert(q == p[m]);
                assert(q.name != name);
                assert(name_in_use(t, p[m].name));
            } else {
                assert(q == p[i]);
                assert(q.name != name);
                assert(name_in_use(t, p[i].name));
            }
        } else {
            assert(q == p[i]);
            assert(name_in_use(t, p[i].name));
        }
        let k = choose|k: u64| t.contains_key(k) && t[k] == Some(q.name);
        assert(k != session);
        assert(t1.contains_key(k) && t1[k] == Some(q.name));
    }
}

/// The game loop's state: the engine, the connections, the chaos source, the
/// number of ticks played, and the intervals it keeps.
pub struct GameLoop {
    engine: GameEngine,
    sessions: SessionManager,
    chaos: ChaosInjector,
    tick_count: u64,
    leaderboard_interval_ticks: u64,
    disconnect_timeout_s: u64,
}

impl GameLoop {
    /// The engine.
    pub closed spec fn game(&self) -> GameEngine {
        self.engine
    }

    /// The connections.
    pub closed spec fn registry(&self) -> SessionManager {
        self.sessions
    }

    /// The number of ticks the loop has played.
    pub closed spec fn count(&self) -> u64 {
        self.tick_count
    }

    /// The number of ticks between two leaderboards.
    pub closed spec fn leaderboard_every(&self) -> u64 {
        self.leaderboard_interval_ticks
    }

    /// The number of ticks between two bursts of chaos.
    pub closed spec fn chaos_every(&self) -> u64 {
        self.chaos.interval()
    }

    /// How long, in seconds, a player who left may come back.
    pub closed spec fn timeout(&self) -> u64 {
        self.disconnect_timeout_s
    }

    /// The engine and the connections are each consistent, chaos has an
    /// interval, and the loop has counted the ticks that the engine played.
    pub open spec fn sound(&self) -> bool {
        &&& self.game().wf()
        &&& self.registry().wf()
        &&& self.chaos_every() > 0
        &&& self.count() == self.game().ticks()
    }

    /// Every player in play has a connection that plays under its name.
    pub open spec fn linked(&self) -> bool {
        in_use(self.game().players(), self.registry().table())
    }

    /// `cmd` is a `join` from a connection that already plays under some name.
    /// A connection never sends one (see `Connection::react`); carried out, it
    /// would leave the first name in play with no connection behind it.
    pub open spec fn rejoins(&self, cmd: Command) -> bool {
        cmd matches Command::Join { session, .. } && self.registry().table().contains_key(session@)
            && self.registry().table()[session@] is Some
    }

    /// The loop is sound and every player in play is linked to a connection.
    pub open spec fn wf(&self) -> bool {
        &&& self.sound()
        &&& self.linked()
    }

    /// The loop for the settings `config`: an empty game on a board of the
    /// configured size with the configured rules, no connections, no ticks.
    pub fn new(config: &GameConfig, rng: rand::rngs::StdRng, chaos: ChaosInjector) -> (g: GameLoop)
        requires
            config.board_width > 0,
            config.board_height > 0,
            chaos.interval() > 0,
        ensures
            g.wf(),
            g.game().arena().width == config.board_width,
            g.game().arena().height == config.board_height,
            g.game().start_len() == config.snake_start_length,
            g.game().win_len() == config.snake_win_length,
            g.game().capacity() == config.max_players,
            g.game().ticks() == 0,
            g.game().players().len() == 0,
            g.game().absent().len() == 0,
            g.registry().table() == Map::<u64, Option<Seq<char>>>::empty(),
            g.count() == 0,
            g.leaderboard_every() == config.leaderboard_interval_ticks,
            g.timeout() == config.disconnect_timeout_s,
            g.chaos_every() == chaos.interval(),
    {
        let engine = GameEngine::new(
            config.board_width,
            config.board_height,
            config.snake_start_length,
            config.snake_win_length,
            config.max_players,
            rng,
        );
        GameLoop {
            engine,
            sessions: SessionManager::new(),
            chaos,
            tick_count: 0,
            leaderboard_interval_ticks: config.leaderboard_interval_ticks,
            disconnect_timeout_s: config.disconnect_timeout_s,
        }
    }

    /// The engine.
    pub fn engine(&self) -> (e: &GameEngine)
        ensures
            *e == self.game(),
    {
        &self.engine
    }

    /// The connections.
    pub fn sessions(&self) -> (m: &SessionManager)
        ensures
            *m == self.registry(),
    {
        &self.sessions
    }

    /// Whether the next tick can be played without overflow.
    pub fn can_tick(&self) -> (r: bool)
        ensures
            r == (self.count() < u64::MAX && self.game().ticks() < u64::MAX && forall|i: int|
                0 <= i < self.game().players().len() ==> (#[trigger] self.game().players()[i]).crowns
                    < u32::MAX),
    {
        self.tick_count < u64::MAX && self.engine.can_tick()
    }

    /// Whether another connection can get a number.
    pub fn can_connect(&self) -> (r: bool)
        ensures
            r == (self.registry().counter() < u64::MAX),
    {
        self.sessions.has_room()
    }

    /// A new connection: a fresh number, as a spectator.
    pub fn on_connect(&mut self) -> (id: SessionId)
        requires
            old(self).sound(),
            old(self).registry().counter() < u64::MAX,
        ensures
            final(self).sound(),
            old(self).linked() ==> final(self).linked(),
            final(self).game() == old(self).game(),
            final(self).count() == old(self).count(),
            final(self).leaderboard_every() == old(self).leaderboard_every(),
            final(self).timeout() == old(self).timeout(),
            final(self).chaos_every() == old(self).chaos_every(),
            id@ == old(self).registry().counter(),
            final(self).registry().counter() == old(self).registry().counter() + 1,
            final(self).registry().table() == old(self).registry().table().insert(id@, None),
    {
        let id = self.sessions.connect();
        proof {
            let t = old(self).registry().table();
            assert forall|i: int| 0 <= i < self.game().players().len() && old(self).linked() implies name_in_use(
                self.registry().table(),
                (#[trigger] self.game().players()[i]).name,
            ) by {
                let name = self.game().players()[i].name;
                assert(name_in_use(t, name));
                let k = choose|k: u64| t.contains_key(k) && t[k] == Some(name);
                assert(self.registry().table().contains_key(k) && self.registry().table()[k] == Some(name));
            }
        }
        id
    }

    /// Carries out a command. A `join` makes the connection a player under the
    /// name, then lets that name into the game; a refusal by either is answered
    /// with its error text. A `turn` from a player with a valid heading number
    /// is queued for that player; anything else is dropped. A `disconnect` ends
    /// the connection and, for a player, takes the name out of play.
    #[verifier::rlimit(40)]
    pub fn on_command(&mut self, cmd: Command) -> (reply: Option<ServerMessage>)
        requires
            old(self).sound(),
        ensures
            final(self).sound(),
            old(self).linked() && !old(self).rejoins(cmd) ==> final(self).linked(),
            final(self).count() == old(self).count(),
            final(self).leaderboard_every() == old(self).leaderboard_every(),
            final(self).timeout() == old(self).timeout(),
            final(self).chaos_every() == old(self).chaos_every(),
            final(self).registry().counter() == old(self).registry().counter(),
            match cmd {
                Command::Join { session, username } => {
                    let t = old(self).registry().table();
                    if name_in_use(t, username@) {
                        &&& (reply matches Some(m) && reports_error(m, SessionError::UsernameTaken.text()))
                        &&& final(self).registry().table() == t
                        &&& final(self).game() == old(self).game()
                    } else if !t.contains_key(session@) {
                        &&& (reply matches Some(m) && reports_error(m, SessionError::NotFound.text()))
                        &&& final(self).registry().table() == t
                        &&& final(self).game() == old(self).game()
                    } else {
                        &&& final(self).registry().table() == t.insert(session@, Some(username@))
                        &&& old(self).linked() ==> (reply is None || (reply matches Some(m) && reports_error(
                            m,
                            EngineError::ServerFull.text(),
                        )))
                        &&& exists|r: Result<(), EngineError>|
                            added(old(self).game(), final(self).game(), username@, r) && match r {
                                Ok(()) => reply is None,
                                Err(e) => reply matches Some(m) && reports_error(m, e.text()),
                            }
                    }
                },
                Command::Turn { session, dir } => {
                    let t = old(self).registry().table();
                    &&& reply is None
                    &&& final(self).registry().table() == t
                    &&& if t.contains_key(session@) && t[session@] is Some && Direction::from_u8(dir) is Some {
                        turn_queued(
                            old(self).game(),
                            final(self).game(),
                            t[session@].unwrap(),
                            Direction::from_u8(dir).unwrap(),
                        )
                    } else {
                        final(self).game() == old(self).game()
                    }
                },
                Command::Disconnect { session } => {
                    let t = old(self).registry().table();
                    &&& reply is None
                    &&& final(self).registry().table() == t.remove(session@)
                    &&& if t.contains_key(session@) && t[session@] is Some {
                        removed(old(self).game(), final(self).game(), t[session@].unwrap())
                    } else {
                        final(self).game() == old(self).game()
                    }
                },
            },
    {
        let ghost g0 = self.engine;
        let ghost t = self.sessions.table();
        match cmd {
            Command::Join { session, username } => {
                match self.sessions.promote(session, username.clone()) {
                    Ok(()) => {
                        let ghost name = username@;
                        let r = self.engine.add_player(username);
                        proof {
                            if old(self).linked() {
                                assert(!has_name(g0.players(), name)) by {
                                    if has_name(g0.players(), name) {
                                        let i = choose|i: int| 0 <= i < g0.players().len() && g0.players()[i].name == name;
                                        assert(name_in_use(t, g0.players()[i].name));
                                    }
                                }
                                if t[session@] is None {
                                    lemma_join_links(g0, self.engine, t, session@, name, r);
                                }
                            }
                        }
                        match r {
                            Ok(()) => None,
                            Err(e) => Some(error_message(e.message())),
                        }
                    },
                    Err(e) => Some(error_message(e.message())),
                }
            },
            Command::Turn { session, dir } => {
                if let Some(username) = session_username(&self.sessions, session) {
                    if let Some(direction) = Direction::from_u8(dir) {
                        self.engine.queue_turn(username.as_str(), direction);
                    }
                }
                proof {
                    assert forall|i: int| 0 <= i < self.engine.players().len() && old(self).linked() implies name_in_use(
                        t,
                        (#[trigger] self.engine.players()[i]).name,
                    ) by {
                        assert(self.engine.players()[i].name == g0.players()[i].name);
                    }
                }
                None
            },
            Command::Disconnect { session } => {
                let prev = self.sessions.disconnect(session);
                if let Some(Session::Player { username }) = prev {
                    self.engine.remove_player(username.as_str());
                }
                proof {
                    if old(self).linked() {
                        lemma_leave_links(g0, self.engine, t, session@);
                    }
                }
                None
            },
        }
    }

    /// What the chaos switch reads now; the reading to hand to `on_tick`.
    pub fn chaos_switch_on(&self) -> bool {
        self.chaos.is_on()
    }

    /// Plays one tick and says what to send: each crown, the state, a frame of
    /// chaos when `chaos_on` (the switch's reading) holds and the tick count is
    /// a multiple of the chaos interval, and the leaderboard every
    /// `leaderboard_interval_ticks` ticks. Every 50 ticks the players who left
    /// too long ago are forgotten.
    #[verifier::rlimit(40)]
    pub fn on_tick(&mut self, chaos_on: bool) -> (out: Vec<Outgoing>)
        requires
            old(self).sound(),
            old(self).count() < u64::MAX,
            old(self).game().ticks() < u64::MAX,
            forall|i: int|
                0 <= i < old(self).game().players().len() ==> (#[trigger] old(self).game().players()[i]).crowns
                    < u32::MAX,
        ensures
            final(self).sound(),
            old(self).linked() ==> final(self).linked(),
            final(self).count() == old(self).count() + 1,
            final(self).registry() == old(self).registry(),
            final(self).leaderboard_every() == old(self).leaderboard_every(),
            final(self).timeout() == old(self).timeout(),
            final(self).chaos_every() == old(self).chaos_every(),
            exists|r: TickResult, after: GameEngine|
                {
                    &&& ticked(old(self).game(), after, r)
                    &&& announces(
                        out@,
                        r,
                        after,
                        final(self).count(),
                        old(self).leaderboard_every(),
                        old(self).chaos_every(),
                        chaos_on,
                    )
                    &&& if multiple_of(final(self).count(), 50) {
                        purged(after, final(self).game(), old(self).timeout())
                    } else {
                        final(self).game() == after
                    }
                },
    {
        let result = self.engine.tick();
        let ghost after = self.engine;
        self.tick_count = self.tick_count + 1;
        let mut out: Vec<Outgoing> = Vec::new();
        let mut i: usize = 0;
        while i < result.crowns.len()
            invariant
                i <= result.crowns@.len(),
                out@.len() == i,
                forall|j: int|
                    0 <= j < i ==> (#[trigger] out@[j] matches Outgoing::Broadcast(m) && reports_crown(
                        m,
                        result.crowns@[j],
                    )),
            decreases result.crowns@.len() - i,
        {
            out.push(Outgoing::Broadcast(ServerMessage::from_crown(&result.crowns[i])));
            i = i + 1;
        }
        out.push(Outgoing::Broadcast(ServerMessage::from_tick(&result)));
        if let Some(payload) = self.chaos.generate_when(chaos_on, self.tick_count) {
            out.push(Outgoing::Chaos(payload));
        }
        if is_multiple_of(self.tick_count, self.leaderboard_interval_ticks) {
            let players = compute(&self.engine);
            out.push(Outgoing::Broadcast(ServerMessage::Leaderboard { players }));
        }
        if is_multiple_of(self.tick_count, 50) {
            self.engine.purge_stale(self.disconnect_timeout_s);
        }
        proof {
            assert(announces(
                out@,
                result,
                after,
                self.tick_count,
                self.leaderboard_interval_ticks,
                self.chaos.interval(),
                chaos_on,
            ));
        }
        out
    }
}

/// What the health port was asked.
#[derive(Clone, Copy, PartialEq, Eq, Debug, Structural)]
pub enum HealthRoute {
    /// `POST /chaos/on`: switch chaos on.
    ChaosOn,
    /// `POST /chaos/off`: switch chaos off.
    ChaosOff,
    /// Anything else: the health check.
    Health,
}

/// The request line `POST /chaos/on`, as bytes.
pub open spec fn chaos_on_line() -> Seq<u8> {
    seq![80u8, 79u8, 83u8, 84u8, 32u8, 47u8, 99u8, 104u8, 97u8, 111u8, 115u8, 47u8, 111u8, 110u8]
}

/// The request line `POST /chaos/off`, as bytes.
pub open spec fn chaos_off_line() -> Seq<u8> {
    seq![80u8, 79u8, 83u8, 84u8, 32u8, 47u8, 99u8, 104u8, 97u8, 111u8, 115u8, 47u8, 111u8, 102u8, 102u8]
}

/// `req` opens with `head` as a whole: what follows it, if anything, is a
/// space or the end of the line.
pub open spec fn opens_with(req: Seq<u8>, head: Seq<u8>) -> bool {
    &&& req.len() >= head.len()
    &&& req.take(head.len() as int) == head
    &&& req.len() == head.len() || req[head.len() as int] == 32u8 || req[head.len() as int] == 13u8
        || req[head.len() as int] == 10u8
}

/// Whether `req` opens with `head` as a whole.
fn opens_with_bytes(req: &[u8], head: &Vec<u8>) -> (r: bool)
    ensures
        r == opens_with(req@, head@),
{
    if req.len() < head.len() {
        return false;
    }
    let mut i: usize = 0;
    while i < head.len()
        invariant
            i <= head@.len(),
            head@.len() <= req@.len(),
            forall|j: int| 0 <= j < i ==> req@[j] == head@[j],
        decreases head@.len() - i,
    {
        if req[i] != head[i] {
            assert(req@.take(head@.len() as int)[i as int] != head@[i as int]);
            return false;
        }
        i = i + 1;
    }
    assert(req@.take(head@.len() as int) =~= head@);
    if req.len() == head.len() {
        return true;
    }
    let next = req[head.len()];
    next == 32 || next == 13 || next == 10
}

/// Which route a request to the health port asks for, by its request line:
/// `POST /chaos/on`, `POST /chaos/off`, or anything else.
pub fn route_health(request: &[u8]) -> (r: HealthRoute)
    ensures
        r == (if opens_with(request@, chaos_on_line()) {
            HealthRoute::ChaosOn
        } else if opens_with(request@, chaos_off_line()) {
            HealthRoute::ChaosOff
        } else {
            HealthRoute::Health
        }),
{
    let on: Vec<u8> = vec![80u8, 79, 83, 84, 32, 47, 99, 104, 97, 111, 115, 47, 111, 110];
    let off: Vec<u8> = vec![80u8, 79, 83, 84, 32, 47, 99, 104, 97, 111, 115, 47, 111, 102, 102];
    assert(on@ =~= chaos_on_line());
    assert(off@ =~= chaos_off_line());
    if opens_with_bytes(request, &on) {
        HealthRoute::ChaosOn
    } else if opens_with_bytes(request, &off) {
        HealthRoute::ChaosOff
    } else {
        HealthRoute::Health
    }
}

/// The HTTP response to a route: 200 with `chaos on`, `chaos off` (each with a
/// line break) or `ok`.
pub fn health_response(route: HealthRoute) -> (s: &'static str)
    ensures
        s@ == match route {
            HealthRoute::ChaosOn => "HTTP/1.1 200 OK\r\nContent-Length: 9\r\n\r\nchaos on\n"@,
            HealthRoute::ChaosOff => "HTTP/1.1 200 OK\r\nContent-Length: 10\r\n\r\nchaos off\n"@,
            HealthRoute::Health => "HTTP/1.1 200 OK\r\nContent-Length: 2\r\n\r\nok"@,
        },
{
    match route {
        HealthRoute::ChaosOn => "HTTP/1.1 200 OK\r\nContent-Length: 9\r\n\r\nchaos on\n",
        HealthRoute::ChaosOff => "HTTP/1.1 200 OK\r\nContent-Length: 10\r\n\r\nchaos off\n",
        HealthRoute::Health => "HTTP/1.1 200 OK\r\nContent-Length: 2\r\n\r\nok",
    }
}

/// The setting the chaos switch takes for a route: on, off, or left alone.
pub fn switch_for(route: HealthRoute) -> (r: Option<bool>)
    ensures
        r == match route {
            HealthRoute::ChaosOn => Some(true),
            HealthRoute::ChaosOff => Some(false),
            HealthRoute::Health => None::<bool>,
        },
{
    match route {
        HealthRoute::ChaosOn => Some(true),
        HealthRoute::ChaosOff => Some(false),
        HealthRoute::Health => None,
    }
}

} // verus!
