//! Properties of the game that span several operations or hold of every input.

use vstd::prelude::*;

use crate::config::{hex_digit, palette_color};
use crate::game::board::{on_board, wrapped};
use crate::game::board::Position;
use crate::game::engine::{
    added, advanced_len, age_secs, ages_at, crowned, fed, has_name, lemma_recent_keeps, moved, names_distinct,
    purged_at, recent, removed, restarts, snakes_of, someone_eats, tick_outcome, ticked, took_reading, wins,
    GameEngine, TickResult,
};
use crate::game::snake::{ahead, advanced, fresh_body, queued, turned, Direction, SnakeModel};
use crate::net::session::{name_in_use, SessionManager};

verus! {

/// A heading's opposite's opposite is the heading itself, and opposite
/// headings step in opposite directions.
pub proof fn opposite_is_an_involution(d: Direction)
    ensures
        d.opposite().opposite() == d,
        d.opposite() != d,
        d.opposite().delta().0 == -d.delta().0,
        d.opposite().delta().1 == -d.delta().1,
{
}

/// The wire number of a heading reads back as that heading, and a number that
/// reads as a heading is that heading's number.
pub proof fn wire_numbers_round_trip(d: Direction, v: u8)
    ensures
        Direction::from_u8(d.to_u8()) == Some(d),
        Direction::from_u8(v) matches Some(e) ==> e.to_u8() == v,
        Direction::from_u8(v) is Some <==> v < 4,
{
}

/// Wrapping lands on the board, and shifting by a whole board changes nothing.
pub proof fn wrapping_is_periodic(width: int, height: int, x: int, y: int)
    requires
        0 < width <= u16::MAX + 1,
        0 < height <= u16::MAX + 1,
    ensures
        on_board(width, height, wrapped(width, height, x, y)),
        wrapped(width, height, x + width, y) == wrapped(width, height, x, y),
        wrapped(width, height, x, y + height) == wrapped(width, height, x, y),
        wrapped(width, height, x - width, y) == wrapped(width, height, x, y),
{
    vstd::arithmetic::div_mod::lemma_mod_bound(x, width);
    vstd::arithmetic::div_mod::lemma_mod_bound(y, height);
    vstd::arithmetic::div_mod::lemma_mod_add_multiples_vanish(x, width);
    vstd::arithmetic::div_mod::lemma_mod_add_multiples_vanish(y, height);
    vstd::arithmetic::div_mod::lemma_mod_sub_multiples_vanish(x, width);
}

/// The queued turn of a snake never points straight back.
pub open spec fn turn_is_safe(m: SnakeModel) -> bool {
    match m.next_dir {
        Some(d) => d != m.dir.opposite(),
        None => true,
    }
}

/// A snake never reverses onto itself: queuing any heading keeps the queued
/// turn safe, and taking a safe turn never points the snake back where it came
/// from; moving leaves the heading and the queued turn alone.
pub proof fn snakes_never_reverse(m: SnakeModel, d: Direction, width: int, height: int)
    requires
        turn_is_safe(m),
    ensures
        turn_is_safe(queued(m, d)),
        turned(m).dir != m.dir.opposite(),
        turned(queued(m, d)).dir != m.dir.opposite(),
        turn_is_safe(turned(m)),
        m.body.len() > 0 ==> advanced(m, width, height).dir == m.dir && advanced(
            m,
            width,
            height,
        ).next_dir == m.next_dir,
{
    opposite_is_an_involution(m.dir);
}

/// No snake dies in a tick and nobody is dropped: every player keeps its name
/// and place and has a head; crowns never go down, and a crown is added
/// exactly when the moved snake is long enough, resetting it to a fresh snake
/// of the starting length on the board. Any other snake moves its head one
/// cell in its (possibly just turned) heading and grows by one cell exactly
/// while it has growth pending.
pub proof fn ticks_keep_every_player(old: GameEngine, new: GameEngine, r: crate::game::engine::TickResult)
    requires
        old.wf(),
        ticked(old, new, r),
    ensures
        new.players().len() == old.players().len(),
        forall|i: int|
            0 <= i < old.players().len() ==> {
                let m = old.players()[i];
                let n = #[trigger] new.players()[i];
                let k = moved(m, old.arena().width as int, old.arena().height as int);
                &&& n.name == m.name
                &&& n.body.len() > 0
                &&& n.crowns >= m.crowns
                &&& wins(k, old.win_len()) ==> n.crowns == m.crowns + 1 && n.body.len() == (if old.start_len()
                    == 0 {
                    1
                } else {
                    old.start_len() as int
                })
                &&& !wins(k, old.win_len()) ==> n.crowns == m.crowns && n.body.len() == advanced_len(m)
                    && n.body[0] == ahead(
                    m.body[0],
                    turned(m).dir,
                    old.arena().width as int,
                    old.arena().height as int,
                )
            },
{
    let w = old.arena().width as int;
    let h = old.arena().height as int;
    assert forall|i: int| 0 <= i < old.players().len() implies {
        let m = old.players()[i];
        let n = #[trigger] new.players()[i];
        let k = moved(m, w, h);
        &&& n.name == m.name
        &&& n.body.len() > 0
        &&& n.crowns >= m.crowns
        &&& wins(k, old.win_len()) ==> n.crowns == m.crowns + 1 && n.body.len() == (if old.start_len() == 0 {
            1
        } else {
            old.start_len() as int
        })
        &&& !wins(k, old.win_len()) ==> n.crowns == m.crowns && n.body.len() == advanced_len(m)
            && n.body[0] == ahead(m.body[0], turned(m).dir, w, h)
    } by {
        let m = old.players()[i];
        let n = new.players()[i];
        let k = moved(m, w, h);
        assert(tick_outcome(m, n, old.arena().food, w, h, old.start_len(), old.win_len()));
        assert(new.wf());
        crate::game::engine::wf_facts(new);
        crate::game::engine::wf_facts(old);
        if wins(k, old.win_len()) {
            assert(crowned(k, n, old.start_len(), w, h));
            let p = choose|p: crate::game::board::Position|
                on_board(w, h, p) && n.body == fresh_body(p, Direction::Right, old.start_len(), w, h);
        } else {
            assert(n == fed(k, old.arena().food));
        }
    }
}

/// A player who leaves and joins again gets its snake back exactly as it was
/// (head, body, heading, crowns), in a game that held no more players than
/// it allows.
pub proof fn rejoining_restores_the_snake(
    e0: GameEngine,
    e1: GameEngine,
    e2: GameEngine,
    name: Seq<char>,
    r: Result<(), crate::game::engine::EngineError>,
)
    requires
        e0.wf(),
        e0.players().len() <= e0.capacity(),
        has_name(e0.players(), name),
        removed(e0, e1, name),
        added(e1, e2, name, r),
    ensures
        r is Ok,
        e2.absent() == e0.absent(),
        e2.players().len() == e0.players().len(),
        exists|i: int|
            0 <= i < e0.players().len() && (#[trigger] e0.players()[i]).name == name && e2.players()
                == e0.players().remove(i).push(e0.players()[i]),
{
    let i = choose|i: int|
        0 <= i < e0.players().len() && (#[trigger] e0.players()[i]).name == name && e1.players()
            == e0.players().remove(i) && e1.absent().drop_last() == e0.absent() && e1.absent().len()
            == e0.absent().len() + 1 && e1.absent().last().0 == e0.players()[i];
    let p0 = e0.players();
    let a1 = e1.absent();
    let last = a1.len() - 1;
    assert(snakes_of(a1)[last].name == name);
    assert(has_name(snakes_of(a1), name));
    assert(!has_name(e1.players(), name)) by {
        if has_name(e1.players(), name) {
            let k = choose|k: int| 0 <= k < e1.players().len() && e1.players()[k].name == name;
            crate::game::engine::wf_facts(e0);
            let kk = if k < i { k } else { k + 1 };
            assert(e1.players()[k] == p0[kk]);
        }
    }
    let j = choose|j: int|
        0 <= j < a1.len() && (#[trigger] a1[j]).0.name == name && e2.players() == e1.players().push(
            a1[j].0,
        ) && e2.absent() == a1.remove(j);
    assert(j == last) by {
        if j != last {
            crate::game::engine::wf_facts(e1);
            assert(snakes_of(a1)[j].name == name);
        }
    }
    assert(e2.absent() =~= e0.absent());
}

/// Once a connection ends, the name it played under is free again.
pub proof fn leaving_frees_the_name(m: SessionManager, id: u64, name: Seq<char>)
    requires
        m.wf(),
        m.table().contains_key(id),
        m.table()[id] == Some(name),
    ensures
        !name_in_use(m.table().remove(id), name),
{
    if name_in_use(m.table().remove(id), name) {
        let k = choose|k: u64| m.table().remove(id).contains_key(k) && m.table().remove(id)[k] == Some(name);
        assert(m.table().contains_key(k) && k != id);
    }
}

/// `m1` is `m0` after a `connect` that handed out `id` (see
/// `SessionManager::connect`).
pub open spec fn connected(m0: SessionManager, m1: SessionManager, id: u64) -> bool {
    &&& id == m0.counter()
    &&& m1.counter() == m0.counter() + 1
    &&& m1.table() == m0.table().insert(id, None)
}

/// `ms` is a run of the connection bookkeeping: step `k` leads from `ms[k]` to
/// `ms[k + 1]`, and is a `connect` that handed out `id` when `ids[k]` is
/// `Some(id)`, or else an operation that leaves the counter alone (`promote`,
/// `disconnect`, a look).
pub open spec fn session_run(ms: Seq<SessionManager>, ids: Seq<Option<u64>>) -> bool {
    &&& ms.len() == ids.len() + 1
    &&& forall|k: int|
        0 <= k < ids.len() ==> match #[trigger] ids[k] {
            Some(id) => connected(ms[k], ms[k + 1], id),
            None => ms[k + 1].counter() == ms[k].counter(),
        }
}

/// Along a run, the counter never goes down.
proof fn lemma_counter_grows(ms: Seq<SessionManager>, ids: Seq<Option<u64>>, a: int, b: int)
    requires
        session_run(ms, ids),
        0 <= a <= b < ms.len(),
    ensures
        ms[a].counter() <= ms[b].counter(),
    decreases b - a,
{
    if a < b {
        lemma_counter_grows(ms, ids, a, b - 1);
        if ids[b - 1] is Some {
            assert(connected(ms[b - 1], ms[b], ids[b - 1].unwrap()));
        }
    }
}

/// Session numbers are never reused: along any run of the connection
/// bookkeeping, two different connects hand out two different numbers, even
/// when connections end in between; and each number handed out was not in use.
pub proof fn session_ids_are_never_reused(ms: Seq<SessionManager>, ids: Seq<Option<u64>>)
    requires
        session_run(ms, ids),
        forall|k: int| 0 <= k < ms.len() ==> (#[trigger] ms[k]).wf(),
    ensures
        forall|a: int, b: int|
            0 <= a < ids.len() && 0 <= b < ids.len() && a != b && #[trigger] ids[a] is Some
                && #[trigger] ids[b] is Some ==> ids[a] != ids[b],
        forall|a: int| 0 <= a < ids.len() && #[trigger] ids[a] is Some ==> !ms[a].table().contains_key(
            ids[a].unwrap(),
        ),
{
    assert forall|a: int, b: int|
        0 <= a < ids.len() && 0 <= b < ids.len() && a < b && #[trigger] ids[a] is Some
            && #[trigger] ids[b] is Some implies ids[a] != ids[b] by {
        assert(connected(ms[a], ms[a + 1], ids[a].unwrap()));
        assert(connected(ms[b], ms[b + 1], ids[b].unwrap()));
        lemma_counter_grows(ms, ids, a + 1, b);
    }
    assert forall|a: int| 0 <= a < ids.len() && #[trigger] ids[a] is Some implies !ms[a].table().contains_key(
        ids[a].unwrap(),
    ) by {
        assert(connected(ms[a], ms[a + 1], ids[a].unwrap()));
        assert(ms[a].wf());
    }
}

/// Every palette colour is `#` and six upper-case hexadecimal digits.
pub proof fn palette_colors_are_hex(i: int, n: int)
    requires
        0 <= i < n,
    ensures
        palette_color(i, n).len() == 7,
        palette_color(i, n)[0] == '#',
        forall|k: int|
            1 <= k < 7 ==> {
                let c = #[trigger] palette_color(i, n)[k];
                ('0' <= c <= '9') || ('A' <= c <= 'F')
            },
{
    assert forall|v: int| #![trigger hex_digit(v)] ('0' <= hex_digit(v) <= '9') || ('A' <= hex_digit(v) <= 'F') by {}
}

/// An entry of a disconnected list stays in what `recent` keeps exactly when
/// its age is below the timeout (names being unique).
proof fn lemma_recent_member(s: Seq<(SnakeModel, u64)>, ages: Seq<u64>, timeout_s: u64, k: int)
    requires
        ages.len() == s.len(),
        names_distinct(snakes_of(s)),
        0 <= k < s.len(),
    ensures
        has_name(snakes_of(recent(s, ages, timeout_s)), s[k].0.name) <==> ages[k] < timeout_s,
    decreases s.len(),
{
    let d = s.drop_last();
    let ad = ages.take(s.len() - 1);
    let last = s.len() - 1;
    let name = s[k].0.name;
    let rest = recent(d, ad, timeout_s);
    assert(names_distinct(snakes_of(d))) by {
        assert forall|i: int, j: int| 0 <= i < d.len() && 0 <= j < d.len() && i != j implies snakes_of(
            d,
        )[i].name != snakes_of(d)[j].name by {
            assert(snakes_of(d)[i] == snakes_of(s)[i]);
            assert(snakes_of(d)[j] == snakes_of(s)[j]);
        }
    }
    lemma_recent_keeps(d, ad, timeout_s);
    if k == last {
        assert(!has_name(snakes_of(rest), name)) by {
            if has_name(snakes_of(rest), name) {
                let j = choose|j: int| 0 <= j < snakes_of(rest).len() && snakes_of(rest)[j].name == name;
                let m = choose|m: int| 0 <= m < d.len() && #[trigger] rest[j] == d[m];
                assert(snakes_of(s)[m].name == snakes_of(s)[last].name);
            }
        }
        if ages[last] < timeout_s {
            let kept = rest.push(s.last());
            assert(snakes_of(kept)[rest.len() as int].name == name);
        }
    } else {
        lemma_recent_member(d, ad, timeout_s, k);
        assert(ad[k] == ages[k]);
        assert(d[k] == s[k]);
        if ages[last] < timeout_s {
            let kept = rest.push(s.last());
            assert(snakes_of(s)[last].name != snakes_of(s)[k].name);
            if has_name(snakes_of(rest), name) {
                let j = choose|j: int| 0 <= j < snakes_of(rest).len() && snakes_of(rest)[j].name == name;
                assert(snakes_of(kept)[j].name == name);
            }
            if has_name(snakes_of(kept), name) {
                let j = choose|j: int| 0 <= j < snakes_of(kept).len() && snakes_of(kept)[j].name == name;
                assert(j != rest.len());
                assert(snakes_of(rest)[j].name == name);
            }
        }
    }
}

/// A purge by the game's clock forgets exactly the players who left at least
/// `timeout_s` seconds before the reading that the purge took: an entry
/// stamped `t` stays exactly when the time from `t` to the purge's reading
/// `now` (none if `now` comes first) is under `timeout_s` seconds, counted in
/// nanoseconds.
pub proof fn purge_forgets_exactly_the_old(e1: GameEngine, e2: GameEngine, timeout_s: u64)
    requires
        e1.wf(),
        took_reading(e1, e2),
        purged_at(e1, e2, e2.readings().last(), timeout_s),
    ensures
        forall|k: int|
            0 <= k < e1.absent().len() ==> (has_name(snakes_of(e2.absent()), #[trigger] e1.absent()[k].0.name) <==> {
                let t = e1.absent()[k].1 as int;
                let now = e2.readings().last() as int;
                (if now >= t { now - t } else { 0 }) < timeout_s as int * 1_000_000_000
            }),
{
    crate::game::engine::wf_facts(e1);
    let now = e2.readings().last();
    assert forall|k: int| 0 <= k < e1.absent().len() implies (has_name(
        snakes_of(e2.absent()),
        #[trigger] e1.absent()[k].0.name,
    ) <==> {
        let t = e1.absent()[k].1 as int;
        (if now >= t { now - t } else { 0 }) < timeout_s as int * 1_000_000_000
    }) by {
        let s = e1.absent();
        let ages = ages_at(s, now);
        lemma_recent_member(s, ages, timeout_s, k);
        let t = s[k].1;
        assert(ages[k] == age_secs(t, now));
        if now >= t {
            let diff = (now - t) as int;
            assert(((diff / 1_000_000_000) < timeout_s as int) <==> (diff < timeout_s as int * 1_000_000_000))
                by (nonlinear_arith)
                requires
                    diff >= 0,
            ;
        }
    }
}

/// A player who leaves is kept for a rejoin by a later purge exactly while the
/// time from the clock reading taken when it left to the purge's reading (none
/// if the latter comes first) is under `timeout_s` seconds.
pub proof fn leavers_are_kept_exactly_while_young(
    e0: GameEngine,
    e1: GameEngine,
    e2: GameEngine,
    name: Seq<char>,
    timeout_s: u64,
)
    requires
        e0.wf(),
        has_name(e0.players(), name),
        removed(e0, e1, name),
        took_reading(e0, e1),
        e1.absent().last().1 == e1.readings().last(),
        took_reading(e1, e2),
        purged_at(e1, e2, e2.readings().last(), timeout_s),
    ensures
        has_name(snakes_of(e2.absent()), name) <==> {
            let left = e1.readings().last() as int;
            let now = e2.readings().last() as int;
            (if now >= left { now - left } else { 0 }) < timeout_s as int * 1_000_000_000
        },
{
    let last = e1.absent().len() - 1;
    let i = choose|i: int|
        0 <= i < e0.players().len() && (#[trigger] e0.players()[i]).name == name && e1.players()
            == e0.players().remove(i) && e1.absent().drop_last() == e0.absent() && e1.absent().len()
            == e0.absent().len() + 1 && e1.absent().last().0 == e0.players()[i];
    assert(e1.absent()[last].0.name == name);
    purge_forgets_exactly_the_old(e1, e2, timeout_s);
}

/// When some player, once turned and moved, has its head on the food, the tick
/// moves the food to the cell whose coordinates are the next two numbers drawn
/// from the game's generator (`x` then `y`), on the board; the draws before
/// them are those made before the tick.
pub proof fn eating_respawns_the_food_at_the_next_draw(old: GameEngine, new: GameEngine, r: TickResult)
    requires
        old.wf(),
        ticked(old, new, r),
        someone_eats(old.players(), old.arena().food, old.arena().width as int, old.arena().height as int),
    ensures
        new.draws().len() >= old.draws().len() + 2,
        new.draws().take(old.draws().len() as int) == old.draws(),
        r.food.x as int == new.draws()[old.draws().len() as int],
        r.food.y as int == new.draws()[old.draws().len() as int + 1],
        r.food.x < new.arena().width && r.food.y < new.arena().height,
{
    let n = old.draws().len() as int;
    let rs = restarts(old.players(), new.players(), old.arena().width as int, old.arena().height as int, old.win_len());
    let fd = seq![new.arena().food.x as u64, new.arena().food.y as u64];
    assert(new.draws() == old.draws() + fd + rs);
    assert(new.draws()[n] == fd[0]);
    assert(new.draws()[n + 1] == fd[1]);
    assert(new.draws().take(n) =~= old.draws());
    crate::game::engine::wf_facts(new);
}

/// A name that is neither in play nor among those who left joins a game with
/// room on a fresh snake whose head is the cell whose coordinates are the next
/// two numbers drawn from the game's generator (`x` then `y`), on the board.
pub proof fn newcomers_start_at_the_next_draw(
    e0: GameEngine,
    e1: GameEngine,
    name: Seq<char>,
    r: Result<(), crate::game::engine::EngineError>,
)
    requires
        e0.wf(),
        !has_name(e0.players(), name),
        !has_name(snakes_of(e0.absent()), name),
        e0.players().len() < e0.capacity(),
        added(e0, e1, name, r),
    ensures
        r is Ok,
        e1.players().len() == e0.players().len() + 1,
        e1.players().last().name == name,
        e1.draws().len() == e0.draws().len() + 2,
        e1.draws().take(e0.draws().len() as int) == e0.draws(),
        e1.players().last().body[0].x as int == e1.draws()[e0.draws().len() as int],
        e1.players().last().body[0].y as int == e1.draws()[e0.draws().len() as int + 1],
        e1.players().last().body[0].x < e0.arena().width,
        e1.players().last().body[0].y < e0.arena().height,
{
    let n = e0.draws().len() as int;
    let head = e1.players().last().body[0];
    assert(e1.draws() == e0.draws().push(head.x as u64).push(head.y as u64));
    assert(e1.draws().take(n) =~= e0.draws());
    let p = choose|p: Position|
        on_board(e0.arena().width as int, e0.arena().height as int, p) && e1.players().last().body
            == fresh_body(p, Direction::Right, e0.start_len(), e0.arena().width as int, e0.arena().height as int);
    assert(e1.players().last().body[0] == p);
}

} // verus!
