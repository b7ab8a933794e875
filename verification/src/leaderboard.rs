//! The ranking of every known player: most crowns first, then longest first.

use vstd::prelude::*;

use crate::game::engine::{snakes_of, GameEngine};
use crate::game::snake::SnakeModel;
use crate::net::protocol::LeaderboardEntry;

verus! {

broadcast use vstd::seq_lib::group_to_multiset_ensures;

/// A leaderboard line as plain values: name, crowns, length, in play.
pub type EntryModel = (Seq<char>, u32, u16, bool);

/// The view of a leaderboard line.
pub open spec fn entry_view(e: LeaderboardEntry) -> EntryModel {
    (e.name@, e.crowns, e.length, e.alive)
}

/// The line of a player in play: its length (as a `u16`, wrapping) and `alive`.
pub open spec fn line_in_play(m: SnakeModel) -> EntryModel {
    (m.name, m.crowns, #[verifier::truncate] (m.body.len() as u16), true)
}

/// The line of a player who left: length 0, not alive.
pub open spec fn line_gone(m: SnakeModel) -> EntryModel {
    (m.name, m.crowns, 0u16, false)
}

/// `a` ranks strictly below `b`: fewer crowns, or as many and shorter.
pub open spec fn below(a: EntryModel, b: EntryModel) -> bool {
    a.1 < b.1 || (a.1 == b.1 && a.2 < b.2)
}

/// No line ranks below a later one.
pub open spec fn ranked(s: Seq<EntryModel>) -> bool {
    forall|i: int, j: int| 0 <= i < j < s.len() ==> !below(#[trigger] s[i], #[trigger] s[j])
}

/// The lines of the engine before ranking: those in play, then those who left.
pub open spec fn unranked(engine: &GameEngine) -> Seq<EntryModel> {
    engine.players().map_values(|m: SnakeModel| line_in_play(m)) + snakes_of(engine.absent()).map_values(
        |m: SnakeModel| line_gone(m),
    )
}

/// Whether `a` ranks strictly below `b`.
fn ranks_below(a: &LeaderboardEntry, b: &LeaderboardEntry) -> (r: bool)
    ensures
        r == below(entry_view(*a), entry_view(*b)),
{
    a.crowns < b.crowns || (a.crowns == b.crowns && a.length < b.length)
}

/// Puts `e` into the ranked `lines`, after every line it does not rank above.
fn insert_ranked(lines: &mut Vec<LeaderboardEntry>, e: LeaderboardEntry)
    requires
        ranked(old(lines)@.map_values(|x: LeaderboardEntry| entry_view(x))),
    ensures
        ranked(final(lines)@.map_values(|x: LeaderboardEntry| entry_view(x))),
        final(lines)@.map_values(|x: LeaderboardEntry| entry_view(x)).to_multiset() == old(
            lines,
        )@.map_values(|x: LeaderboardEntry| entry_view(x)).to_multiset().insert(entry_view(e)),
{
    let ghost before = lines@.map_values(|x: LeaderboardEntry| entry_view(x));
    let mut p: usize = 0;
    while p < lines.len() && !ranks_below(&lines[p], &e)
        invariant
            p <= lines@.len(),
            before == lines@.map_values(|x: LeaderboardEntry| entry_view(x)),
            forall|k: int| 0 <= k < p ==> !below(before[k], entry_view(e)),
        decreases lines@.len() - p,
    {
        p = p + 1;
    }
    let ghost v = entry_view(e);
    lines.insert(p, e);
    proof {
        let after = lines@.map_values(|x: LeaderboardEntry| entry_view(x));
        assert(after =~= before.insert(p as int, v));
        // Every line from `p` on ranks below `e`.
        assert forall|k: int| p <= k < before.len() implies below(#[trigger] before[k], v) by {
            if p < before.len() {
                assert(below(before[p as int], v));
                if k > p {
                    assert(!below(before[p as int], before[k]));
                }
            }
        }
        assert forall|i: int, j: int| 0 <= i < j < after.len() implies !below(
            #[trigger] after[i],
            #[trigger] after[j],
        ) by {
            if j < p {
                assert(after[i] == before[i] && after[j] == before[j]);
            } else if j == p {
                assert(after[i] == before[i]);
            } else if i < p {
                assert(after[i] == before[i] && after[j] == before[j - 1]);
                assert(!below(before[i], v));
                assert(below(before[j - 1], v));
            } else if i == p {
                assert(after[j] == before[j - 1]);
                assert(below(before[j - 1], v));
            } else {
                assert(after[i] == before[i - 1] && after[j] == before[j - 1]);
            }
        }
        assert(after.to_multiset() == before.to_multiset().insert(v));
    }
}

/// Every known player, ranked by crowns and then by length, both from most to
/// least. A player in play shows its length and `alive`; a player who left shows
/// length 0 and not `alive`.
pub fn compute(engine: &GameEngine) -> (entries: Vec<LeaderboardEntry>)
    ensures
        ranked(entries@.map_values(|x: LeaderboardEntry| entry_view(x))),
        entries@.map_values(|x: LeaderboardEntry| entry_view(x)).to_multiset() == unranked(
            engine,
        ).to_multiset(),
{
    let active = engine.active_players();
    let gone = engine.disconnected_players();
    let ghost all = unranked(engine);
    let ghost na = active@.len();
    let mut entries: Vec<LeaderboardEntry> = Vec::new();
    let mut i: usize = 0;
    while i < active.len()
        invariant
            i <= active@.len(),
            na == active@.len(),
            all == unranked(engine),
            active@.map_values(|s: crate::game::snake::Snake| s@) == engine.players(),
            ranked(entries@.map_values(|x: LeaderboardEntry| entry_view(x))),
            entries@.map_values(|x: LeaderboardEntry| entry_view(x)).to_multiset() == all.take(
                i as int,
            ).to_multiset(),
        decreases active@.len() - i,
    {
        let s = &active[i];
        let line = LeaderboardEntry {
            name: s.name.clone(),
            crowns: s.crowns,
            length: s.len() as u16,
            alive: true,
        };
        proof {
            assert(engine.players()[i as int] == active@[i as int]@);
            assert(entry_view(line) == all[i as int]);
            assert(all.take(i + 1) =~= all.take(i as int).push(all[i as int]));
        }
        insert_ranked(&mut entries, line);
        i = i + 1;
    }
    let mut k: usize = 0;
    while k < gone.len()
        invariant
            k <= gone@.len(),
            na == engine.players().len(),
            all == unranked(engine),
            all.len() == na + gone@.len(),
            gone@.map_values(|e: (crate::game::snake::Snake, u64)| crate::game::engine::absent_view(e))
                == engine.absent(),
            ranked(entries@.map_values(|x: LeaderboardEntry| entry_view(x))),
            entries@.map_values(|x: LeaderboardEntry| entry_view(x)).to_multiset() == all.take(
                na + k,
            ).to_multiset(),
        decreases gone@.len() - k,
    {
        let s = &gone[k].0;
        let line = LeaderboardEntry { name: s.name.clone(), crowns: s.crowns, length: 0, alive: false };
        proof {
            assert(snakes_of(engine.absent())[k as int] == gone@[k as int].0@);
            assert(entry_view(line) == all[na + k]);
            assert(all.take(na + k + 1) =~= all.take(na + k).push(all[na + k]));
        }
        insert_ranked(&mut entries, line);
        k = k + 1;
    }
    proof {
        assert(all.take(all.len() as int) =~= all);
    }
    entries
}

} // verus!
