//! The library's laws: properties that relate several operations or
//! characterize whole command sequences, stated and proved once.

use vstd::prelude::*;

use crate::commands::{
    cmd_apples, cmd_boots, cmd_chestplate, cmd_helmet, cmd_leggings, cmd_sword, cmd_weakness,
    fill_cmd, kth_offset, player_start_cmds, roster_start_cmds, start_cmds, stop_cmds,
    ARENA_HEIGHT, CMDS_PER_PLAYER, START,
};
use crate::store::{game_wf, has_game, in_roster, store_wf, GameV, PlayerV};
use crate::store::SLOT_WINDOW;

verus! {

/// In a well-formed store a player name is never on both rosters of one
/// game. Every store operation takes a well-formed store to a well-formed
/// store, and a new store is well-formed, so this holds after any
/// sequence of add and remove operations.
pub proof fn lemma_rosters_disjoint(s: Seq<GameV>, i: int, name: Seq<char>)
    requires
        store_wf(s),
        0 <= i < s.len(),
    ensures
        !(in_roster(s[i].blue, name) && in_roster(s[i].red, name)),
{
    if in_roster(s[i].blue, name) && in_roster(s[i].red, name) {
        let a = choose|a: int| 0 <= a < s[i].blue.len() && s[i].blue[a].name == name;
        let b = choose|b: int| 0 <= b < s[i].red.len() && s[i].red[b].name == name;
        assert(game_wf(s[i]));
        assert(s[i].blue[a].name != s[i].red[b].name);
    }
}

/// After a game is removed, no game of its name remains in the store; a
/// later add-game of the name therefore creates a brand-new game, and a
/// later add-player naming it finds no game and changes nothing.
pub proof fn lemma_removed_game_absent(s: Seq<GameV>, i: int)
    requires
        store_wf(s),
        0 <= i < s.len(),
    ensures
        !has_game(s.remove(i), s[i].name),
{
    let t = s.remove(i);
    assert forall|j: int| 0 <= j < t.len() implies t[j].name != s[i].name by {
        if j < i {
            assert(t[j] == s[j]);
        } else {
            assert(t[j] == s[j + 1]);
        }
    }
}

/// A roster's start commands take a fixed number of slots per player.
pub proof fn lemma_roster_start_cmds_len(ps: Seq<PlayerV>, offset: int)
    ensures
        roster_start_cmds(ps, offset).len() == ps.len() * (CMDS_PER_PLAYER as int),
    decreases ps.len(),
{
    if ps.len() > 0 {
        lemma_roster_start_cmds_len(ps.drop_first(), offset);
        assert(ps.len() * (CMDS_PER_PLAYER as int) == CMDS_PER_PLAYER + (ps.len() - 1) * (
        CMDS_PER_PLAYER as int)) by (nonlinear_arith);
    }
}

/// The start transition's output, command by command: exactly one arena
/// command first, then, for the i-th player of the roster (blue players
/// before red ones), the fixed per-player sequence with that player's
/// name — its teleport x offset is +10 for a blue player and -10 for a
/// red one, by the definition of `player_start_cmds` and `team_x`.
pub proof fn lemma_start_cmds_shape(ps: Seq<PlayerV>, offset: int, i: int, j: int)
    requires
        0 <= i < ps.len(),
        0 <= j < CMDS_PER_PLAYER,
    ensures
        start_cmds(ps, offset).len() == 1 + ps.len() * (CMDS_PER_PLAYER as int),
        start_cmds(ps, offset)[0] == fill_cmd(offset),
        start_cmds(ps, offset)[1 + i * (CMDS_PER_PLAYER as int) + j] == player_start_cmds(
            ps[i],
            offset,
        )[j],
{
    lemma_roster_start_cmds_len(ps, offset);
    lemma_roster_start_cmds_at(ps, offset, i, j);
    assert(start_cmds(ps, offset)[1 + i * (CMDS_PER_PLAYER as int) + j] == roster_start_cmds(
        ps,
        offset,
    )[i * (CMDS_PER_PLAYER as int) + j]);
}

/// Within a roster's start commands, the block of the i-th player holds
/// that player's fixed sequence.
pub proof fn lemma_roster_start_cmds_at(ps: Seq<PlayerV>, offset: int, i: int, j: int)
    requires
        0 <= i < ps.len(),
        0 <= j < CMDS_PER_PLAYER,
    ensures
        roster_start_cmds(ps, offset)[i * (CMDS_PER_PLAYER as int) + j] == player_start_cmds(
            ps[i],
            offset,
        )[j],
    decreases i,
{
    lemma_roster_start_cmds_len(ps.drop_first(), offset);
    if i == 0 {
        assert(roster_start_cmds(ps, offset)[j] == player_start_cmds(ps[0], offset)[j]);
    } else {
        lemma_roster_start_cmds_at(ps.drop_first(), offset, i - 1, j);
        assert(ps.drop_first()[i - 1] == ps[i]);
        assert(i * (CMDS_PER_PLAYER as int) + j - CMDS_PER_PLAYER == (i - 1) * (
        CMDS_PER_PLAYER as int) + j) by (nonlinear_arith);
        assert(roster_start_cmds(ps, offset)[i * (CMDS_PER_PLAYER as int) + j]
            == roster_start_cmds(ps.drop_first(), offset)[(i - 1) * (CMDS_PER_PLAYER as int) + j]);
    }
}

/// The stop transition's output: exactly one weakness debuff per player,
/// in roster order (blue players before red ones), and never an arena or
/// an equipment command.
pub proof fn lemma_stop_cmds_shape(ps: Seq<PlayerV>)
    ensures
        stop_cmds(ps).len() == ps.len(),
        forall|i: int|
            0 <= i < ps.len() ==> #[trigger] stop_cmds(ps)[i] == cmd_weakness(ps[i].name),
        forall|i: int, off: int|
            0 <= i < ps.len() ==> #[trigger] stop_cmds(ps)[i] != #[trigger] fill_cmd(off),
        forall|i: int, n: Seq<char>|
            0 <= i < ps.len() ==> #[trigger] stop_cmds(ps)[i] != #[trigger] cmd_helmet(n)
                && stop_cmds(ps)[i] != cmd_chestplate(n) && stop_cmds(ps)[i] != cmd_leggings(n)
                && stop_cmds(ps)[i] != cmd_boots(n) && stop_cmds(ps)[i] != cmd_sword(n)
                && stop_cmds(ps)[i] != cmd_apples(n),
{
    assert forall|i: int, off: int| 0 <= i < ps.len() implies #[trigger] stop_cmds(ps)[i]
        != #[trigger] fill_cmd(off) by {
        lemma_weakness_unlike_others(ps[i].name, Seq::empty(), off);
    }
    assert forall|i: int, n: Seq<char>| 0 <= i < ps.len() implies #[trigger] stop_cmds(ps)[i]
        != #[trigger] cmd_helmet(n) && stop_cmds(ps)[i] != cmd_chestplate(n) && stop_cmds(ps)[i]
        != cmd_leggings(n) && stop_cmds(ps)[i] != cmd_boots(n) && stop_cmds(ps)[i] != cmd_sword(n)
        && stop_cmds(ps)[i] != cmd_apples(n) by {
        lemma_weakness_unlike_others(ps[i].name, n, 0);
    }
}

/// The weakness debuff is no arena, armor, or give command, whatever
/// names and offset they carry: the texts differ in their first letters.
proof fn lemma_weakness_unlike_others(n1: Seq<char>, n2: Seq<char>, off: int)
    ensures
        cmd_weakness(n1) != fill_cmd(off),
        cmd_weakness(n1) != cmd_helmet(n2),
        cmd_weakness(n1) != cmd_chestplate(n2),
        cmd_weakness(n1) != cmd_leggings(n2),
        cmd_weakness(n1) != cmd_boots(n2),
        cmd_weakness(n1) != cmd_sword(n2),
        cmd_weakness(n1) != cmd_apples(n2),
{
    reveal_strlit("/effect ");
    reveal_strlit("fill ");
    reveal_strlit("/replaceitem entity ");
    reveal_strlit("/give ");
    assert(cmd_weakness(n1)[0] == '/');
    assert(cmd_weakness(n1)[1] == 'e');
    assert(fill_cmd(off)[0] == 'f');
    assert(cmd_helmet(n2)[1] == 'r');
    assert(cmd_chestplate(n2)[1] == 'r');
    assert(cmd_leggings(n2)[1] == 'r');
    assert(cmd_boots(n2)[1] == 'r');
    assert(cmd_sword(n2)[1] == 'g');
    assert(cmd_apples(n2)[1] == 'g');
}

/// The arena slot of the k-th start transition ever taken, whatever game
/// took it: the first slot plus the window position times the slot
/// height.
pub proof fn lemma_kth_offset(k: nat)
    ensures
        kth_offset(k) == START as int + (k % (SLOT_WINDOW as nat)) * (ARENA_HEIGHT as int),
{
}

} // verus!
