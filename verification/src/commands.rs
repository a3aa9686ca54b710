//! The remote-control command texts that a lifecycle transition emits,
//! stated as sequences of characters, and the verified builders that
//! produce them.

use vstd::prelude::*;

use crate::numtext::{int_str, push_i32_dec};
use crate::store::{Player, PlayerV, Team, SLOT_WINDOW};

verus! {

/// Arena extent along x.
pub const ARENA_WIDTH: i32 = 50;

/// Arena extent along y; also the vertical distance between two slots.
pub const ARENA_HEIGHT: i32 = 10;

/// Arena extent along z.
pub const ARENA_DEPTH: i32 = 50;

/// The vertical offset of the first arena slot.
pub const START: i32 = -40;

/// How many commands the start transition emits for one player.
pub const CMDS_PER_PLAYER: usize = 14;

/// The vertical arena offset used for the k-th start transition ever
/// taken: slots repeat over a fixed window, whatever game starts.
pub open spec fn kth_offset(k: nat) -> int {
    START as int + (k % (SLOT_WINDOW as nat)) * (ARENA_HEIGHT as int)
}

/// The lowest and highest offsets `kth_offset` can yield.
pub open spec fn offset_in_window(offset: int) -> bool {
    START as int <= offset <= START as int + (SLOT_WINDOW - 1) as int * ARENA_HEIGHT as int
}

/// The spawn-side x position: blue on one side, red on the other.
pub open spec fn team_x(team: Team) -> int {
    if team is Blue {
        10
    } else {
        -10
    }
}

/// The arena-preparation command: a hollow bedrock cuboid at the slot.
pub open spec fn fill_cmd(offset: int) -> Seq<char> {
    "fill "@ + int_str(ARENA_WIDTH as int / 2) + " "@ + int_str(offset) + " "@ + int_str(
        -(ARENA_DEPTH as int / 2),
    ) + " "@ + int_str(-(ARENA_WIDTH as int / 2)) + " "@ + int_str(offset + ARENA_HEIGHT as int)
        + " "@ + int_str(ARENA_DEPTH as int / 2) + " bedrock hollow"@
}

pub open spec fn cmd_keep_inventory() -> Seq<char> {
    "/gamerule keepinventory true"@
}

pub open spec fn cmd_helmet(name: Seq<char>) -> Seq<char> {
    "/replaceitem entity "@ + name + " slot.armor.head 1 iron_helmet"@
}

pub open spec fn cmd_chestplate(name: Seq<char>) -> Seq<char> {
    "/replaceitem entity "@ + name + " slot.armor.chest 1 iron_chestplate"@
}

pub open spec fn cmd_leggings(name: Seq<char>) -> Seq<char> {
    "/replaceitem entity "@ + name + " slot.armor.legs 1 iron_leggings"@
}

pub open spec fn cmd_boots(name: Seq<char>) -> Seq<char> {
    "/replaceitem entity "@ + name + " slot.armor.feet 1 iron_boots"@
}

pub open spec fn cmd_clear(name: Seq<char>) -> Seq<char> {
    "/clear "@ + name
}

pub open spec fn cmd_effect_clear(name: Seq<char>) -> Seq<char> {
    "/effect "@ + name + " clear"@
}

pub open spec fn cmd_heal(name: Seq<char>) -> Seq<char> {
    "/effect "@ + name + " instant_health 1 4"@
}

pub open spec fn cmd_night_vision(name: Seq<char>) -> Seq<char> {
    "/effect "@ + name + " night_vision 100000 1"@
}

pub open spec fn cmd_scoreboard(name: Seq<char>) -> Seq<char> {
    "/scoreboard teams add "@ + name + " "@
}

pub open spec fn cmd_sword(name: Seq<char>) -> Seq<char> {
    "/give "@ + name + " iron_sword 1"@
}

pub open spec fn cmd_apples(name: Seq<char>) -> Seq<char> {
    "/give "@ + name + " apple 16"@
}

pub open spec fn cmd_teleport(name: Seq<char>, x: int, y: int) -> Seq<char> {
    "/teleport "@ + name + " "@ + int_str(x) + " "@ + int_str(y) + " 0"@
}

/// The incapacitating debuff the stop transition applies to a player.
pub open spec fn cmd_weakness(name: Seq<char>) -> Seq<char> {
    "/effect "@ + name + " weakness 100000 255"@
}

/// The fixed per-player command sequence of a start transition: keep
/// inventory, a first helmet, clear inventory and effects, brief healing,
/// long night vision, a scoreboard team, the four armor pieces, a sword,
/// apples, and the teleport to the team's side of the arena slot.
pub open spec fn player_start_cmds(p: PlayerV, offset: int) -> Seq<Seq<char>> {
    seq![
        cmd_keep_inventory(),
        cmd_helmet(p.name),
        cmd_clear(p.name),
        cmd_effect_clear(p.name),
        cmd_heal(p.name),
        cmd_night_vision(p.name),
        cmd_scoreboard(p.name),
        cmd_helmet(p.name),
        cmd_chestplate(p.name),
        cmd_leggings(p.name),
        cmd_boots(p.name),
        cmd_sword(p.name),
        cmd_apples(p.name),
        cmd_teleport(p.name, team_x(p.team), offset + 3),
    ]
}

/// The start commands for a roster, one player's full sequence after
/// the previous player's.
pub open spec fn roster_start_cmds(ps: Seq<PlayerV>, offset: int) -> Seq<Seq<char>>
    decreases ps.len(),
{
    if ps.len() == 0 {
        Seq::empty()
    } else {
        player_start_cmds(ps[0], offset) + roster_start_cmds(ps.drop_first(), offset)
    }
}

/// Everything a start transition emits: the arena command first, then
/// each player's sequence in roster order.
pub open spec fn start_cmds(ps: Seq<PlayerV>, offset: int) -> Seq<Seq<char>> {
    seq![fill_cmd(offset)] + roster_start_cmds(ps, offset)
}

/// Everything a stop transition emits: one weakness debuff per player,
/// in roster order, and nothing else.
pub open spec fn stop_cmds(ps: Seq<PlayerV>) -> Seq<Seq<char>> {
    ps.map_values(|p: PlayerV| cmd_weakness(p.name))
}

/// Appending one player extends the roster's start commands by that
/// player's sequence.
pub proof fn lemma_roster_start_cmds_snoc(ps: Seq<PlayerV>, p: PlayerV, offset: int)
    ensures
        roster_start_cmds(ps.push(p), offset) == roster_start_cmds(ps, offset) + player_start_cmds(
            p,
            offset,
        ),
    decreases ps.len(),
{
    if ps.len() == 0 {
        assert(ps.push(p)[0] == p);
        assert(ps.push(p).drop_first() =~= Seq::<PlayerV>::empty());
        assert(roster_start_cmds(Seq::<PlayerV>::empty(), offset) == Seq::<Seq<char>>::empty());
        assert(roster_start_cmds(ps.push(p), offset) == player_start_cmds(p, offset)
            + Seq::<Seq<char>>::empty());
        assert(roster_start_cmds(ps.push(p), offset) =~~= roster_start_cmds(ps, offset)
            + player_start_cmds(p, offset));
    } else {
        assert(ps.push(p).drop_first() =~= ps.drop_first().push(p));
        lemma_roster_start_cmds_snoc(ps.drop_first(), p, offset);
        assert(roster_start_cmds(ps.push(p), offset) == player_start_cmds(ps[0], offset)
            + roster_start_cmds(ps.drop_first().push(p), offset));
        assert(roster_start_cmds(ps.push(p), offset) =~~= roster_start_cmds(ps, offset)
            + player_start_cmds(p, offset));
    }
}

/// Start commands of two rosters in a row concatenate.
pub proof fn lemma_roster_start_cmds_concat(a: Seq<PlayerV>, b: Seq<PlayerV>, offset: int)
    ensures
        roster_start_cmds(a + b, offset) == roster_start_cmds(a, offset) + roster_start_cmds(
            b,
            offset,
        ),
    decreases b.len(),
{
    if b.len() == 0 {
        assert(a + b =~= a);
        assert(roster_start_cmds(a + b, offset) =~~= roster_start_cmds(a, offset)
            + roster_start_cmds(b, offset));
    } else {
        let b0 = b.drop_last();
        assert(a + b =~= (a + b0).push(b.last()));
        assert(b =~= b0.push(b.last()));
        lemma_roster_start_cmds_concat(a, b0, offset);
        lemma_roster_start_cmds_snoc(a + b0, b.last(), offset);
        lemma_roster_start_cmds_snoc(b0, b.last(), offset);
        assert(roster_start_cmds(a + b, offset) =~~= roster_start_cmds(a, offset)
            + roster_start_cmds(b, offset));
    }
}

/// Joins a literal, a player name, and a literal into one command string.
fn cat_around(prefix: &str, name: &String, suffix: &str) -> (r: String)
    ensures
        r@ == prefix@ + name@ + suffix@,
{
    let mut s = prefix.to_owned();
    s.append(name.as_str());
    s.append(suffix);
    s
}

/// Builds the arena-preparation command for this slot offset.
pub fn build_fill(offset: i32) -> (r: String)
    requires
        offset_in_window(offset as int),
    ensures
        r@ == fill_cmd(offset as int),
{
    let x1 = ARENA_WIDTH / 2;
    let z1 = -(ARENA_DEPTH / 2);
    let x2 = -(ARENA_WIDTH / 2);
    let z2 = ARENA_DEPTH / 2;
    let mut s = "fill ".to_owned();
    push_i32_dec(&mut s, x1);
    s.append(" ");
    push_i32_dec(&mut s, offset);
    s.append(" ");
    push_i32_dec(&mut s, z1);
    s.append(" ");
    push_i32_dec(&mut s, x2);
    s.append(" ");
    push_i32_dec(&mut s, offset + ARENA_HEIGHT);
    s.append(" ");
    push_i32_dec(&mut s, z2);
    s.append(" bedrock hollow");
    s
}

/// Builds the teleport command to a spawn position.
fn build_teleport(name: &String, x: i32, y: i32) -> (r: String)
    requires
        x > i32::MIN,
        y > i32::MIN,
    ensures
        r@ == cmd_teleport(name@, x as int, y as int),
{
    let mut s = "/teleport ".to_owned();
    s.append(name.as_str());
    s.append(" ");
    push_i32_dec(&mut s, x);
    s.append(" ");
    push_i32_dec(&mut s, y);
    s.append(" 0");
    s
}

/// Appends one player's full start sequence to `cmds`.
fn emit_player_start(cmds: &mut Vec<String>, p: &Player, offset: i32)
    requires
        offset_in_window(offset as int),
    ensures
        final(cmds).deep_view() == old(cmds).deep_view() + player_start_cmds(
            p@,
            offset as int,
        ),
{
    let x = match p.team {
        Team::Blue => 10,
        Team::Red => -10,
    };
    cmds.push("/gamerule keepinventory true".to_owned());
    cmds.push(cat_around("/replaceitem entity ", &p.name, " slot.armor.head 1 iron_helmet"));
    cmds.push(cat_around("/clear ", &p.name, ""));
    cmds.push(cat_around("/effect ", &p.name, " clear"));
    cmds.push(cat_around("/effect ", &p.name, " instant_health 1 4"));
    cmds.push(cat_around("/effect ", &p.name, " night_vision 100000 1"));
    cmds.push(cat_around("/scoreboard teams add ", &p.name, " "));
    cmds.push(cat_around("/replaceitem entity ", &p.name, " slot.armor.head 1 iron_helmet"));
    cmds.push(cat_around("/replaceitem entity ", &p.name, " slot.armor.chest 1 iron_chestplate"));
    cmds.push(cat_around("/replaceitem entity ", &p.name, " slot.armor.legs 1 iron_leggings"));
    cmds.push(cat_around("/replaceitem entity ", &p.name, " slot.armor.feet 1 iron_boots"));
    cmds.push(cat_around("/give ", &p.name, " iron_sword 1"));
    cmds.push(cat_around("/give ", &p.name, " apple 16"));
    cmds.push(build_teleport(&p.name, x, offset + 3));
    proof {
        reveal_strlit("");
        assert(cmd_clear(p.name@) =~= "/clear "@ + p.name@ + ""@);
        assert(cmds.deep_view() =~~= old(cmds).deep_view() + player_start_cmds(
            p@,
            offset as int,
        ));
    }
}

/// Appends one roster's start sequences to `cmds`, in roster order.
fn emit_roster_start(cmds: &mut Vec<String>, ps: &Vec<Player>, offset: i32)
    requires
        offset_in_window(offset as int),
    ensures
        final(cmds).deep_view() == old(cmds).deep_view() + roster_start_cmds(
            ps.deep_view(),
            offset as int,
        ),
{
    let n = ps.len();
    let mut i: usize = 0;
    proof {
        assert(ps.deep_view().take(0) =~= Seq::<PlayerV>::empty());
        assert(cmds.deep_view() =~~= old(cmds).deep_view() + roster_start_cmds(
            ps.deep_view().take(0),
            offset as int,
        ));
    }
    while i < n
        invariant
            offset_in_window(offset as int),
            n == ps.deep_view().len(),
            i <= n,
            cmds.deep_view() == old(cmds).deep_view() + roster_start_cmds(
                ps.deep_view().take(i as int),
                offset as int,
            ),
        decreases n - i,
    {
        emit_player_start(cmds, &ps[i], offset);
        proof {
            assert(ps.deep_view()[i as int] == ps@[i as int]@);
            assert(ps.deep_view().take(i + 1) =~= ps.deep_view().take(i as int).push(
                ps.deep_view()[i as int],
            ));
            lemma_roster_start_cmds_snoc(
                ps.deep_view().take(i as int),
                ps.deep_view()[i as int],
                offset as int,
            );
            assert(cmds.deep_view() =~~= old(cmds).deep_view() + roster_start_cmds(
                ps.deep_view().take(i + 1),
                offset as int,
            ));
        }
        i += 1;
    }
    proof {
        assert(ps.deep_view().take(n as int) =~= ps.deep_view());
    }
}

/// Builds everything a start transition emits: the arena command, then
/// the blue players' sequences, then the red players'.
pub fn build_start_cmds(blue: &Vec<Player>, red: &Vec<Player>, offset: i32) -> (cmds: Vec<String>)
    requires
        offset_in_window(offset as int),
    ensures
        cmds.deep_view() == start_cmds(blue.deep_view() + red.deep_view(), offset as int),
{
    let mut cmds: Vec<String> = Vec::new();
    cmds.push(build_fill(offset));
    proof {
        assert(cmds.deep_view() =~~= seq![fill_cmd(offset as int)]);
    }
    emit_roster_start(&mut cmds, blue, offset);
    emit_roster_start(&mut cmds, red, offset);
    proof {
        lemma_roster_start_cmds_concat(blue.deep_view(), red.deep_view(), offset as int);
        assert(cmds.deep_view() =~~= start_cmds(
            blue.deep_view() + red.deep_view(),
            offset as int,
        ));
    }
    cmds
}

/// Builds everything a stop transition emits: one weakness debuff per
/// player, blue roster first, then red.
pub fn build_stop_cmds(blue: &Vec<Player>, red: &Vec<Player>) -> (cmds: Vec<String>)
    ensures
        cmds.deep_view() == stop_cmds(blue.deep_view() + red.deep_view()),
{
    let mut cmds: Vec<String> = Vec::new();
    emit_roster_stop(&mut cmds, blue);
    emit_roster_stop(&mut cmds, red);
    proof {
        assert(cmds.deep_view() =~~= stop_cmds(blue.deep_view() + red.deep_view()));
    }
    cmds
}

/// Appends one roster's stop command per player to `cmds`.
fn emit_roster_stop(cmds: &mut Vec<String>, ps: &Vec<Player>)
    ensures
        final(cmds).deep_view() == old(cmds).deep_view() + stop_cmds(ps.deep_view()),
{
    let n = ps.len();
    let mut i: usize = 0;
    proof {
        assert(cmds.deep_view() =~~= old(cmds).deep_view() + stop_cmds(
            ps.deep_view().take(0),
        ));
    }
    while i < n
        invariant
            n == ps.deep_view().len(),
            i <= n,
            cmds.deep_view() == old(cmds).deep_view() + stop_cmds(ps.deep_view().take(i as int)),
        decreases n - i,
    {
        let ghost pre = cmds.deep_view();
        let s = cat_around("/effect ", &ps[i].name, " weakness 100000 255");
        let ghost sv = s@;
        cmds.push(s);
        proof {
            assert(ps.deep_view()[i as int] == ps@[i as int]@);
            assert(sv == cmd_weakness(ps.deep_view()[i as int].name));
            assert(cmds.deep_view() =~~= pre.push(sv));
            assert(ps.deep_view().take(i + 1) =~= ps.deep_view().take(i as int).push(
                ps.deep_view()[i as int],
            ));
            assert(stop_cmds(ps.deep_view().take(i + 1)) =~~= stop_cmds(
                ps.deep_view().take(i as int),
            ).push(cmd_weakness(ps.deep_view()[i as int].name)));
            assert(cmds.deep_view() =~~= old(cmds).deep_view() + stop_cmds(
                ps.deep_view().take(i + 1),
            ));
        }
        i += 1;
    }
    proof {
        assert(ps.deep_view().take(n as int) =~= ps.deep_view());
    }
}

} // verus!
