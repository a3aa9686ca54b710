//! The session store: games keyed by name, each with a blue and a red
//! roster of players. Mutating operations are silent no-ops on invalid
//! input, mirroring the HTTP surface that drives them.

use vstd::prelude::*;

verus! {

/// The side a player fights on; it decides the spawn-side offset.
#[derive(Clone, Copy, PartialEq, Eq, Structural, Debug)]
pub enum Team {
    Blue,
    Red,
}

/// One player: the game it belongs to, its display name, and its team.
#[derive(Debug)]
pub struct Player {
    pub game: String,
    pub name: String,
    pub team: Team,
}

/// One minigame session: a unique name, the running flag, and two rosters.
#[derive(Debug)]
pub struct Game {
    pub name: String,
    pub running: bool,
    pub blue: Vec<Player>,
    pub red: Vec<Player>,
}

/// Mathematical image of a player.
#[verifier::ext_equal]
pub ghost struct PlayerV {
    pub game: Seq<char>,
    pub name: Seq<char>,
    pub team: Team,
}

/// Mathematical image of a game.
#[verifier::ext_equal]
pub ghost struct GameV {
    pub name: Seq<char>,
    pub running: bool,
    pub blue: Seq<PlayerV>,
    pub red: Seq<PlayerV>,
}

impl View for Player {
    type V = PlayerV;

    open spec fn view(&self) -> PlayerV {
        PlayerV { game: self.game@, name: self.name@, team: self.team }
    }
}

impl DeepView for Player {
    type V = PlayerV;

    open spec fn deep_view(&self) -> PlayerV {
        self@
    }
}

impl View for Game {
    type V = GameV;

    open spec fn view(&self) -> GameV {
        GameV {
            name: self.name@,
            running: self.running,
            blue: self.blue.deep_view(),
            red: self.red.deep_view(),
        }
    }
}

impl DeepView for Game {
    type V = GameV;

    open spec fn deep_view(&self) -> GameV {
        self@
    }
}

/// Whether some player in the roster carries this name.
pub open spec fn in_roster(r: Seq<PlayerV>, name: Seq<char>) -> bool {
    exists|i: int| 0 <= i < r.len() && r[i].name == name
}

/// The position of the player with this name (meaningful when the
/// roster holds it and names are unique).
pub open spec fn player_idx(r: Seq<PlayerV>, name: Seq<char>) -> int {
    choose|i: int| 0 <= i < r.len() && r[i].name == name
}

/// The roster with this name taken out, if it was there.
pub open spec fn roster_without(r: Seq<PlayerV>, name: Seq<char>) -> Seq<PlayerV> {
    if in_roster(r, name) {
        r.remove(player_idx(r, name))
    } else {
        r
    }
}

/// A roster is well-formed for its game and team: names are unique and
/// nonempty, and every member records the owning game and the team.
pub open spec fn roster_wf(r: Seq<PlayerV>, gname: Seq<char>, team: Team) -> bool {
    &&& forall|i: int, j: int|
        0 <= i < j < r.len() ==> #[trigger] r[i].name != #[trigger] r[j].name
    &&& forall|i: int|
        0 <= i < r.len() ==> (#[trigger] r[i]).game == gname && r[i].team == team
            && r[i].name.len() > 0
}

/// A game is well-formed: both rosters are, and no name sits in both.
pub open spec fn game_wf(g: GameV) -> bool {
    &&& roster_wf(g.blue, g.name, Team::Blue)
    &&& roster_wf(g.red, g.name, Team::Red)
    &&& forall|i: int, j: int|
        0 <= i < g.blue.len() && 0 <= j < g.red.len() ==> #[trigger] g.blue[i].name
            != #[trigger] g.red[j].name
}

/// The store is well-formed: game names are unique and every game is
/// well-formed.
pub open spec fn store_wf(s: Seq<GameV>) -> bool {
    &&& forall|i: int, j: int|
        0 <= i < j < s.len() ==> #[trigger] s[i].name != #[trigger] s[j].name
    &&& forall|i: int| 0 <= i < s.len() ==> game_wf(#[trigger] s[i])
}

/// Whether the store holds a game of this name.
pub open spec fn has_game(s: Seq<GameV>, name: Seq<char>) -> bool {
    exists|i: int| 0 <= i < s.len() && s[i].name == name
}

/// The position of the game with this name (meaningful when the store
/// holds it and names are unique).
pub open spec fn game_idx(s: Seq<GameV>, name: Seq<char>) -> int {
    choose|i: int| 0 <= i < s.len() && s[i].name == name
}

/// A game as it is created: stopped, with empty rosters.
pub open spec fn fresh_game(name: Seq<char>) -> GameV {
    GameV { name: name, running: false, blue: Seq::empty(), red: Seq::empty() }
}

/// Under unique game names, any position holding the name is the one
/// `game_idx` picks.
pub proof fn lemma_game_idx(s: Seq<GameV>, name: Seq<char>, i: int)
    requires
        store_wf(s),
        0 <= i < s.len(),
        s[i].name == name,
    ensures
        has_game(s, name),
        game_idx(s, name) == i,
{
    assert(has_game(s, name));
    let j = game_idx(s, name);
    assert(0 <= j < s.len() && s[j].name == name);
    if i < j {
        assert(s[i].name != s[j].name);
    } else if j < i {
        assert(s[j].name != s[i].name);
    }
}

/// Under unique player names, any position holding the name is the one
/// `player_idx` picks.
pub proof fn lemma_player_idx(r: Seq<PlayerV>, name: Seq<char>, i: int)
    requires
        forall|a: int, b: int|
            0 <= a < b < r.len() ==> #[trigger] r[a].name != #[trigger] r[b].name,
        0 <= i < r.len(),
        r[i].name == name,
    ensures
        in_roster(r, name),
        player_idx(r, name) == i,
{
    assert(in_roster(r, name));
    let j = player_idx(r, name);
    assert(0 <= j < r.len() && r[j].name == name);
    if i < j {
        assert(r[i].name != r[j].name);
    } else if j < i {
        assert(r[j].name != r[i].name);
    }
}

/// The in-memory registry of games, together with the start counter
/// that assigns arena slots.
pub struct Store {
    pub games: Vec<Game>,
    /// The number of start transitions taken, reduced modulo the window
    /// of arena slots.
    pub counter: u32,
    /// The total number of start transitions ever taken.
    pub starts: Ghost<nat>,
}

/// The number of arena slots; the start counter wraps at this window.
pub const SLOT_WINDOW: u32 = 20;

impl View for Store {
    type V = Seq<GameV>;

    open spec fn view(&self) -> Seq<GameV> {
        self.games.deep_view()
    }
}

impl Store {
    /// The store's invariant: well-formed games and a counter that is
    /// the start count reduced modulo the slot window.
    pub open spec fn wf(&self) -> bool {
        &&& store_wf(self@)
        &&& self.counter < SLOT_WINDOW
        &&& self.counter as nat == self.starts@ % (SLOT_WINDOW as nat)
    }

    /// An empty store with the counter at zero.
    pub fn new() -> (s: Store)
        ensures
            s.wf(),
            s@ == Seq::<GameV>::empty(),
            s.counter == 0,
            s.starts@ == 0,
    {
        let s = Store { games: Vec::new(), counter: 0, starts: Ghost(0) };
        proof {
            assert(s@ =~= Seq::<GameV>::empty());
        }
        s
    }

    /// A read view of all games, for rendering.
    pub fn snapshot(&self) -> (games: &Vec<Game>)
        ensures
            games.deep_view() == self@,
    {
        &self.games
    }

    /// The position of the game with this name, if the store holds one.
    pub(crate) fn find_game(&self, name: &String) -> (r: Option<usize>)
        ensures
            match r {
                Some(i) => i < self@.len() && self@[i as int].name == name@,
                None => !has_game(self@, name@),
            },
    {
        let n = self.games.len();
        let mut i: usize = 0;
        while i < n
            invariant
                n == self@.len(),
                i <= n,
                forall|j: int| 0 <= j < i ==> #[trigger] self@[j].name != name@,
            decreases n - i,
        {
            if self.games[i].name == *name {
                return Some(i);
            }
            i += 1;
        }
        None
    }

    /// Creates (or resets) the game of this name: a nonempty name gets a
    /// stopped game with empty rosters, replacing any game of the same
    /// name — replacement discards that game's rosters and running flag.
    /// An empty name is ignored.
    pub fn add_game(&mut self, name: &String)
        requires
            old(self).wf(),
        ensures
            final(self).wf(),
            final(self).counter == old(self).counter,
            final(self).starts@ == old(self).starts@,
            name@.len() == 0 ==> *final(self) == *old(self),
            name@.len() > 0 && !has_game(old(self)@, name@) ==> final(self)@ == old(self)@.push(
                fresh_game(name@),
            ),
            name@.len() > 0 && has_game(old(self)@, name@) ==> final(self)@ == old(self)@.update(
                game_idx(old(self)@, name@),
                fresh_game(name@),
            ),
    {
        if name.as_str().is_empty() {
            return ;
        }
        let g = Game { name: name.clone(), running: false, blue: Vec::new(), red: Vec::new() };
        proof {
            assert(g@ =~= fresh_game(name@));
        }
        match self.find_game(name) {
            Some(i) => {
                proof {
                    lemma_game_idx(old(self)@, name@, i as int);
                }
                self.games.remove(i);
                self.games.insert(i, g);
                proof {
                    assert(self@ =~= old(self)@.update(i as int, fresh_game(name@)));
                }
            },
            None => {
                self.games.push(g);
                proof {
                    assert(self@ =~= old(self)@.push(fresh_game(name@)));
                }
            },
        }
    }

    /// Adds the player to the roster matching its team, inside the game
    /// its `game` field names. A nonexistent game, an empty player name,
    /// or a name already on either roster leaves the store untouched —
    /// in particular, adding to a nonexistent game never creates it.
    pub fn add_player(&mut self, player: Player)
        requires
            old(self).wf(),
        ensures
            final(self).wf(),
            final(self).counter == old(self).counter,
            final(self).starts@ == old(self).starts@,
            !has_game(old(self)@, player.game@) ==> *final(self) == *old(self),
            has_game(old(self)@, player.game@) ==> {
                let i = game_idx(old(self)@, player.game@);
                let g = old(self)@[i];
                if player.name@.len() == 0 || in_roster(g.blue, player.name@) || in_roster(
                    g.red,
                    player.name@,
                ) {
                    *final(self) == *old(self)
                } else if player.team is Blue {
                    final(self)@ == old(self)@.update(i, (GameV { blue: g.blue.push(player@), ..g }))
                } else {
                    final(self)@ == old(self)@.update(i, (GameV { red: g.red.push(player@), ..g }))
                }
            },
    {
        let i = match self.find_game(&player.game) {
            None => {
                return ;
            },
            Some(i) => i,
        };
        proof {
            lemma_game_idx(old(self)@, player.game@, i as int);
        }
        if player.name.as_str().is_empty() {
            return ;
        }
        let in_blue = roster_contains(&self.games[i].blue, &player.name);
        let in_red = roster_contains(&self.games[i].red, &player.name);
        if in_blue || in_red {
            return ;
        }
        let ghost pv = player@;
        let mut g = self.games.remove(i);
        match player.team {
            Team::Blue => g.blue.push(player),
            Team::Red => g.red.push(player),
        }
        self.games.insert(i, g);
        proof {
            let gv = old(self)@[i as int];
            if pv.team is Blue {
                assert(g@.blue =~= gv.blue.push(pv));
                assert(g@.red =~= gv.red);
                assert(self@ =~= old(self)@.update(i as int, (GameV { blue: gv.blue.push(pv), ..gv })));
            } else {
                assert(g@.red =~= gv.red.push(pv));
                assert(g@.blue =~= gv.blue);
                assert(self@ =~= old(self)@.update(i as int, (GameV { red: gv.red.push(pv), ..gv })));
            }
        }
    }

    /// Removes this player name from both rosters of the game, where the
    /// game exists; removing an absent name (or naming an absent game)
    /// changes nothing and is not an error.
    pub fn remove_player(&mut self, game: &String, name: &String)
        requires
            old(self).wf(),
        ensures
            final(self).wf(),
            final(self).counter == old(self).counter,
            final(self).starts@ == old(self).starts@,
            !has_game(old(self)@, game@) ==> *final(self) == *old(self),
            has_game(old(self)@, game@) ==> {
                let i = game_idx(old(self)@, game@);
                let g = old(self)@[i];
                final(self)@ == old(self)@.update(
                    i,
                    (GameV {
                        blue: roster_without(g.blue, name@),
                        red: roster_without(g.red, name@),
                        ..g
                    }),
                )
            },
            has_game(old(self)@, game@) && !in_roster(
                old(self)@[game_idx(old(self)@, game@)].blue,
                name@,
            ) && !in_roster(old(self)@[game_idx(old(self)@, game@)].red, name@) ==> *final(self) == *old(
                self,
            ),
    {
        let i = match self.find_game(game) {
            None => {
                return ;
            },
            Some(i) => i,
        };
        proof {
            lemma_game_idx(old(self)@, game@, i as int);
        }
        let in_blue = roster_contains(&self.games[i].blue, name);
        let in_red = roster_contains(&self.games[i].red, name);
        let ghost gv = old(self)@[i as int];
        if !in_blue && !in_red {
            proof {
                assert(self@ =~= old(self)@.update(
                    i as int,
                    GameV {
                        blue: roster_without(gv.blue, name@),
                        red: roster_without(gv.red, name@),
                        ..gv
                    },
                ));
            }
            return ;
        }
        let mut g = self.games.remove(i);
        if in_blue {
            roster_remove(&mut g.blue, name);
        }
        if in_red {
            roster_remove(&mut g.red, name);
        }
        self.games.insert(i, g);
        proof {
            assert(self@ =~= old(self)@.update(
                i as int,
                GameV {
                    blue: roster_without(gv.blue, name@),
                    red: roster_without(gv.red, name@),
                    ..gv
                },
            ));
        }
    }

    /// Removes the game of this name, and with it all its players;
    /// naming an absent game changes nothing.
    pub fn remove_game(&mut self, name: &String)
        requires
            old(self).wf(),
        ensures
            final(self).wf(),
            final(self).counter == old(self).counter,
            final(self).starts@ == old(self).starts@,
            !has_game(old(self)@, name@) ==> *final(self) == *old(self),
            has_game(old(self)@, name@) ==> final(self)@ == old(self)@.remove(
                game_idx(old(self)@, name@),
            ),
    {
        match self.find_game(name) {
            None => {},
            Some(i) => {
                proof {
                    lemma_game_idx(old(self)@, name@, i as int);
                }
                self.games.remove(i);
                proof {
                    assert(self@ =~= old(self)@.remove(i as int));
                }
            },
        }
    }
}

/// Whether some player in the roster carries this name.
fn roster_contains(r: &Vec<Player>, name: &String) -> (b: bool)
    ensures
        b == in_roster(r.deep_view(), name@),
{
    let n = r.len();
    let mut i: usize = 0;
    while i < n
        invariant
            n == r.deep_view().len(),
            i <= n,
            forall|j: int| 0 <= j < i ==> #[trigger] r.deep_view()[j].name != name@,
        decreases n - i,
    {
        if r[i].name == *name {
            proof {
                assert(r.deep_view()[i as int] == r@[i as int]@);
                assert(in_roster(r.deep_view(), name@));
            }
            return true;
        }
        i += 1;
    }
    false
}

/// Removes the player with this name, where the roster (with unique
/// names) holds one; otherwise leaves the roster untouched.
fn roster_remove(r: &mut Vec<Player>, name: &String)
    requires
        forall|a: int, b: int|
            0 <= a < b < old(r).deep_view().len() ==> #[trigger] old(r).deep_view()[a].name
                != #[trigger] old(r).deep_view()[b].name,
    ensures
        final(r).deep_view() == roster_without(old(r).deep_view(), name@),
{
    let n = r.len();
    let mut i: usize = 0;
    while i < n
        invariant
            *r == *old(r),
            n == r.deep_view().len(),
            i <= n,
            forall|a: int, b: int|
                0 <= a < b < r.deep_view().len() ==> #[trigger] r.deep_view()[a].name
                    != #[trigger] r.deep_view()[b].name,
            forall|j: int| 0 <= j < i ==> #[trigger] r.deep_view()[j].name != name@,
        decreases n - i,
    {
        if r[i].name == *name {
            proof {
                assert(r.deep_view() == old(r).deep_view());
                assert(r.deep_view()[i as int] == r@[i as int]@);
                lemma_player_idx(r.deep_view(), name@, i as int);
            }
            r.remove(i);
            proof {
                assert(r.deep_view() =~= roster_without(old(r).deep_view(), name@));
            }
            return ;
        }
        i += 1;
    }
    proof {
        assert(!in_roster(r.deep_view(), name@));
    }
}

} // verus!
