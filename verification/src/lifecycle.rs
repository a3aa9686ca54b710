//! The lifecycle controller: toggling a game's running flag is the one
//! transition with side effects, and it decides exactly which commands
//! are emitted, in which order.

use vstd::prelude::*;

use vstd::arithmetic::div_mod::{
    lemma_fundamental_div_mod, lemma_mod_multiples_vanish, lemma_mod_self_0, lemma_small_mod,
};

use crate::commands::{
    build_start_cmds, build_stop_cmds, kth_offset, start_cmds, stop_cmds, ARENA_HEIGHT, START,
};
use crate::store::{game_idx, has_game, lemma_game_idx, GameV, Store, SLOT_WINDOW};

verus! {

impl Store {
    /// Toggles the running flag of the game of this name and returns the
    /// commands that the transition emits, in order. A start transition
    /// counts one more arena slot and emits the arena command followed by
    /// every player's start sequence (blue roster first, then red); a stop
    /// transition emits one weakness debuff per player in the same order.
    /// Naming an absent game changes nothing and emits nothing.
    pub fn update_game(&mut self, name: &String) -> (cmds: Vec<String>)
        requires
            old(self).wf(),
        ensures
            final(self).wf(),
            !has_game(old(self)@, name@) ==> *final(self) == *old(self) && cmds@.len() == 0,
            has_game(old(self)@, name@) ==> ({
                let i = game_idx(old(self)@, name@);
                let g = old(self)@[i];
                if !g.running {
                    &&& final(self).starts@ == old(self).starts@ + 1
                    &&& final(self)@ == old(self)@.update(i, (GameV { running: true, ..g }))
                    &&& cmds.deep_view() == start_cmds(
                        g.blue + g.red,
                        kth_offset(final(self).starts@),
                    )
                } else {
                    &&& final(self).starts@ == old(self).starts@
                    &&& final(self).counter == old(self).counter
                    &&& final(self)@ == old(self)@.update(i, (GameV { running: false, ..g }))
                    &&& cmds.deep_view() == stop_cmds(g.blue + g.red)
                }
            }),
    {
        let i = match self.find_game(name) {
            None => {
                return Vec::new();
            },
            Some(i) => i,
        };
        proof {
            lemma_game_idx(old(self)@, name@, i as int);
        }
        let mut g = self.games.remove(i);
        let cmds: Vec<String>;
        if !g.running {
            g.running = true;
            let ghost s0 = self.starts@;
            self.counter = if self.counter + 1 == SLOT_WINDOW {
                0
            } else {
                self.counter + 1
            };
            self.starts = Ghost(self.starts@ + 1);
            proof {
                lemma_next_in_window(s0, old(self).counter as nat, self.counter as nat);
            }
            let offset = START + (self.counter as i32) * ARENA_HEIGHT;
            cmds = build_start_cmds(&g.blue, &g.red, offset);
            proof {
                assert(offset as int == kth_offset(self.starts@));
            }
        } else {
            g.running = false;
            cmds = build_stop_cmds(&g.blue, &g.red);
        }
        let ghost gfin = g@;
        self.games.insert(i, g);
        proof {
            let gv = old(self)@[i as int];
            if gv.running {
                assert(gfin =~= (GameV { running: false, ..gv }));
                assert(self@ =~= old(self)@.update(i as int, (GameV { running: false, ..gv })));
            } else {
                assert(gfin =~= (GameV { running: true, ..gv }));
                assert(self@ =~= old(self)@.update(i as int, (GameV { running: true, ..gv })));
            }
            assert(gfin.blue + gfin.red =~= gv.blue + gv.red);
        }
        cmds
    }
}

/// Stepping the start count moves its reduced counter one slot along the
/// window, wrapping at the window's end.
proof fn lemma_next_in_window(s: nat, c: nat, c2: nat)
    requires
        c == s % (SLOT_WINDOW as nat),
        c < SLOT_WINDOW,
        c2 == if c + 1 == SLOT_WINDOW {
            0nat
        } else {
            (c + 1) as nat
        },
    ensures
        c2 == (s + 1) % (SLOT_WINDOW as nat),
        c2 < SLOT_WINDOW,
{
    let w = SLOT_WINDOW as int;
    lemma_fundamental_div_mod(s as int, w);
    assert(s as int == w * ((s as int) / w) + (s as int) % w);
    lemma_mod_multiples_vanish((s as int) / w, c as int + 1, w);
    assert((s as int + 1) % w == (c as int + 1) % w);
    if c + 1 == SLOT_WINDOW {
        lemma_mod_self_0(w);
        assert((c as int + 1) % w == 0);
    } else {
        lemma_small_mod((c + 1) as nat, SLOT_WINDOW as nat);
    }
}

} // verus!
