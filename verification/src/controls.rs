//! The keys that steer the game, and the game as the player meets it: a
//! simulation that can be paused.

use crate::geometry::{Board, Direction};
use crate::model::{Model, TickOutcome, STARTING_LENGTH};
use crate::simulation::SnakeSimulation;
use vstd::prelude::*;
use vstd::string::StringSliceAdditionalSpecFns;
use vstd::utf8::{encode_utf8, encode_utf8_decode_utf8};

verus! {

/// A key of the keyboard, as far as the game tells keys apart.
#[derive(Clone, Copy, Debug, PartialEq, Eq, Structural)]
pub enum Key {
    Space,
    ArrowLeft,
    ArrowRight,
    ArrowUp,
    ArrowDown,
    Other,
}

/// Two texts with the same bytes in UTF-8 are the same text.
proof fn lemma_same_text(a: Seq<char>, b: Seq<char>)
    ensures
        encode_utf8(a) == encode_utf8(b) <==> a == b,
{
    encode_utf8_decode_utf8(a);
    encode_utf8_decode_utf8(b);
}

/// Tells whether two slices hold the same bytes.
fn same_bytes(a: &[u8], b: &[u8]) -> (same: bool)
    ensures
        same == (a@ == b@),
{
    if a.len() != b.len() {
        return false;
    }
    let mut i: usize = 0;
    while i < a.len()
        invariant
            i <= a@.len(),
            a@.len() == b@.len(),
            forall|k: int| 0 <= k < i ==> a@[k] == b@[k],
        decreases a@.len() - i,
    {
        if a[i] != b[i] {
            return false;
        }
        i += 1;
    }
    assert(a@ =~= b@);
    true
}

impl Key {
    /// The key that a name, as the keyboard event gives it, stands for.
    pub open spec fn named(name: Seq<char>) -> Key {
        if name == " "@ {
            Key::Space
        } else if name == "ArrowLeft"@ {
            Key::ArrowLeft
        } else if name == "ArrowRight"@ {
            Key::ArrowRight
        } else if name == "ArrowUp"@ {
            Key::ArrowUp
        } else if name == "ArrowDown"@ {
            Key::ArrowDown
        } else {
            Key::Other
        }
    }

    /// The way that a key sends the snake, if it is an arrow.
    pub open spec fn turn(self) -> Option<Direction> {
        match self {
            Key::ArrowLeft => Some(Direction::West),
            Key::ArrowRight => Some(Direction::East),
            Key::ArrowUp => Some(Direction::North),
            Key::ArrowDown => Some(Direction::South),
            _ => None,
        }
    }

    /// Reads the name of a key.
    pub fn from_name(name: &str) -> (key: Key)
        ensures
            key == Key::named(name@),
    {
        let bytes = name.as_bytes();
        proof {
            lemma_same_text(name@, " "@);
            lemma_same_text(name@, "ArrowLeft"@);
            lemma_same_text(name@, "ArrowRight"@);
            lemma_same_text(name@, "ArrowUp"@);
            lemma_same_text(name@, "ArrowDown"@);
        }
        if same_bytes(bytes, " ".as_bytes()) {
            Key::Space
        } else if same_bytes(bytes, "ArrowLeft".as_bytes()) {
            Key::ArrowLeft
        } else if same_bytes(bytes, "ArrowRight".as_bytes()) {
            Key::ArrowRight
        } else if same_bytes(bytes, "ArrowUp".as_bytes()) {
            Key::ArrowUp
        } else if same_bytes(bytes, "ArrowDown".as_bytes()) {
            Key::ArrowDown
        } else {
            Key::Other
        }
    }

    /// The way that the key sends the snake, if it is an arrow.
    pub fn direction(self) -> (d: Option<Direction>)
        ensures
            d == self.turn(),
    {
        match self {
            Key::ArrowLeft => Some(Direction::West),
            Key::ArrowRight => Some(Direction::East),
            Key::ArrowUp => Some(Direction::North),
            Key::ArrowDown => Some(Direction::South),
            _ => None,
        }
    }
}

/// A simulation together with the pause switch.
pub struct Game {
    simulation: SnakeSimulation,
    paused: bool,
}

impl Game {
    /// The simulation that the game runs.
    pub closed spec fn sim(&self) -> SnakeSimulation {
        self.simulation
    }

    /// The game is paused.
    pub closed spec fn halted(&self) -> bool {
        self.paused
    }

    /// A new game on `board`, running.
    pub fn new(board: Board) -> (g: Game)
        requires
            board.wf(),
            board.w() >= STARTING_LENGTH,
        ensures
            g.sim().inv(),
            !g.halted(),
            g.sim()@ == Model::fresh(board, g.sim()@.food),
            g.sim()@.food is None <==> board.cell_total() == STARTING_LENGTH,
    {
        Game { simulation: SnakeSimulation::new(board), paused: false }
    }

    /// Tells whether the game is paused.
    pub fn is_paused(&self) -> (p: bool)
        ensures
            p == self.halted(),
    {
        self.paused
    }

    /// The simulation that the game runs, to look at.
    pub fn simulation(&self) -> (s: &SnakeSimulation)
        ensures
            *s == self.sim(),
    {
        &self.simulation
    }

    /// Takes a key stroke: the space bar pauses the game or lets it run on;
    /// while the game runs, an arrow asks for a turn; anything else is
    /// ignored.
    pub fn key_up(&mut self, key: Key)
        requires
            old(self).sim().inv(),
        ensures
            final(self).sim().inv(),
            final(self).halted() == (if key == Key::Space {
                !old(self).halted()
            } else {
                old(self).halted()
            }),
            final(self).sim()@ == (if old(self).halted() {
                old(self).sim()@
            } else {
                match key.turn() {
                    Some(d) => old(self).sim()@.with_turn(d),
                    None => old(self).sim()@,
                }
            }),
            final(self).sim().occupancy() == old(self).sim().occupancy(),
    {
        match key {
            Key::Space => {
                self.paused = !self.paused;
            },
            _ => {
                if !self.paused {
                    match key.direction() {
                        Some(d) => {
                            self.simulation.submit_turn(d);
                        },
                        None => {},
                    }
                }
            },
        }
    }

    /// Lets one step of time pass: a running game ticks, a paused game
    /// stays as it is and returns `None`.
    pub fn update(&mut self) -> (outcome: Option<TickOutcome>)
        requires
            old(self).sim().inv(),
        ensures
            final(self).sim().inv(),
            final(self).halted() == old(self).halted(),
            old(self).halted() ==> outcome is None && final(self).sim() == old(self).sim(),
            !old(self).halted() ==> {
                &&& outcome == Some(old(self).sim()@.outcome())
                &&& final(self).sim()@ == old(self).sim()@.ticked(final(self).sim()@.food)
                &&& (outcome != Some(TickOutcome::Advanced) ==> (final(self).sim()@.food is None
                    <==> final(self).sim()@.covers_board()))
            },
    {
        if self.paused {
            None
        } else {
            Some(self.simulation.tick())
        }
    }
}

} // verus!
