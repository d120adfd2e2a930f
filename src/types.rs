use vstd::prelude::*;

verus! {

/// A grid cell; `x` grows to the right, `y` grows upwards.
#[derive(Debug, Clone, Copy, PartialEq, Eq, Structural, Default)]
pub struct Coord {
    pub x: u32,
    pub y: u32,
}

/// One snake on the board; `body[0]` is its head, the last element its tail.
#[derive(Debug, Clone, Default)]
pub struct Battlesnake {
    pub id: String,
    pub name: String,
    pub health: u32,
    pub body: Vec<Coord>,
    pub head: Coord,
    pub length: u32,
    pub latency: String,
    pub shout: Option<String>,
}

/// The board of one turn: its size, the food on it and every snake present.
#[derive(Debug, Clone, Default)]
pub struct Board {
    pub height: u32,
    pub width: u32,
    pub food: Vec<Coord>,
    pub snakes: Vec<Battlesnake>,
    pub hazards: Vec<Coord>,
}

/// Identity of the game being played.
#[derive(Debug, Clone, Default)]
pub struct Game {
    pub id: String,
    pub timeout: u32,
}

impl Battlesnake {
    /// The snake has a head.
    pub open spec fn has_head(&self) -> bool {
        self.body@.len() > 0
    }

    /// The cell the snake moves from.
    pub open spec fn head_spec(&self) -> Coord {
        self.body@[0]
    }
}

impl Board {
    /// Every snake on the board has a head.
    pub open spec fn well_formed(&self) -> bool {
        forall|i: int| 0 <= i < self.snakes@.len() ==> #[trigger] self.snakes@[i].has_head()
    }
}

} // verus!
