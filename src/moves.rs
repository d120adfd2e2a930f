use vstd::prelude::*;

use crate::geometry::dist;
use crate::types::{Battlesnake, Coord};

verus! {

/// One of the four cardinal directions a snake can move in.
#[derive(Debug, Clone, Copy, PartialEq, Eq, Structural)]
pub enum Move {
    Left,
    Right,
    Up,
    Down,
}

/// The cell one step from `head` in direction `m`, if both of its
/// coordinates can be represented.
pub open spec fn to_coord_spec(m: Move, head: Coord) -> Option<Coord> {
    match m {
        Move::Down => if head.y >= 1 {
            Some(Coord { x: head.x, y: (head.y - 1) as u32 })
        } else {
            None
        },
        Move::Up => if head.y < u32::MAX {
            Some(Coord { x: head.x, y: (head.y + 1) as u32 })
        } else {
            None
        },
        Move::Right => if head.x < u32::MAX {
            Some(Coord { x: (head.x + 1) as u32, y: head.y })
        } else {
            None
        },
        Move::Left => if head.x >= 1 {
            Some(Coord { x: (head.x - 1) as u32, y: head.y })
        } else {
            None
        },
    }
}

/// The direction whose unit step leads from `head` to `c`, if there is one.
pub open spec fn from_coord_spec(head: Coord, c: Coord) -> Option<Move> {
    if head.x == c.x {
        if head.y + 1 == c.y {
            Some(Move::Up)
        } else if c.y + 1 == head.y {
            Some(Move::Down)
        } else {
            None
        }
    } else if head.y == c.y {
        if head.x + 1 == c.x {
            Some(Move::Right)
        } else if c.x + 1 == head.x {
            Some(Move::Left)
        } else {
            None
        }
    } else {
        None
    }
}

/// The four directions, in the order in which they are tried.
pub open spec fn all_moves_spec() -> Seq<Move> {
    seq![Move::Left, Move::Right, Move::Up, Move::Down]
}

/// The text that names a direction.
pub open spec fn move_name(m: Move) -> Seq<char> {
    match m {
        Move::Left => "left"@,
        Move::Right => "right"@,
        Move::Up => "up"@,
        Move::Down => "down"@,
    }
}

impl Move {
    /// The cell one step from the snake's head in this direction, or `None`
    /// where a coordinate would leave the representable range (below zero).
    pub fn to_coord(&self, you: &Battlesnake) -> (r: Option<Coord>)
        requires
            you.has_head(),
        ensures
            r == to_coord_spec(*self, you.head_spec()),
    {
        let head = you.body[0];
        match self {
            Move::Down => if head.y >= 1 {
                Some(Coord { x: head.x, y: head.y - 1 })
            } else {
                None
            },
            Move::Up => if head.y < u32::MAX {
                Some(Coord { x: head.x, y: head.y + 1 })
            } else {
                None
            },
            Move::Right => if head.x < u32::MAX {
                Some(Coord { x: head.x + 1, y: head.y })
            } else {
                None
            },
            Move::Left => if head.x >= 1 {
                Some(Coord { x: head.x - 1, y: head.y })
            } else {
                None
            },
        }
    }

    /// The direction whose unit step leads from the snake's head to `coord`;
    /// `None` for the head itself and for any cell not adjacent along an axis.
    pub fn from_coord(you: &Battlesnake, coord: &Coord) -> (r: Option<Move>)
        requires
            you.has_head(),
        ensures
            r == from_coord_spec(you.head_spec(), *coord),
    {
        let head = you.body[0];
        if head.x == coord.x {
            if head.y < coord.y && coord.y - head.y == 1 {
                Some(Move::Up)
            } else if coord.y < head.y && head.y - coord.y == 1 {
                Some(Move::Down)
            } else {
                None
            }
        } else if head.y == coord.y {
            if head.x < coord.x && coord.x - head.x == 1 {
                Some(Move::Right)
            } else if coord.x < head.x && head.x - coord.x == 1 {
                Some(Move::Left)
            } else {
                None
            }
        } else {
            None
        }
    }

    /// Every direction once: left, right, up, down.
    pub fn all() -> (r: Vec<Move>)
        ensures
            r@ == all_moves_spec(),
    {
        vec![Move::Left, Move::Right, Move::Up, Move::Down]
    }

    /// The direction's name: "left", "right", "up" or "down".
    pub fn as_str(&self) -> (r: &'static str)
        ensures
            r@ == move_name(*self),
    {
        proof {
            reveal_strlit("left");
            reveal_strlit("right");
            reveal_strlit("up");
            reveal_strlit("down");
        }
        match self {
            Move::Left => "left",
            Move::Right => "right",
            Move::Up => "up",
            Move::Down => "down",
        }
    }
}

/// Stepping in a direction and asking which direction leads to the new cell
/// gives the direction back.
pub proof fn lemma_round_trip(m: Move, head: Coord)
    requires
        to_coord_spec(m, head) is Some,
    ensures
        from_coord_spec(head, to_coord_spec(m, head)->Some_0) == Some(m),
{
}

/// No direction leads from the head onto the head itself.
pub proof fn lemma_no_move_onto_head(head: Coord)
    ensures
        from_coord_spec(head, head) is None,
{
}

/// A direction leads from `head` to `c` exactly when the two cells are one
/// step apart; so no direction leads to a diagonal neighbour.
pub proof fn lemma_from_coord_adjacent(head: Coord, c: Coord)
    ensures
        from_coord_spec(head, c) is Some <==> dist(head, c) == 1,
        (head.x != c.x && head.y != c.y) ==> from_coord_spec(head, c) is None,
{
}

/// Left from the left edge and down from the bottom edge give no cell.
pub proof fn lemma_no_coord_below_zero(head: Coord)
    ensures
        head.x == 0 ==> to_coord_spec(Move::Left, head) is None,
        head.y == 0 ==> to_coord_spec(Move::Down, head) is None,
{
}

/// Each of the four directions appears exactly once among all directions.
pub proof fn lemma_all_moves_once(m: Move)
    ensures
        all_moves_spec().len() == 4,
        all_moves_spec().contains(m),
        forall|i: int, j: int|
            0 <= i < j < 4 ==> all_moves_spec()[i] != all_moves_spec()[j],
{
    let s = all_moves_spec();
    match m {
        Move::Left => assert(s[0] == m),
        Move::Right => assert(s[1] == m),
        Move::Up => assert(s[2] == m),
        Move::Down => assert(s[3] == m),
    }
}

} // verus!
