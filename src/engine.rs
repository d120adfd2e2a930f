use vstd::prelude::*;

use crate::geometry::{
    dist, farthest, in_bounds, in_bounds_spec, manhattan_distance, nearest, select_away,
    select_toward,
};
use crate::moves::{all_moves_spec, from_coord_spec, lemma_round_trip, to_coord_spec, Move};
use crate::types::{Battlesnake, Board, Coord, Game};

verus! {

/// Some snake on the board has a body segment on `c`.
pub open spec fn occupied(board: Board, c: Coord) -> bool {
    exists|i: int, j: int|
        0 <= i < board.snakes@.len() && 0 <= j < board.snakes@[i].body@.len()
            && #[trigger] board.snakes@[i].body@[j] == c
}

/// Moving in direction `m` from `head` lands on a free cell of the board.
pub open spec fn is_safe(board: Board, head: Coord, m: Move) -> bool {
    &&& to_coord_spec(m, head) is Some
    &&& in_bounds_spec(board.width, board.height, to_coord_spec(m, head)->Some_0)
    &&& !occupied(board, to_coord_spec(m, head)->Some_0)
}

/// The safe destination cells among the first `n` directions, in their order.
pub open spec fn safe_prefix(board: Board, head: Coord, n: nat) -> Seq<Coord>
    decreases n,
{
    if n == 0 {
        seq![]
    } else {
        let rest = safe_prefix(board, head, (n - 1) as nat);
        let m = all_moves_spec()[n - 1];
        if is_safe(board, head, m) {
            rest.push(to_coord_spec(m, head)->Some_0)
        } else {
            rest
        }
    }
}

/// The safe destination cells from `head`, in the order of the directions.
pub open spec fn safe_coords(board: Board, head: Coord) -> Seq<Coord> {
    safe_prefix(board, head, 4)
}

/// The heads of the snakes whose id is not `id`, in board order.
pub open spec fn enemy_heads(snakes: Seq<Battlesnake>, id: Seq<char>) -> Seq<Coord>
    decreases snakes.len(),
{
    if snakes.len() == 0 {
        seq![]
    } else {
        let rest = enemy_heads(snakes.drop_last(), id);
        if snakes.last().id@ != id {
            rest.push(snakes.last().body@[0])
        } else {
            rest
        }
    }
}

/// The body length of the longest snake whose id is not `id`; zero if none.
pub open spec fn longest_enemy(snakes: Seq<Battlesnake>, id: Seq<char>) -> nat
    decreases snakes.len(),
{
    if snakes.len() == 0 {
        0
    } else {
        let rest = longest_enemy(snakes.drop_last(), id);
        let s = snakes.last();
        if s.id@ != id && s.body@.len() > rest {
            s.body@.len()
        } else {
            rest
        }
    }
}

/// The cell the heuristics aim for, given the safe cells and the baseline pick.
pub open spec fn target_spec(board: Board, you: Battlesnake, safe: Seq<Coord>, base: Coord) -> Coord {
    let head = you.body@[0];
    let heads = enemy_heads(board.snakes@, you.id@);
    let size = you.body@.len();
    let longest = longest_enemy(board.snakes@, you.id@);
    if size < longest + 2 && board.food@.len() > 0 {
        if heads.len() > 0 {
            let food = nearest(board.food@, head);
            let enemy = nearest(heads, food);
            if dist(head, food) < dist(enemy, food) {
                nearest(safe, food)
            } else {
                farthest(safe, enemy)
            }
        } else {
            base
        }
    } else if size > longest && heads.len() > 0 {
        nearest(safe, nearest(heads, head))
    } else if size < longest {
        farthest(safe, nearest(heads, head))
    } else {
        base
    }
}

/// The direction chosen for `you` on `board` when the baseline draw is `pick`:
/// left when no move is safe; otherwise the direction towards the heuristics'
/// target, with the safe cell at `pick` (modulo their number) as baseline.
pub open spec fn decide_spec(board: Board, you: Battlesnake, pick: int) -> Move {
    let head = you.body@[0];
    let safe = safe_coords(board, head);
    if safe.len() == 0 {
        Move::Left
    } else {
        let base = safe[pick % (safe.len() as int)];
        from_coord_spec(head, target_spec(board, you, safe, base))->Some_0
    }
}

/// Each safe cell is reached by the one direction that leads to it, and that
/// direction is safe.
pub proof fn lemma_safe_prefix_moves(board: Board, head: Coord, n: nat)
    requires
        n <= 4,
    ensures
        forall|k: int|
            0 <= k < safe_prefix(board, head, n).len() ==> {
                let c = #[trigger] safe_prefix(board, head, n)[k];
                &&& from_coord_spec(head, c) is Some
                &&& is_safe(board, head, from_coord_spec(head, c)->Some_0)
                &&& to_coord_spec(from_coord_spec(head, c)->Some_0, head) == Some(c)
            },
    decreases n,
{
    if n > 0 {
        lemma_safe_prefix_moves(board, head, (n - 1) as nat);
        let m = all_moves_spec()[n - 1];
        if is_safe(board, head, m) {
            lemma_round_trip(m, head);
        }
    }
}

/// A snake longer than zero that is not `id` is an enemy with a head.
proof fn lemma_longest_has_enemy(snakes: Seq<Battlesnake>, id: Seq<char>)
    ensures
        longest_enemy(snakes, id) > 0 ==> enemy_heads(snakes, id).len() > 0,
    decreases snakes.len(),
{
    if snakes.len() > 0 {
        lemma_longest_has_enemy(snakes.drop_last(), id);
    }
}

/// Whatever the baseline among the safe cells, the heuristics aim at a safe
/// cell, and a safe direction leads there.
proof fn lemma_target_is_safe(board: Board, you: Battlesnake, base_index: int)
    requires
        you.has_head(),
        0 <= base_index < safe_coords(board, you.body@[0]).len(),
    ensures
        ({
            let head = you.body@[0];
            let safe = safe_coords(board, head);
            let t = target_spec(board, you, safe, safe[base_index]);
            &&& from_coord_spec(head, t) is Some
            &&& is_safe(board, head, from_coord_spec(head, t)->Some_0)
        }),
{
    let head = you.body@[0];
    let safe = safe_coords(board, head);
    let base = safe[base_index];
    lemma_safe_prefix_moves(board, head, 4);
    lemma_longest_has_enemy(board.snakes@, you.id@);
    let heads = enemy_heads(board.snakes@, you.id@);
    crate::geometry::lemma_nearest_is_first_min(safe, nearest(board.food@, head));
    if heads.len() > 0 {
        crate::geometry::lemma_farthest_is_first_max(safe, nearest(heads, head));
        crate::geometry::lemma_nearest_is_first_min(safe, nearest(heads, head));
        crate::geometry::lemma_farthest_is_first_max(
            safe,
            nearest(heads, nearest(board.food@, head)),
        );
    }
    let t = target_spec(board, you, safe, base);
    assert(exists|k: int| 0 <= k < safe.len() && safe[k] == t);
}

/// With no safe cell the decision is left; otherwise the decided direction
/// leads to a safe cell.
pub proof fn lemma_decision_is_safe(board: Board, you: Battlesnake, pick: int)
    requires
        you.has_head(),
    ensures
        safe_coords(board, you.body@[0]).len() == 0 ==> decide_spec(board, you, pick)
            == Move::Left,
        safe_coords(board, you.body@[0]).len() > 0 ==> is_safe(
            board,
            you.body@[0],
            decide_spec(board, you, pick),
        ),
{
    let safe = safe_coords(board, you.body@[0]);
    if safe.len() > 0 {
        lemma_target_is_safe(board, you, pick % (safe.len() as int));
    }
}

/// Whether some snake on the board has a body segment on `c`.
fn is_occupied(board: &Board, c: &Coord) -> (r: bool)
    ensures
        r == occupied(*board, *c),
{
    let mut i: usize = 0;
    while i < board.snakes.len()
        invariant
            0 <= i <= board.snakes@.len(),
            forall|a: int, b: int|
                0 <= a < i && 0 <= b < board.snakes@[a].body@.len() ==> board.snakes@[a].body@[b]
                    != *c,
        decreases board.snakes@.len() - i,
    {
        let body = &board.snakes[i].body;
        let mut j: usize = 0;
        while j < body.len()
            invariant
                0 <= i < board.snakes@.len(),
                *body == board.snakes@[i as int].body,
                0 <= j <= body@.len(),
                forall|b: int| 0 <= b < j ==> body@[b] != *c,
            decreases body@.len() - j,
        {
            if body[j] == *c {
                assert(board.snakes@[i as int].body@[j as int] == *c);
                return true;
            }
            j = j + 1;
        }
        i = i + 1;
    }
    false
}

/// The cells `you` can move to this turn without leaving the board or
/// entering any snake's body, in the order left, right, up, down.
pub fn safe_moves(board: &Board, you: &Battlesnake) -> (r: Vec<Coord>)
    requires
        you.has_head(),
    ensures
        r@ == safe_coords(*board, you.head_spec()),
{
    let all = Move::all();
    let mut out: Vec<Coord> = Vec::new();
    let mut i: usize = 0;
    while i < all.len()
        invariant
            all@ == all_moves_spec(),
            you.has_head(),
            0 <= i <= 4,
            out@ == safe_prefix(*board, you.head_spec(), i as nat),
        decreases 4 - i,
    {
        match all[i].to_coord(you) {
            Some(c) => {
                if in_bounds(board, &c) && !is_occupied(board, &c) {
                    out.push(c);
                }
            },
            None => {},
        }
        i = i + 1;
    }
    out
}

/// The heads of the other snakes, in board order, and the body length of the
/// longest of them (zero if there is none).
fn enemies(board: &Board, you: &Battlesnake) -> (r: (Vec<Coord>, usize))
    requires
        board.well_formed(),
    ensures
        r.0@ == enemy_heads(board.snakes@, you.id@),
        r.1 == longest_enemy(board.snakes@, you.id@),
{
    let mut heads: Vec<Coord> = Vec::new();
    let mut longest: usize = 0;
    let mut i: usize = 0;
    while i < board.snakes.len()
        invariant
            board.well_formed(),
            0 <= i <= board.snakes@.len(),
            heads@ == enemy_heads(board.snakes@.subrange(0, i as int), you.id@),
            longest == longest_enemy(board.snakes@.subrange(0, i as int), you.id@),
        decreases board.snakes@.len() - i,
    {
        let s = &board.snakes[i];
        assert(board.snakes@.subrange(0, i + 1).drop_last() == board.snakes@.subrange(0, i as int));
        assert(board.snakes@[i as int].has_head());
        if s.id != you.id {
            heads.push(s.body[0]);
            if s.body.len() > longest {
                longest = s.body.len();
            }
        }
        i = i + 1;
    }
    assert(board.snakes@.subrange(0, board.snakes@.len() as int) == board.snakes@);
    (heads, longest)
}

/// The direction for `you` this turn, with `pick` choosing the baseline among
/// the safe cells (modulo their number). With no safe cell it is left;
/// otherwise it always leads to a safe cell.
pub fn decide_move(board: &Board, you: &Battlesnake, pick: usize) -> (r: Move)
    requires
        you.has_head(),
        board.well_formed(),
    ensures
        r == decide_spec(*board, *you, pick as int),
        safe_coords(*board, you.head_spec()).len() == 0 ==> r == Move::Left,
        safe_coords(*board, you.head_spec()).len() > 0 ==> is_safe(*board, you.head_spec(), r),
{
    proof {
        lemma_decision_is_safe(*board, *you, pick as int);
    }
    let safe = safe_moves(board, you);
    if safe.len() == 0 {
        return Move::Left;
    }
    let head = you.body[0];
    let base = safe[pick % safe.len()];
    let (heads, longest) = enemies(board, you);
    let size = you.body.len();
    let target: Coord;
    if (size < longest || size - longest < 2) && board.food.len() > 0 {
        if heads.len() > 0 {
            let food = *select_toward(board.food.as_slice(), &head);
            let enemy = *select_toward(heads.as_slice(), &food);
            if manhattan_distance(&head, &food) < manhattan_distance(&enemy, &food) {
                target = *select_toward(safe.as_slice(), &food);
            } else {
                target = *select_away(safe.as_slice(), &enemy);
            }
        } else {
            target = base;
        }
    } else if size > longest && heads.len() > 0 {
        let enemy = *select_toward(heads.as_slice(), &head);
        target = *select_toward(safe.as_slice(), &enemy);
    } else if size < longest {
        proof {
            lemma_longest_has_enemy(board.snakes@, you.id@);
        }
        let enemy = *select_toward(heads.as_slice(), &head);
        target = *select_away(safe.as_slice(), &enemy);
    } else {
        target = base;
    }
    proof {
        lemma_target_is_safe(*board, *you, (pick % safe.len()) as int);
        assert(target == target_spec(*board, *you, safe@, base));
    }
    Move::from_coord(you, &target).unwrap()
}

/// Relies on rand's `thread_rng` and `Rng::gen_range`: a number drawn from `0..n`.
#[verifier::external_body]
fn random_index(n: usize) -> (r: usize)
    requires
        n > 0,
    ensures
        r < n,
{
    rand::Rng::gen_range(&mut rand::thread_rng(), 0..n)
}

/// The direction for `you` this turn, with the baseline among the safe cells
/// drawn at random. Whatever is drawn, the result is the decision for some
/// draw: left when no move is safe, otherwise a direction to a safe cell.
pub fn get_move(_game: &Game, _turn: &u32, board: &Board, you: &Battlesnake) -> (r: Move)
    requires
        you.has_head(),
        board.well_formed(),
    ensures
        exists|pick: int| 0 <= pick && r == decide_spec(*board, *you, pick),
        safe_coords(*board, you.head_spec()).len() == 0 ==> r == Move::Left,
        safe_coords(*board, you.head_spec()).len() > 0 ==> is_safe(*board, you.head_spec(), r),
{
    let n = safe_moves(board, you).len();
    let pick = if n > 0 {
        random_index(n)
    } else {
        0
    };
    decide_move(board, you, pick)
}

/// Called when a game begins; nothing is decided here.
pub fn start(_game: &Game, _turn: &u32, _board: &Board, _you: &Battlesnake) {
}

/// Called when a game ends; nothing is decided here.
pub fn end(_game: &Game, _turn: &u32, _board: &Board, _you: &Battlesnake) {
}

} // verus!
