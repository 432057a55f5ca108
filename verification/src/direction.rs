//! The eight axis/diagonal directions (plus `Center`) used to tag ghost
//! vertices with the translation that produced them, and to pair up
//! interacting neighbour cells.

use vstd::prelude::*;

verus! {

#[derive(Debug, Clone, Copy, PartialEq, Eq, Structural)]
pub enum Direction {
    RightDown,
    Right,
    RightUp,
    Up,
    Center,
    Down,
    LeftDown,
    Left,
    LeftUp,
}

/// Position of a direction in the fixed sort list.
pub open spec fn sort_list_id(dir: Direction) -> int {
    match dir {
        Direction::RightDown => 0,
        Direction::Right => 1,
        Direction::RightUp => 2,
        Direction::Up => 3,
        Direction::Center => 4,
        Direction::Down => 5,
        Direction::LeftDown => 6,
        Direction::Left => 7,
        Direction::LeftUp => 8,
    }
}

/// The opposite direction.
pub open spec fn inverted(dir: Direction) -> Direction {
    match dir {
        Direction::RightDown => Direction::LeftUp,
        Direction::Right => Direction::Left,
        Direction::RightUp => Direction::LeftDown,
        Direction::Up => Direction::Down,
        Direction::Center => Direction::Center,
        Direction::Down => Direction::Up,
        Direction::LeftDown => Direction::RightUp,
        Direction::Left => Direction::Right,
        Direction::LeftUp => Direction::RightDown,
    }
}

/// The unit-step translation of a direction on the x and y axes.
pub open spec fn direction_vector(dir: Direction) -> (int, int) {
    match dir {
        Direction::RightDown => (1, -1),
        Direction::Right => (1, 0),
        Direction::RightUp => (1, 1),
        Direction::Up => (0, 1),
        Direction::Center => (0, 0),
        Direction::Down => (0, -1),
        Direction::LeftDown => (-1, -1),
        Direction::Left => (-1, 0),
        Direction::LeftUp => (-1, 1),
    }
}

pub fn direction_to_sort_list_id(dir: Direction) -> (r: usize)
    ensures
        r == sort_list_id(dir),
{
    match dir {
        Direction::RightDown => 0,
        Direction::Right => 1,
        Direction::RightUp => 2,
        Direction::Up => 3,
        Direction::Center => 4,
        Direction::Down => 5,
        Direction::LeftDown => 6,
        Direction::Left => 7,
        Direction::LeftUp => 8,
    }
}

pub fn invert_direction(dir: Direction) -> (r: Direction)
    ensures
        r == inverted(dir),
{
    match dir {
        Direction::RightDown => Direction::LeftUp,
        Direction::Right => Direction::Left,
        Direction::RightUp => Direction::LeftDown,
        Direction::Up => Direction::Down,
        Direction::Center => Direction::Center,
        Direction::Down => Direction::Up,
        Direction::LeftDown => Direction::RightUp,
        Direction::Left => Direction::Right,
        Direction::LeftUp => Direction::RightDown,
    }
}

pub fn direction_as_vector(dir: Direction) -> (r: (i64, i64))
    ensures
        r.0 == direction_vector(dir).0,
        r.1 == direction_vector(dir).1,
{
    match dir {
        Direction::RightDown => (1, -1),
        Direction::Right => (1, 0),
        Direction::RightUp => (1, 1),
        Direction::Up => (0, 1),
        Direction::Center => (0, 0),
        Direction::Down => (0, -1),
        Direction::LeftDown => (-1, -1),
        Direction::Left => (-1, 0),
        Direction::LeftUp => (-1, 1),
    }
}

/// The direction that leads from anchor `i` to anchor `j` (componentwise
/// comparison; `Center` when they coincide).
pub open spec fn direction_between(ix: int, iy: int, jx: int, jy: int) -> Direction {
    if ix > jx {
        if iy > jy {
            Direction::LeftDown
        } else if iy < jy {
            Direction::LeftUp
        } else {
            Direction::Left
        }
    } else if ix < jx {
        if iy > jy {
            Direction::RightDown
        } else if iy < jy {
            Direction::RightUp
        } else {
            Direction::Right
        }
    } else {
        if iy > jy {
            Direction::Down
        } else if iy < jy {
            Direction::Up
        } else {
            Direction::Center
        }
    }
}

pub fn get_direction(anchor_i: [i64; 2], anchor_j: [i64; 2]) -> (r: Direction)
    ensures
        r == direction_between(
            anchor_i[0] as int, anchor_i[1] as int, anchor_j[0] as int, anchor_j[1] as int,
        ),
{
    let left = anchor_i[0] > anchor_j[0];
    let right = anchor_i[0] < anchor_j[0];
    let down = anchor_i[1] > anchor_j[1];
    let up = anchor_i[1] < anchor_j[1];
    if left {
        if down {
            Direction::LeftDown
        } else if up {
            Direction::LeftUp
        } else {
            Direction::Left
        }
    } else if right {
        if down {
            Direction::RightDown
        } else if up {
            Direction::RightUp
        } else {
            Direction::Right
        }
    } else {
        if down {
            Direction::Down
        } else if up {
            Direction::Up
        } else {
            Direction::Center
        }
    }
}

/// Inverting a direction twice gives the direction back.
pub proof fn lemma_invert_involutive(dir: Direction)
    ensures
        inverted(inverted(dir)) == dir,
{
}

/// A direction and its inverse sit at mirrored sort-list positions.
pub proof fn lemma_invert_mirrors_sort_id(dir: Direction)
    ensures
        sort_list_id(inverted(dir)) == 8 - sort_list_id(dir),
{
}

/// The inverse direction carries the opposite translation.
pub proof fn lemma_invert_negates_vector(dir: Direction)
    ensures
        direction_vector(inverted(dir)).0 == -direction_vector(dir).0,
        direction_vector(inverted(dir)).1 == -direction_vector(dir).1,
{
}

/// Swapping the two anchors inverts the direction between them.
pub proof fn lemma_direction_between_antisymmetric(ix: int, iy: int, jx: int, jy: int)
    ensures
        direction_between(jx, jy, ix, iy) == inverted(direction_between(ix, iy, jx, jy)),
{
}

} // verus!
