//! The components that an entity of the simulation can carry, and the row
//! that stands for one entity in contracts.

use vstd::prelude::*;

verus! {

/// Number of grid columns.
pub const MAP_WIDTH: i32 = 30;

/// Number of grid rows.
pub const MAP_HEIGHT: i32 = 30;

/// A grid cell: column, then row.
#[derive(Clone, Copy, Debug, PartialEq, Eq)]
pub struct Position(pub i32, pub i32);

/// Marks the head of the snake; the number is its level, the lifetime in
/// ticks that each new trail segment is given.
#[derive(Clone, Copy, Debug, PartialEq, Eq)]
pub struct SnakeHead(pub i32);

/// Marks a trail segment; the number is the ticks it has left.
#[derive(Clone, Copy, Debug, PartialEq, Eq)]
pub struct SnakeBody(pub i32);

/// Marks the food.
#[derive(Clone, Copy, Debug, PartialEq, Eq)]
pub struct Food;

/// A named render colour.
#[derive(Clone, Copy, Debug, PartialEq, Eq)]
pub enum Color {
    Green,
    ForestGreen,
    Red,
}

/// A typed component access met an entity that is gone or lacks the component.
#[derive(Clone, Copy, Debug, PartialEq, Eq)]
pub struct AccessError;

/// What one entity carries: each component of this module, where it has it.
#[derive(Clone, Copy, Debug, PartialEq, Eq)]
pub struct Row {
    pub head: Option<SnakeHead>,
    pub body: Option<SnakeBody>,
    pub food: bool,
    pub position: Option<Position>,
    pub color: Option<Color>,
}

impl Color {
    /// The colour's name as a drawing surface takes it.
    pub fn name(&self) -> (s: &'static str)
        ensures
            s@ == self.name_spec(),
    {
        match self {
            Color::Green => "green",
            Color::ForestGreen => "forestgreen",
            Color::Red => "red",
        }
    }

    pub open spec fn name_spec(&self) -> Seq<char> {
        match self {
            Color::Green => "green"@,
            Color::ForestGreen => "forestgreen"@,
            Color::Red => "red"@,
        }
    }
}

impl Position {
    /// The cell in the middle of the grid.
    pub open spec fn center() -> Position {
        Position(15, 15)
    }

    /// Whether the cell lies on the grid, its far edges included.
    pub open spec fn on_grid(self) -> bool {
        0 <= self.0 <= MAP_WIDTH && 0 <= self.1 <= MAP_HEIGHT
    }

    /// Whether the cell lies on the grid, its far edges included.
    pub fn is_on_grid(&self) -> (b: bool)
        ensures
            b == self.on_grid(),
    {
        0 <= self.0 && self.0 <= MAP_WIDTH && 0 <= self.1 && self.1 <= MAP_HEIGHT
    }

    /// Whether two cells are the same.
    pub fn same(&self, other: &Position) -> (b: bool)
        ensures
            b == (*self == *other),
    {
        self.0 == other.0 && self.1 == other.1
    }
}

impl Row {
    /// The row of a head of the given level at the given cell.
    pub open spec fn of_head(level: i32, at: Position) -> Row {
        Row {
            head: Some(SnakeHead(level)),
            body: None,
            food: false,
            position: Some(at),
            color: Some(Color::Green),
        }
    }

    /// The row of a trail segment with the given ticks left at the given cell.
    pub open spec fn of_body(ttl: i32, at: Position) -> Row {
        Row {
            head: None,
            body: Some(SnakeBody(ttl)),
            food: false,
            position: Some(at),
            color: Some(Color::ForestGreen),
        }
    }

    /// The row of the food at the given cell.
    pub open spec fn of_food(at: Position) -> Row {
        Row { head: None, body: None, food: true, position: Some(at), color: Some(Color::Red) }
    }

    /// A head row of level at least one, on the grid.
    pub open spec fn is_head(self) -> bool {
        &&& self.head is Some
        &&& self.head.unwrap().0 >= 1
        &&& self.position is Some
        &&& self.position.unwrap().on_grid()
        &&& self == Row::of_head(self.head.unwrap().0, self.position.unwrap())
    }

    /// A trail row with at least one tick left, on the grid.
    pub open spec fn is_body(self) -> bool {
        &&& self.body is Some
        &&& self.body.unwrap().0 >= 1
        &&& self.position is Some
        &&& self.position.unwrap().on_grid()
        &&& self == Row::of_body(self.body.unwrap().0, self.position.unwrap())
    }

    /// A food row on the grid.
    pub open spec fn is_food(self) -> bool {
        &&& self.position is Some
        &&& self.position.unwrap().on_grid()
        &&& self == Row::of_food(self.position.unwrap())
    }
}

} // verus!
