//! The snake: its state, the systems that a tick runs, and the frame step.

use crate::clock::{advance, carried, falls_due, ITERATION_TIME, MAX_DELTA};
use crate::components::{AccessError, Color, Position, Row, SnakeBody, SnakeHead};
use crate::input::{decode_key, key_direction, turn, turned, Direction};
use crate::render::{cell_rect, Rect, Surface};
use crate::store::{
    bodies, clear, despawn, drawables, foods, has_room, head_of, lists_bodies, lists_drawables,
    new_world, position_of, set_body, set_head, set_position, spawn_body, spawn_food, spawn_head,
    world_rows,
};
use hecs::{Entity, World};
use vstd::prelude::*;
use vstd::relations::injective_on;
use vstd::set_lib::{lemma_int_range, lemma_len_subset, lemma_map_size, set_int_range};

verus! {

/// The game: a clock, a direction, and a world that holds the head, the food
/// and the trail.
pub struct Snake {
    time: i32,
    surface: Surface,
    direction: Direction,
    world: World,
    head: Entity,
    food: Ghost<Entity>,
    made_move: bool,
}

/// Whether `rows` hold a head at `head`, the food at `food`, and besides them
/// finitely many trail segments, no two with the same ticks left and none
/// with more ticks left than the head's level.
pub open spec fn populated(rows: Map<Entity, Row>, head: Entity, food: Entity) -> bool {
    &&& rows.contains_key(head) && rows[head].is_head()
    &&& rows.contains_key(food) && rows[food].is_food()
    &&& forall|e: Entity| #[trigger]
        rows.contains_key(e) && e != head && e != food ==> rows[e].is_body() && rows[e].body.unwrap().0
            <= rows[head].head.unwrap().0
    &&& forall|a: Entity, b: Entity|
        #![trigger rows[a], rows[b]]
        rows.contains_key(a) && rows.contains_key(b) && a != head && a != food && b != head && b != food
            && rows[a].body == rows[b].body ==> a == b
    &&& rows.dom().finite()
}

/// The number by which `lemma_room` tells the entities of a world apart.
pub open spec fn rank(rows: Map<Entity, Row>, head: Entity, food: Entity, e: Entity) -> int {
    if e == head {
        0
    } else if e == food {
        -1
    } else {
        rows[e].body.unwrap().0 as int
    }
}

/// A populated world holds at most two entities more than the head's level:
/// no two trail segments have the same ticks left, and none has more than
/// the level.
pub proof fn lemma_room(rows: Map<Entity, Row>, head: Entity, food: Entity)
    requires
        populated(rows, head, food),
    ensures
        rows.dom().len() <= rows[head].head.unwrap().0 + 2,
        has_room(rows),
{
    let level = rows[head].head.unwrap().0 as int;
    let f = |e: Entity| rank(rows, head, food, e);
    let image = rows.dom().map(f);
    let range = set_int_range(-1, level + 1);
    assert(injective_on(f, rows.dom())) by {
        assert forall|a: Entity, b: Entity|
            rows.dom().contains(a) && rows.dom().contains(b) && #[trigger] f(a) == #[trigger] f(
                b,
            ) implies a == b by {
            assert(rows.contains_key(a) && rows.contains_key(b));
            if a != head && a != food && b != head && b != food {
                assert(rows[a].is_body() && rows[b].is_body());
                assert(rows[a].body == rows[b].body);
            }
        }
    }
    lemma_map_size(rows.dom(), image, f);
    lemma_int_range(-1, level + 1);
    assert(image.subset_of(range)) by {
        assert forall|i: int| image.contains(i) implies range.contains(i) by {
            let e = choose|e: Entity| rows.dom().contains(e) && i == f(e);
            assert(rows.contains_key(e));
        }
    }
    lemma_len_subset(image, range);
}

/// The rows of a game that starts over: a head of the given level in the
/// middle of the grid, and the food.
pub open spec fn fresh_rows(head: Entity, level: i32, food: Entity, food_at: Position) -> Map<Entity, Row> {
    Map::empty().insert(head, Row::of_head(level, Position::center())).insert(food, Row::of_food(food_at))
}

/// The cell one step from `at` in direction `d`.
pub open spec fn next_cell(at: Position, d: Direction) -> Position {
    match d {
        Direction::Up => Position(at.0, (at.1 - 1) as i32),
        Direction::Right => Position((at.0 + 1) as i32, at.1),
        Direction::Down => Position(at.0, (at.1 + 1) as i32),
        Direction::Left => Position((at.0 - 1) as i32, at.1),
    }
}

/// Whether a trail segment that outlives this tick lies on `cell`.
pub open spec fn bitten(rows: Map<Entity, Row>, cell: Position) -> bool {
    exists|e: Entity| #[trigger]
        rows.contains_key(e) && rows[e].body is Some && rows[e].body != Some(SnakeBody(1))
            && rows[e].position == Some(cell)
}

/// A row one tick later: a trail segment has one tick less, the head stands
/// on `to`, anything else is as it was.
pub open spec fn aged_row(row: Row, is_head: bool, to: Position) -> Row {
    if is_head {
        Row { position: Some(to), ..row }
    } else if row.body is Some {
        Row { body: Some(SnakeBody((row.body.unwrap().0 - 1) as i32)), ..row }
    } else {
        row
    }
}

/// The rows one tick later, before the new trail segment: segments on their
/// last tick are gone, the others have one tick less, the head stands on `to`.
pub open spec fn aged(rows: Map<Entity, Row>, head: Entity, to: Position) -> Map<Entity, Row> {
    Map::new(
        |e: Entity| rows.contains_key(e) && rows[e].body != Some(SnakeBody(1)),
        |e: Entity| aged_row(rows[e], e == head, to),
    )
}

/// Whether `after` is `before` with one more entity, which carries `row`.
pub open spec fn grown(before: Map<Entity, Row>, after: Map<Entity, Row>, row: Row) -> bool {
    exists|e: Entity| !before.contains_key(e) && after == #[trigger] before.insert(e, row)
}

/// Whether `pre` and `post` agree on clock, direction, latch and surface.
pub open spec fn same_frame(pre: &Snake, post: &Snake) -> bool {
    &&& post.clock() == pre.clock()
    &&& post.heading() == pre.heading()
    &&& post.latched() == pre.latched()
    &&& post.canvas() == pre.canvas()
}

/// Whether `pre` and `post` hold the same world.
pub open spec fn same_world(pre: &Snake, post: &Snake) -> bool {
    &&& post.rows() == pre.rows()
    &&& post.head() == pre.head()
    &&& post.food() == pre.food()
}

/// Whether `post` is `pre` started over: the world holds a head in the middle
/// of the grid, at the level it had, and the food on `food_at`, and nothing
/// else.
pub open spec fn restarted(pre: &Snake, post: &Snake, food_at: Position) -> bool {
    &&& post.rows() == fresh_rows(post.head(), pre.level_spec(), post.food(), food_at)
    &&& post.head() != post.food()
}

/// Whether `post` is `pre` after the movement system. Where the head's next
/// cell is off the grid or on a trail segment that outlives the tick, the game
/// starts over. Otherwise the trail ages, the head steps, and a new segment
/// with as many ticks as the head's level lies where the head was.
pub open spec fn moved(pre: &Snake, post: &Snake, food_at: Position) -> bool {
    let to = next_cell(pre.head_at(), pre.heading());
    if !to.on_grid() || bitten(pre.rows(), to) {
        restarted(pre, post, food_at)
    } else {
        &&& post.head() == pre.head()
        &&& post.food() == pre.food()
        &&& grown(
            aged(pre.rows(), pre.head(), to),
            post.rows(),
            Row::of_body(pre.level_spec(), pre.head_at()),
        )
    }
}

/// Whether `post` is `pre` after the eating system. Where the head stands on
/// the food, the food is gone, the head's level is one higher, and new food
/// lies on `food_at`. Otherwise nothing has changed.
pub open spec fn ate(pre: &Snake, post: &Snake, food_at: Position) -> bool {
    &&& post.head() == pre.head()
    &&& if pre.food_at() == pre.head_at() {
        &&& !pre.rows().remove(pre.food()).contains_key(post.food())
        &&& post.rows() == pre.rows().remove(pre.food()).insert(
            pre.head(),
            Row::of_head((pre.level_spec() + 1) as i32, pre.head_at()),
        ).insert(post.food(), Row::of_food(food_at))
    } else {
        same_world(pre, post)
    }
}

/// Whether `rects` holds one rectangle for each entity of `rows` that has a
/// position and a colour: the entity's cell on the surface, in its colour.
pub open spec fn draws(rows: Map<Entity, Row>, surface: Surface, rects: Seq<Rect>) -> bool {
    exists|items: Seq<(Entity, Position, Color)>| #[trigger]
        lists_drawables(rows, items) && rects.len() == items.len() && forall|i: int|
            0 <= i < items.len() ==> #[trigger] rects[i] == surface.rect_at(items[i].1, items[i].2)
}

/// Whether `trail` holds one entry for each trail segment of `rows`: its cell
/// and the ticks it has left.
pub open spec fn lists_trail(rows: Map<Entity, Row>, trail: Seq<(Position, i32)>) -> bool {
    exists|items: Seq<(Entity, SnakeBody, Position)>| #[trigger]
        lists_bodies(rows, items) && trail.len() == items.len() && forall|i: int|
            0 <= i < items.len() ==> #[trigger] trail[i] == (items[i].2, items[i].1.0)
}

/// Whether `post` is `pre` one tick later: moved, then fed. `after_reset` is
/// where the food goes if the move starts the game over, `after_meal` where
/// it goes if the head then stands on the food.
pub open spec fn ticked(pre: &Snake, post: &Snake, after_reset: Position, after_meal: Position) -> bool {
    exists|mid: Snake| #[trigger]
        moved(pre, &mid, after_reset) && mid.well_formed() && mid.heading() == pre.heading() && ate(
            &mid,
            post,
            after_meal,
        )
}

spec fn seen(items: Seq<(Entity, SnakeBody, Position)>, upto: int, e: Entity) -> bool {
    exists|j: int| 0 <= j < upto && #[trigger] items[j].0 == e
}

fn lift<T>(res: Result<T, hecs::ComponentError>) -> (out: Result<T, AccessError>)
    ensures
        res is Ok <==> out is Ok,
        res is Ok ==> out == Ok::<T, AccessError>(res.unwrap()),
{
    match res {
        Ok(v) => Ok(v),
        Err(_) => Err(AccessError),
    }
}

impl Snake {
    /// The rows of the world.
    pub closed spec fn rows(&self) -> Map<Entity, Row> {
        world_rows(self.world)
    }

    /// The head entity.
    pub closed spec fn head(&self) -> Entity {
        self.head
    }

    /// The food entity.
    pub closed spec fn food(&self) -> Entity {
        self.food@
    }

    /// Milliseconds since the last tick fell due.
    pub closed spec fn clock(&self) -> int {
        self.time as int
    }

    /// The direction of travel.
    pub closed spec fn heading(&self) -> Direction {
        self.direction
    }

    /// Whether a key was taken in this frame.
    pub closed spec fn latched(&self) -> bool {
        self.made_move
    }

    /// The drawing surface.
    pub closed spec fn canvas(&self) -> Surface {
        self.surface
    }

    /// The head's level.
    pub open spec fn level_spec(&self) -> i32 {
        self.rows()[self.head()].head.unwrap().0
    }

    /// The head's cell.
    pub open spec fn head_at(&self) -> Position {
        self.rows()[self.head()].position.unwrap()
    }

    /// The food's cell.
    pub open spec fn food_at(&self) -> Position {
        self.rows()[self.food()].position.unwrap()
    }

    /// The clock is within one interval, the surface has no negative extent,
    /// and the world is populated: one head, one food, and the trail.
    pub open spec fn well_formed(&self) -> bool {
        &&& 0 <= self.clock() <= ITERATION_TIME
        &&& self.canvas().well_formed()
        &&& populated(self.rows(), self.head(), self.food())
    }

    /// A new game: the head at level one in the middle of the grid, heading
    /// down, the food on `food_at`, the clock at rest.
    pub fn new(surface: Surface, food_at: Position) -> (game: Snake)
        requires
            surface.well_formed(),
            food_at.on_grid(),
        ensures
            game.well_formed(),
            game.rows() == fresh_rows(game.head(), 1, game.food(), food_at),
            game.head() != game.food(),
            game.clock() == 0,
            game.heading() == Direction::Down,
            !game.latched(),
            game.canvas() == surface,
    {
        let mut world = new_world();
        let head = spawn_head(&mut world, SnakeHead(1), Color::Green, Position(15, 15));
        let food = spawn_food(&mut world, Color::Red, food_at);
        Snake {
            time: 0,
            surface,
            direction: Direction::Down,
            world,
            head,
            food: Ghost(food),
            made_move: false,
        }
    }

    /// Starts the game over: empties the world, then puts a head in the
    /// middle of the grid, at the level the old head had, and food on
    /// `food_at`. Clock and direction stay.
    pub fn reset(&mut self, food_at: Position) -> (res: Result<(), AccessError>)
        requires
            old(self).well_formed(),
            food_at.on_grid(),
        ensures
            res is Ok,
            final(self).well_formed(),
            same_frame(old(self), final(self)),
            restarted(old(self), final(self), food_at),
    {
        let level = lift(head_of(&self.world, self.head))?;
        clear(&mut self.world);
        self.head = spawn_head(&mut self.world, level, Color::Green, Position(15, 15));
        self.spawn_food(food_at);
        Ok(())
    }

    /// Puts food on `at`, as one more entity of the world.
    fn spawn_food(&mut self, at: Position)
        requires
            has_room(old(self).rows()),
        ensures
            same_frame(old(self), final(self)),
            final(self).head() == old(self).head(),
            !old(self).rows().contains_key(final(self).food()),
            final(self).rows() == old(self).rows().insert(final(self).food(), Row::of_food(at)),
    {
        let food = spawn_food(&mut self.world, Color::Red, at);
        self.food = Ghost(food);
    }

    /// Takes a key press. A frame takes one key: while the latch is set, and
    /// for a key that asks for no direction, nothing changes. Otherwise the
    /// latch is set, and the direction turns unless the key asks for a turn
    /// straight back.
    pub fn key_down(&mut self, key_code: u32)
        ensures
            same_world(old(self), final(self)),
            final(self).clock() == old(self).clock(),
            final(self).canvas() == old(self).canvas(),
            final(self).well_formed() == old(self).well_formed(),
            final(self).latched() == (old(self).latched() || key_direction(key_code) is Some),
            final(self).heading() == if old(self).latched() {
                old(self).heading()
            } else {
                turned(old(self).heading(), key_code)
            },
            final(self).heading() != old(self).heading().opposite(),
    {
        if self.made_move {
            return ;
        }
        if decode_key(key_code).is_some() {
            self.made_move = true;
            self.direction = turn(self.direction, key_code);
        }
    }

    /// The movement system. Where the head's next cell is off the grid, or
    /// on a trail segment that outlives this tick, the game starts over with
    /// food on `food_at`. Otherwise each trail segment loses one tick and
    /// those that have none left are removed, a new segment with as many ticks
    /// as the head's level is put where the head stands, and the head steps.
    pub fn move_snake_system(&mut self, food_at: Position) -> (res: Result<(), AccessError>)
        requires
            old(self).well_formed(),
            food_at.on_grid(),
        ensures
            res is Ok,
            final(self).well_formed(),
            same_frame(old(self), final(self)),
            moved(old(self), final(self), food_at),
            final(self).level_spec() == old(self).level_spec(),
    {
        let from = lift(position_of(&self.world, self.head))?;
        let to = match self.direction {
            Direction::Up => Position(from.0, from.1 - 1),
            Direction::Right => Position(from.0 + 1, from.1),
            Direction::Down => Position(from.0, from.1 + 1),
            Direction::Left => Position(from.0 - 1, from.1),
        };
        if !to.is_on_grid() {
            return self.reset(food_at);
        }
        let items = bodies(&self.world);
        let ghost rows0 = self.rows();
        let mut bit = false;
        let mut i: usize = 0;
        while i < items.len() && !bit
            invariant
                0 <= i <= items.len(),
                !bit ==> forall|j: int|
                    0 <= j < i ==> !((#[trigger] items@[j]).1 != SnakeBody(1) && items@[j].2 == to),
                bit ==> 0 < i && items@[i - 1].1 != SnakeBody(1) && items@[i - 1].2 == to,
            decreases items.len() - i + if bit { 0int } else { 1int },
        {
            let (_id, body, at) = items[i];
            if body.0 != 1 && at.same(&to) {
                bit = true;
            }
            i += 1;
        }
        if bit {
            proof {
                assert(rows0.contains_key(items@[i - 1].0));
                assert(bitten(rows0, to));
            }
            return self.reset(food_at);
        }
        proof {
            if bitten(rows0, to) {
                let e = choose|e: Entity| #[trigger]
                    rows0.contains_key(e) && rows0[e].body is Some && rows0[e].body != Some(
                        SnakeBody(1),
                    ) && rows0[e].position == Some(to);
                let k = choose|k: int| 0 <= k < items@.len() && #[trigger] items@[k].0 == e;
                assert(items@[k].1 != SnakeBody(1) && items@[k].2 == to);
            }
        }
        i = 0;
        while i < items.len()
            invariant
                0 <= i <= items.len(),
                lists_bodies(rows0, items@),
                rows0 == old(self).rows(),
                old(self).well_formed(),
                same_frame(old(self), self),
                self.head() == old(self).head(),
                self.food() == old(self).food(),
                self.rows().dom().finite(),
                self.rows().dom().len() <= rows0.dom().len(),
                forall|e: Entity|
                    #![trigger self.rows().contains_key(e)]
                    #![trigger rows0.contains_key(e)]
                    self.rows().contains_key(e) <==> rows0.contains_key(e) && !(seen(items@, i as int, e)
                        && rows0[e].body == Some(SnakeBody(1))),
                forall|e: Entity| #[trigger]
                    self.rows().contains_key(e) ==> self.rows()[e] == if seen(items@, i as int, e) {
                        aged_row(rows0[e], false, to)
                    } else {
                        rows0[e]
                    },
            decreases items.len() - i,
        {
            let (id, body, _at) = items[i];
            proof {
                assert(rows0.contains_key(items@[i as int].0));
                assert(rows0[id].is_body());
                if seen(items@, i as int, id) {
                    let j = choose|j: int| 0 <= j < i && #[trigger] items@[j].0 == id;
                    assert(items@[j].0 != items@[i as int].0);
                }
            }
            if body.0 == 1 {
                let gone = despawn(&mut self.world, id);
                if gone.is_err() {
                    return Err(AccessError);
                }
            } else {
                lift(set_body(&mut self.world, id, SnakeBody(body.0 - 1)))?;
            }
            proof {
                assert forall|e: Entity| seen(items@, i + 1, e) == (seen(items@, i as int, e) || e == id) by {
                    if seen(items@, i as int, e) {
                        let j = choose|j: int| 0 <= j < i && #[trigger] items@[j].0 == e;
                        assert(0 <= j < i + 1 && items@[j].0 == e);
                    }
                    if e == id {
                        assert(0 <= i < i + 1 && items@[i as int].0 == e);
                    }
                    if seen(items@, i + 1, e) {
                        let j = choose|j: int| 0 <= j < i + 1 && #[trigger] items@[j].0 == e;
                        if j < i {
                            assert(0 <= j < i && items@[j].0 == e);
                        }
                    }
                }
            }
            i += 1;
        }
        proof {
            assert forall|e: Entity| #[trigger]
                rows0.contains_key(e) implies (seen(items@, i as int, e) <==> rows0[e].body is Some) by {
                if seen(items@, i as int, e) {
                    let j = choose|j: int| 0 <= j < i && #[trigger] items@[j].0 == e;
                    assert(rows0.contains_key(items@[j].0));
                }
            }
        }
        proof {
            lemma_room(rows0, self.head(), self.food());
        }
        let head = lift(head_of(&self.world, self.head))?;
        let tail = spawn_body(&mut self.world, SnakeBody(head.0), Color::ForestGreen, from);
        lift(set_position(&mut self.world, self.head, to))?;
        proof {
            let before = aged(rows0, self.head(), to);
            let row = Row::of_body(old(self).level_spec(), old(self).head_at());
            assert(!before.contains_key(tail));
            assert(self.rows() =~= before.insert(tail, row));
            assert(grown(before, self.rows(), row));
        }
        Ok(())
    }

    /// The eating system. Where the head stands on the food: removes the
    /// food, raises the head's level by one, and puts new food on `food_at`.
    pub fn eat_system(&mut self, food_at: Position) -> (res: Result<(), AccessError>)
        requires
            old(self).well_formed(),
            old(self).level_spec() < i32::MAX,
            food_at.on_grid(),
        ensures
            res is Ok,
            final(self).well_formed(),
            same_frame(old(self), final(self)),
            ate(old(self), final(self), food_at),
    {
        let at = lift(position_of(&self.world, self.head))?;
        let items = foods(&self.world);
        let mut found: Option<Entity> = None;
        let mut i: usize = 0;
        while i < items.len() && found.is_none()
            invariant
                0 <= i <= items.len(),
                forall|j: int| 0 <= j < i && found is None ==> (#[trigger] items@[j]).1 != at,
                found is Some ==> 0 < i && items@[i - 1].0 == found.unwrap() && items@[i - 1].1 == at,
            decreases items.len() - i + if found is None { 1int } else { 0int },
        {
            let item = &items[i];
            if item.1.same(&at) {
                found = Some(item.0);
            }
            i += 1;
        }
        match found {
            Some(id) => {
                proof {
                    assert(self.rows().contains_key(items@[i - 1].0));
                    assert(id == self.food());
                }
                let gone = despawn(&mut self.world, id);
                if gone.is_err() {
                    return Err(AccessError);
                }
                let head = lift(head_of(&self.world, self.head))?;
                lift(set_head(&mut self.world, self.head, SnakeHead(head.0 + 1)))?;
                proof {
                    lemma_room(old(self).rows(), old(self).head(), old(self).food());
                    lemma_len_subset(self.rows().dom(), old(self).rows().dom());
                }
                self.spawn_food(food_at);
                proof {
                    let pre = old(self).rows();
                    assert(self.rows() =~= pre.remove(old(self).food()).insert(
                        self.head(),
                        Row::of_head((old(self).level_spec() + 1) as i32, old(self).head_at()),
                    ).insert(self.food(), Row::of_food(food_at)));
                }
                Ok(())
            },
            None => {
                proof {
                    let k = choose|k: int| 0 <= k < items@.len() && #[trigger] items@[k].0 == self.food();
                    assert(items@[k].1 != at);
                }
                Ok(())
            },
        }
    }

    /// The render system: one rectangle for each entity that has a position
    /// and a colour. The world is left as it is.
    pub fn render_system(&self) -> (rects: Vec<Rect>)
        requires
            self.well_formed(),
        ensures
            draws(self.rows(), self.canvas(), rects@),
    {
        let items = drawables(&self.world);
        let mut rects: Vec<Rect> = Vec::new();
        let mut i: usize = 0;
        while i < items.len()
            invariant
                0 <= i <= items.len(),
                self.well_formed(),
                lists_drawables(self.rows(), items@),
                rects@.len() == i,
                forall|j: int|
                    0 <= j < i ==> #[trigger] rects@[j] == self.canvas().rect_at(items@[j].1, items@[j].2),
            decreases items.len() - i,
        {
            let (_id, at, color) = items[i];
            proof {
                assert(self.rows().contains_key(items@[i as int].0));
            }
            let rect = cell_rect(&self.surface, &at, color);
            rects.push(rect);
            i += 1;
        }
        rects
    }

    /// One frame. Adds `delta` milliseconds to the clock; if a tick falls
    /// due, runs the movement system and then the eating system; renders;
    /// and releases the key latch. `after_reset` and `after_meal` are the
    /// cells for new food, should the tick call for it.
    pub fn run(&mut self, delta: i32, after_reset: Position, after_meal: Position) -> (res: Result<
        Vec<Rect>,
        AccessError,
    >)
        requires
            old(self).well_formed(),
            old(self).level_spec() < i32::MAX,
            0 <= delta <= MAX_DELTA,
            after_reset.on_grid(),
            after_meal.on_grid(),
        ensures
            res is Ok,
            final(self).well_formed(),
            final(self).clock() == carried(old(self).clock(), delta as int),
            final(self).heading() == old(self).heading(),
            final(self).canvas() == old(self).canvas(),
            !final(self).latched(),
            if falls_due(old(self).clock(), delta as int) {
                ticked(old(self), final(self), after_reset, after_meal)
            } else {
                same_world(old(self), final(self))
            },
            draws(final(self).rows(), final(self).canvas(), res.unwrap()@),
    {
        let beat = advance(self.time, delta);
        self.time = beat.time;
        if beat.ticked {
            self.move_snake_system(after_reset)?;
            let ghost mid = *self;
            self.eat_system(after_meal)?;
            proof {
                assert(moved(old(self), &mid, after_reset));
            }
        }
        let rects = self.render_system();
        self.made_move = false;
        Ok(rects)
    }

    /// The food's cell.
    pub fn food_position(&self) -> (res: Result<Position, AccessError>)
        requires
            self.well_formed(),
        ensures
            res == Ok::<Position, AccessError>(self.food_at()),
    {
        let items = foods(&self.world);
        proof {
            let k = choose|k: int| 0 <= k < items@.len() && #[trigger] items@[k].0 == self.food();
            assert(self.rows().contains_key(items@[0].0));
        }
        if items.len() > 0 {
            let (_id, at) = items[0];
            Ok(at)
        } else {
            Err(AccessError)
        }
    }

    /// The trail: the cell of each segment and the ticks it has left.
    pub fn segments(&self) -> (trail: Vec<(Position, i32)>)
        ensures
            lists_trail(self.rows(), trail@),
    {
        let items = bodies(&self.world);
        let mut trail: Vec<(Position, i32)> = Vec::new();
        let mut i: usize = 0;
        while i < items.len()
            invariant
                0 <= i <= items.len(),
                trail@.len() == i,
                forall|j: int| 0 <= j < i ==> #[trigger] trail@[j] == (items@[j].2, items@[j].1.0),
            decreases items.len() - i,
        {
            let (_id, body, at) = items[i];
            trail.push((at, body.0));
            i += 1;
        }
        trail
    }

    /// The direction of travel.
    pub fn direction(&self) -> (d: Direction)
        ensures
            d == self.heading(),
    {
        self.direction
    }

    /// Milliseconds since the last tick fell due.
    pub fn time(&self) -> (t: i32)
        ensures
            t == self.clock(),
    {
        self.time
    }

    /// Whether a key was taken in this frame.
    pub fn made_move(&self) -> (b: bool)
        ensures
            b == self.latched(),
    {
        self.made_move
    }

    /// The head's level.
    pub fn level(&self) -> (res: Result<i32, AccessError>)
        requires
            self.well_formed(),
        ensures
            res == Ok::<i32, AccessError>(self.level_spec()),
    {
        let head = lift(head_of(&self.world, self.head))?;
        Ok(head.0)
    }

    /// The head's cell.
    pub fn head_position(&self) -> (res: Result<Position, AccessError>)
        requires
            self.well_formed(),
        ensures
            res == Ok::<Position, AccessError>(self.head_at()),
    {
        lift(position_of(&self.world, self.head))
    }
}


/// A well-formed game has exactly one head and exactly one food: the head
/// entity carries a head mark and a position, the food entity the food mark
/// and a position on the grid, and no other entity carries either mark.
pub proof fn lemma_one_head_one_food(game: &Snake)
    requires
        game.well_formed(),
    ensures
        game.rows().contains_key(game.head()),
        game.rows()[game.head()].head is Some,
        game.rows()[game.head()].position is Some,
        game.rows().contains_key(game.food()),
        game.rows()[game.food()].food,
        game.food_at().on_grid(),
        forall|e: Entity| #[trigger] game.rows().contains_key(e) && game.rows()[e].head is Some ==> e == game.head(),
        forall|e: Entity| #[trigger] game.rows().contains_key(e) && game.rows()[e].food ==> e == game.food(),
{
}

/// A game that has started over holds the head and the food and no other
/// entity; the head stands in the middle of the grid at the level it had.
pub proof fn lemma_restart_leaves_head_and_food(pre: &Snake, post: &Snake, food_at: Position)
    requires
        restarted(pre, post, food_at),
    ensures
        forall|e: Entity| #[trigger] post.rows().contains_key(e) <==> e == post.head() || e == post.food(),
        post.head() != post.food(),
        post.rows()[post.head()] == Row::of_head(pre.level_spec(), Position::center()),
        post.rows()[post.food()] == Row::of_food(food_at),
{
}

/// A move whose next cell is off the grid, or on a trail segment that
/// outlives the tick, starts the game over.
pub proof fn lemma_collision_restarts(pre: &Snake, post: &Snake, food_at: Position)
    requires
        moved(pre, post, food_at),
        !next_cell(pre.head_at(), pre.heading()).on_grid() || bitten(
            pre.rows(),
            next_cell(pre.head_at(), pre.heading()),
        ),
    ensures
        restarted(pre, post, food_at),
        forall|e: Entity| #[trigger] post.rows().contains_key(e) <==> e == post.head() || e == post.food(),
        post.head_at() == Position::center(),
{
}

/// In a move that does not start the game over, each trail segment with more
/// than one tick left stays on its cell with one tick less, and one on its
/// last tick makes way: if its entity is still in the world, it is the new
/// segment.
pub proof fn lemma_trail_ages(pre: &Snake, post: &Snake, food_at: Position, e: Entity)
    requires
        pre.well_formed(),
        moved(pre, post, food_at),
        next_cell(pre.head_at(), pre.heading()).on_grid(),
        !bitten(pre.rows(), next_cell(pre.head_at(), pre.heading())),
        pre.rows().contains_key(e),
        pre.rows()[e].body is Some,
    ensures
        pre.rows()[e].body != Some(SnakeBody(1)) ==> post.rows().contains_key(e) && post.rows()[e]
            == Row::of_body((pre.rows()[e].body.unwrap().0 - 1) as i32, pre.rows()[e].position.unwrap()),
        pre.rows()[e].body == Some(SnakeBody(1)) && post.rows().contains_key(e) ==> post.rows()[e]
            == Row::of_body(pre.level_spec(), pre.head_at()),
        post.head_at() == next_cell(pre.head_at(), pre.heading()),
{
    assert(e != pre.head() && e != pre.food());
    assert(pre.rows()[e].is_body());
}

/// A meal removes the old food, raises the head's level by exactly one, and
/// leaves exactly one food entity, on the grid.
pub proof fn lemma_meal(pre: &Snake, post: &Snake, food_at: Position)
    requires
        pre.well_formed(),
        pre.level_spec() < i32::MAX,
        food_at.on_grid(),
        ate(pre, post, food_at),
        pre.food_at() == pre.head_at(),
    ensures
        post.level_spec() == pre.level_spec() + 1,
        post.food() != pre.food() ==> !post.rows().contains_key(pre.food()),
        post.rows().contains_key(post.food()),
        post.food_at() == food_at,
        post.food_at().on_grid(),
        forall|e: Entity| #[trigger] post.rows().contains_key(e) && post.rows()[e].food ==> e == post.food(),
{
}

proof fn lemma_drawn_twice(rows: Map<Entity, Row>, surface: Surface, a: Seq<Rect>, b: Seq<Rect>)
    requires
        draws(rows, surface, a),
        draws(rows, surface, b),
    ensures
        forall|r: Rect| a.contains(r) ==> b.contains(r),
{
    let xs = choose|items: Seq<(Entity, Position, Color)>| #[trigger]
        lists_drawables(rows, items) && a.len() == items.len() && forall|i: int|
            0 <= i < items.len() ==> #[trigger] a[i] == surface.rect_at(items[i].1, items[i].2);
    let ys = choose|items: Seq<(Entity, Position, Color)>| #[trigger]
        lists_drawables(rows, items) && b.len() == items.len() && forall|i: int|
            0 <= i < items.len() ==> #[trigger] b[i] == surface.rect_at(items[i].1, items[i].2);
    assert forall|r: Rect| a.contains(r) implies b.contains(r) by {
        let i = choose|i: int| 0 <= i < a.len() && a[i] == r;
        let e = xs[i].0;
        assert(rows.contains_key(xs[i].0));
        let k = choose|k: int| 0 <= k < ys.len() && #[trigger] ys[k].0 == e;
        assert(rows.contains_key(ys[k].0));
        assert(b[k] == r);
    }
}

/// Rendering one world twice on one surface draws the same set of
/// rectangles.
pub proof fn lemma_render_idempotent(rows: Map<Entity, Row>, surface: Surface, a: Seq<Rect>, b: Seq<Rect>)
    requires
        draws(rows, surface, a),
        draws(rows, surface, b),
    ensures
        a.to_set() == b.to_set(),
{
    lemma_drawn_twice(rows, surface, a, b);
    lemma_drawn_twice(rows, surface, b, a);
    assert(a.to_set() =~= b.to_set());
}

} // verus!
