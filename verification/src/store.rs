//! The entity store: a `hecs::World`, and what the simulation asks of it.
//!
//! Nothing in this module is proved. Each function makes one call into hecs,
//! and its contract says what that call does to the rows of the world.

use crate::components::{Color, Food, Position, Row, SnakeBody, SnakeHead};
use hecs::{ComponentError, Entity, NoSuchEntity, World};
use vstd::prelude::*;

verus! {

#[verifier::external_type_specification]
#[verifier::external_body]
pub struct ExWorld(hecs::World);

#[verifier::external_type_specification]
#[verifier::external_body]
pub struct ExEntity(hecs::Entity);

#[verifier::external_type_specification]
#[verifier::external_body]
pub struct ExNoSuchEntity(hecs::NoSuchEntity);

#[verifier::external_type_specification]
#[verifier::external_body]
pub struct ExComponentError(hecs::ComponentError);

/// The entities that a world holds, each with the components of this crate
/// that it carries. An entity that was reserved and not yet flushed counts,
/// with a row that carries nothing.
pub uninterp spec fn world_rows(world: World) -> Map<Entity, Row>;

/// The rows of a world that holds no entity.
pub open spec fn no_rows() -> Map<Entity, Row> {
    Map::empty()
}

/// Whether a world with these rows can take one more entity.
pub open spec fn has_room(rows: Map<Entity, Row>) -> bool {
    rows.dom().finite() && rows.dom().len() < u32::MAX
}

/// Whether `items` names each entity of `rows` that has a trail mark and a
/// position, once, with both values.
pub open spec fn lists_bodies(rows: Map<Entity, Row>, items: Seq<(Entity, SnakeBody, Position)>) -> bool {
    &&& forall|i: int|
        0 <= i < items.len() ==> rows.contains_key(#[trigger] items[i].0) && rows[items[i].0].body
            == Some(items[i].1) && rows[items[i].0].position == Some(items[i].2)
    &&& forall|i: int, j: int| 0 <= i < j < items.len() ==> #[trigger] items[i].0 != #[trigger] items[j].0
    &&& forall|e: Entity| #[trigger]
        rows.contains_key(e) && rows[e].body is Some && rows[e].position is Some ==> exists|i: int|
            0 <= i < items.len() && #[trigger] items[i].0 == e
}

/// Whether `items` names each entity of `rows` that has the food mark and a
/// position, once, with its position.
pub open spec fn lists_foods(rows: Map<Entity, Row>, items: Seq<(Entity, Position)>) -> bool {
    &&& forall|i: int|
        0 <= i < items.len() ==> rows.contains_key(#[trigger] items[i].0) && rows[items[i].0].food
            && rows[items[i].0].position == Some(items[i].1)
    &&& forall|i: int, j: int| 0 <= i < j < items.len() ==> #[trigger] items[i].0 != #[trigger] items[j].0
    &&& forall|e: Entity| #[trigger]
        rows.contains_key(e) && rows[e].food && rows[e].position is Some ==> exists|i: int|
            0 <= i < items.len() && #[trigger] items[i].0 == e
}

/// Whether `items` names each entity of `rows` that has a position and a
/// colour, once, with both values.
pub open spec fn lists_drawables(rows: Map<Entity, Row>, items: Seq<(Entity, Position, Color)>) -> bool {
    &&& forall|i: int|
        0 <= i < items.len() ==> rows.contains_key(#[trigger] items[i].0)
            && rows[items[i].0].position == Some(items[i].1) && rows[items[i].0].color == Some(
            items[i].2,
        )
    &&& forall|i: int, j: int| 0 <= i < j < items.len() ==> #[trigger] items[i].0 != #[trigger] items[j].0
    &&& forall|e: Entity| #[trigger]
        rows.contains_key(e) && rows[e].position is Some && rows[e].color is Some ==> exists|i: int|
            0 <= i < items.len() && #[trigger] items[i].0 == e
}

/// `World::new`: the new world holds no entity.
#[verifier::external_body]
pub(crate) fn new_world() -> (world: World)
    ensures
        world_rows(world) == no_rows(),
{
    World::new()
}

/// `World::clear`: afterwards the world holds no entity.
#[verifier::external_body]
pub(crate) fn clear(world: &mut World)
    ensures
        world_rows(*final(world)) == no_rows(),
{
    world.clear()
}

/// `World::spawn` with a head mark, a colour and a position: the world gains
/// one entity, which it did not hold, with exactly these three components.
/// hecs numbers its entities in 32 bits and stops where they run out, so the
/// world must have room.
#[verifier::external_body]
pub(crate) fn spawn_head(world: &mut World, head: SnakeHead, color: Color, at: Position) -> (e: Entity)
    requires
        has_room(world_rows(*old(world))),
    ensures
        !world_rows(*old(world)).contains_key(e),
        world_rows(*final(world)) == world_rows(*old(world)).insert(
            e,
            (Row { head: Some(head), body: None, food: false, position: Some(at), color: Some(color) }),
        ),
{
    world.spawn((head, color, at))
}

/// `World::spawn` with a trail mark, a colour and a position: the world gains
/// one entity, which it did not hold, with exactly these three components.
/// hecs numbers its entities in 32 bits and stops where they run out, so the
/// world must have room.
#[verifier::external_body]
pub(crate) fn spawn_body(world: &mut World, body: SnakeBody, color: Color, at: Position) -> (e: Entity)
    requires
        has_room(world_rows(*old(world))),
    ensures
        !world_rows(*old(world)).contains_key(e),
        world_rows(*final(world)) == world_rows(*old(world)).insert(
            e,
            (Row { head: None, body: Some(body), food: false, position: Some(at), color: Some(color) }),
        ),
{
    world.spawn((body, color, at))
}

/// `World::spawn` with the food mark, a colour and a position: the world gains
/// one entity, which it did not hold, with exactly these three components.
/// hecs numbers its entities in 32 bits and stops where they run out, so the
/// world must have room.
#[verifier::external_body]
pub(crate) fn spawn_food(world: &mut World, color: Color, at: Position) -> (e: Entity)
    requires
        has_room(world_rows(*old(world))),
    ensures
        !world_rows(*old(world)).contains_key(e),
        world_rows(*final(world)) == world_rows(*old(world)).insert(
            e,
            (Row { head: None, body: None, food: true, position: Some(at), color: Some(color) }),
        ),
{
    world.spawn((Food, color, at))
}

/// `World::despawn`: succeeds exactly on an entity that the world holds, and
/// then removes it with all it carries; on failure the world is as before.
#[verifier::external_body]
pub(crate) fn despawn(world: &mut World, e: Entity) -> (res: Result<(), NoSuchEntity>)
    ensures
        res is Ok <==> world_rows(*old(world)).contains_key(e),
        res is Ok ==> world_rows(*final(world)) == world_rows(*old(world)).remove(e),
        res is Err ==> world_rows(*final(world)) == world_rows(*old(world)),
{
    world.despawn(e)
}

/// `World::get` for a shared `Position`: succeeds exactly on an entity that
/// the world holds and that has a position, and returns a copy of it.
#[verifier::external_body]
pub(crate) fn position_of(world: &World, e: Entity) -> (res: Result<Position, ComponentError>)
    ensures
        match res {
            Ok(at) => world_rows(*world).contains_key(e) && world_rows(*world)[e].position == Some(at),
            Err(_) => !(world_rows(*world).contains_key(e) && world_rows(*world)[e].position is Some),
        },
{
    world.get::<&Position>(e).map(|p| *p)
}

/// `World::get` for a shared `SnakeHead`: succeeds exactly on an entity that
/// the world holds and that has a head mark, and returns a copy of it.
#[verifier::external_body]
pub(crate) fn head_of(world: &World, e: Entity) -> (res: Result<SnakeHead, ComponentError>)
    ensures
        match res {
            Ok(head) => world_rows(*world).contains_key(e) && world_rows(*world)[e].head == Some(head),
            Err(_) => !(world_rows(*world).contains_key(e) && world_rows(*world)[e].head is Some),
        },
{
    world.get::<&SnakeHead>(e).map(|h| *h)
}

/// `World::get` for a unique `Position`, written through: succeeds exactly on
/// an entity that the world holds and that has a position, and then replaces
/// that position; on failure the world is as before.
#[verifier::external_body]
pub(crate) fn set_position(world: &mut World, e: Entity, at: Position) -> (res: Result<(), ComponentError>)
    ensures
        res is Ok <==> world_rows(*old(world)).contains_key(e) && world_rows(*old(world))[e].position is Some,
        res is Ok ==> world_rows(*final(world)) == world_rows(*old(world)).insert(
            e,
            (Row { position: Some(at), ..world_rows(*old(world))[e] }),
        ),
        res is Err ==> world_rows(*final(world)) == world_rows(*old(world)),
{
    let mut slot = world.get::<&mut Position>(e)?;
    *slot = at;
    Ok(())
}

/// `World::get` for a unique `SnakeHead`, written through: succeeds exactly
/// on an entity that the world holds and that has a head mark, and then
/// replaces that mark; on failure the world is as before.
#[verifier::external_body]
pub(crate) fn set_head(world: &mut World, e: Entity, head: SnakeHead) -> (res: Result<(), ComponentError>)
    ensures
        res is Ok <==> world_rows(*old(world)).contains_key(e) && world_rows(*old(world))[e].head is Some,
        res is Ok ==> world_rows(*final(world)) == world_rows(*old(world)).insert(
            e,
            (Row { head: Some(head), ..world_rows(*old(world))[e] }),
        ),
        res is Err ==> world_rows(*final(world)) == world_rows(*old(world)),
{
    let mut slot = world.get::<&mut SnakeHead>(e)?;
    *slot = head;
    Ok(())
}

/// `World::get` for a unique `SnakeBody`, written through: succeeds exactly
/// on an entity that the world holds and that has a trail mark, and then
/// replaces that mark; on failure the world is as before.
#[verifier::external_body]
pub(crate) fn set_body(world: &mut World, e: Entity, body: SnakeBody) -> (res: Result<(), ComponentError>)
    ensures
        res is Ok <==> world_rows(*old(world)).contains_key(e) && world_rows(*old(world))[e].body is Some,
        res is Ok ==> world_rows(*final(world)) == world_rows(*old(world)).insert(
            e,
            (Row { body: Some(body), ..world_rows(*old(world))[e] }),
        ),
        res is Err ==> world_rows(*final(world)) == world_rows(*old(world)),
{
    let mut slot = world.get::<&mut SnakeBody>(e)?;
    *slot = body;
    Ok(())
}

/// `World::query` for entities with a trail mark and a position: each such
/// entity comes once, with copies of both, in an order that is left open.
#[verifier::external_body]
pub(crate) fn bodies(world: &World) -> (items: Vec<(Entity, SnakeBody, Position)>)
    ensures
        lists_bodies(world_rows(*world), items@),
{
    world.query::<(Entity, &SnakeBody, &Position)>().iter().map(|(e, b, p)| (e, *b, *p)).collect()
}

/// `World::query` for entities with the food mark and a position: each such
/// entity comes once, with a copy of its position, in an order that is left
/// open.
#[verifier::external_body]
pub(crate) fn foods(world: &World) -> (items: Vec<(Entity, Position)>)
    ensures
        lists_foods(world_rows(*world), items@),
{
    world.query::<(Entity, &Food, &Position)>().iter().map(|(e, _, p)| (e, *p)).collect()
}

/// `World::query` for entities with a position and a colour: each such entity
/// comes once, with copies of both, in an order that is left open.
#[verifier::external_body]
pub(crate) fn drawables(world: &World) -> (items: Vec<(Entity, Position, Color)>)
    ensures
        lists_drawables(world_rows(*world), items@),
{
    world.query::<(Entity, &Position, &Color)>().iter().map(|(e, p, c)| (e, *p, *c)).collect()
}

} // verus!
