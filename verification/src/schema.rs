//! The typed objects that queries answer with.

use vstd::prelude::*;

verus! {

/// A point of the integer grid.
#[derive(Clone, Debug, PartialEq, Eq)]
pub struct Position {
    pub x: i32,
    pub y: i32,
}

/// The tenant: the key that keeps one deployment's objects apart from another's.
#[derive(Clone, Debug, PartialEq, Eq)]
pub struct PolicyId {
    pub id: String,
}

#[derive(Clone, Debug, PartialEq, Eq)]
pub struct AssetName {
    pub name: String,
}

#[derive(Clone, Debug, PartialEq, Eq)]
pub struct AssetNameInput {
    pub name: String,
}

#[derive(Clone, Copy, Debug, PartialEq, Eq)]
pub struct PositionInput {
    pub x: i32,
    pub y: i32,
}

#[derive(Clone, Debug, PartialEq, Eq)]
pub struct Ship {
    pub id: String,
    pub fuel: i32,
    pub position: Position,
    pub shipyard_policy: PolicyId,
    pub ship_token_name: AssetName,
    pub pilot_token_name: AssetName,
    pub class: String,
}

#[derive(Clone, Debug, PartialEq, Eq)]
pub struct Fuel {
    pub id: String,
    pub fuel: i32,
    pub position: Position,
    pub shipyard_policy: PolicyId,
    pub class: String,
}

#[derive(Clone, Debug, PartialEq, Eq)]
pub struct Asteria {
    pub id: String,
    pub position: Position,
    pub total_rewards: i64,
    pub class: String,
}

/// The aggregate of one tenant.
#[derive(Clone, Debug, PartialEq, Eq)]
pub struct AsteriaState {
    pub ship_counter: i32,
    pub shipyard_policy: PolicyId,
    pub reward: i64,
}

#[derive(Clone, Copy, Debug, PartialEq, Eq, Structural)]
pub enum ShipActionType {
    Move,
    GatherFuel,
}

#[derive(Clone, Debug, PartialEq, Eq)]
pub struct ShipAction {
    pub action_id: String,
    pub ship_id: String,
    pub action_type: ShipActionType,
    pub position: Position,
    pub timestamp: String,
}

/// One object of the world, in one of its three kinds.
#[derive(Clone, Debug, PartialEq, Eq)]
pub enum MapObject {
    Ship(Ship),
    Fuel(Fuel),
    Asteria(Asteria),
}

/// What every kind of object has in common: a position and a class tag.
#[derive(Clone, Debug, PartialEq, Eq)]
pub enum PositionalInterface {
    Ship(Ship),
    Fuel(Fuel),
    Asteria(Asteria),
}

pub struct ShipView {
    pub id: Seq<char>,
    pub fuel: i32,
    pub x: i32,
    pub y: i32,
    pub shipyard_policy: Seq<char>,
    pub ship_token_name: Seq<char>,
    pub pilot_token_name: Seq<char>,
    pub class: Seq<char>,
}

pub struct FuelView {
    pub id: Seq<char>,
    pub fuel: i32,
    pub x: i32,
    pub y: i32,
    pub shipyard_policy: Seq<char>,
    pub class: Seq<char>,
}

pub struct AsteriaView {
    pub id: Seq<char>,
    pub x: i32,
    pub y: i32,
    pub total_rewards: i64,
    pub class: Seq<char>,
}

pub struct AsteriaStateView {
    pub ship_counter: i32,
    pub shipyard_policy: Seq<char>,
    pub reward: i64,
}

pub struct ShipActionView {
    pub action_id: Seq<char>,
    pub ship_id: Seq<char>,
    pub action_type: ShipActionType,
    pub x: i32,
    pub y: i32,
    pub timestamp: Seq<char>,
}

pub enum MapObjectView {
    Ship(ShipView),
    Fuel(FuelView),
    Asteria(AsteriaView),
}

impl View for Ship {
    type V = ShipView;

    open spec fn view(&self) -> ShipView {
        ShipView {
            id: self.id@,
            fuel: self.fuel,
            x: self.position.x,
            y: self.position.y,
            shipyard_policy: self.shipyard_policy.id@,
            ship_token_name: self.ship_token_name.name@,
            pilot_token_name: self.pilot_token_name.name@,
            class: self.class@,
        }
    }
}

impl View for Fuel {
    type V = FuelView;

    open spec fn view(&self) -> FuelView {
        FuelView {
            id: self.id@,
            fuel: self.fuel,
            x: self.position.x,
            y: self.position.y,
            shipyard_policy: self.shipyard_policy.id@,
            class: self.class@,
        }
    }
}

impl View for Asteria {
    type V = AsteriaView;

    open spec fn view(&self) -> AsteriaView {
        AsteriaView {
            id: self.id@,
            x: self.position.x,
            y: self.position.y,
            total_rewards: self.total_rewards,
            class: self.class@,
        }
    }
}

impl View for AsteriaState {
    type V = AsteriaStateView;

    open spec fn view(&self) -> AsteriaStateView {
        AsteriaStateView {
            ship_counter: self.ship_counter,
            shipyard_policy: self.shipyard_policy.id@,
            reward: self.reward,
        }
    }
}

impl View for ShipAction {
    type V = ShipActionView;

    open spec fn view(&self) -> ShipActionView {
        ShipActionView {
            action_id: self.action_id@,
            ship_id: self.ship_id@,
            action_type: self.action_type,
            x: self.position.x,
            y: self.position.y,
            timestamp: self.timestamp@,
        }
    }
}

impl View for MapObject {
    type V = MapObjectView;

    open spec fn view(&self) -> MapObjectView {
        match self {
            MapObject::Ship(s) => MapObjectView::Ship(s@),
            MapObject::Fuel(f) => MapObjectView::Fuel(f@),
            MapObject::Asteria(a) => MapObjectView::Asteria(a@),
        }
    }
}

impl View for PositionalInterface {
    type V = MapObjectView;

    open spec fn view(&self) -> MapObjectView {
        match self {
            PositionalInterface::Ship(s) => MapObjectView::Ship(s@),
            PositionalInterface::Fuel(f) => MapObjectView::Fuel(f@),
            PositionalInterface::Asteria(a) => MapObjectView::Asteria(a@),
        }
    }
}

impl MapObjectView {
    pub open spec fn x(self) -> i32 {
        match self {
            MapObjectView::Ship(s) => s.x,
            MapObjectView::Fuel(f) => f.x,
            MapObjectView::Asteria(a) => a.x,
        }
    }

    pub open spec fn y(self) -> i32 {
        match self {
            MapObjectView::Ship(s) => s.y,
            MapObjectView::Fuel(f) => f.y,
            MapObjectView::Asteria(a) => a.y,
        }
    }

    pub open spec fn class(self) -> Seq<char> {
        match self {
            MapObjectView::Ship(s) => s.class,
            MapObjectView::Fuel(f) => f.class,
            MapObjectView::Asteria(a) => a.class,
        }
    }
}

impl MapObject {
    /// Where the object is.
    pub fn position(&self) -> (p: &Position)
        ensures
            p.x == self@.x(),
            p.y == self@.y(),
    {
        match self {
            MapObject::Ship(s) => &s.position,
            MapObject::Fuel(f) => &f.position,
            MapObject::Asteria(a) => &a.position,
        }
    }

    /// The object's class tag.
    pub fn class(&self) -> (c: &String)
        ensures
            c@ == self@.class(),
    {
        match self {
            MapObject::Ship(s) => &s.class,
            MapObject::Fuel(f) => &f.class,
            MapObject::Asteria(a) => &a.class,
        }
    }
}

impl PositionalInterface {
    /// The object seen through what all kinds have in common.
    pub fn of(object: MapObject) -> (p: PositionalInterface)
        ensures
            p@ == object@,
    {
        match object {
            MapObject::Ship(s) => PositionalInterface::Ship(s),
            MapObject::Fuel(f) => PositionalInterface::Fuel(f),
            MapObject::Asteria(a) => PositionalInterface::Asteria(a),
        }
    }

    /// Where the object is.
    pub fn position(&self) -> (p: &Position)
        ensures
            p.x == self@.x(),
            p.y == self@.y(),
    {
        match self {
            PositionalInterface::Ship(s) => &s.position,
            PositionalInterface::Fuel(f) => &f.position,
            PositionalInterface::Asteria(a) => &a.position,
        }
    }

    /// The object's class tag.
    pub fn class(&self) -> (c: &String)
        ensures
            c@ == self@.class(),
    {
        match self {
            PositionalInterface::Ship(s) => &s.class,
            PositionalInterface::Fuel(f) => &f.class,
            PositionalInterface::Asteria(a) => &a.class,
        }
    }
}

} // verus!
