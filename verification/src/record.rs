//! Stored rows, and their classification into typed objects.

use crate::decimal::{decimal_i64, decimal_to_i64};
use crate::error::{IntegrityFault, QueryError};
use crate::schema::{
    AssetName, Asteria, AsteriaView, Fuel, FuelView, MapObject, MapObjectView, PolicyId, Position,
    Ship, ShipView,
};
use vstd::prelude::*;
use vstd::string::*;

verus! {

/// One row of the store, as it is read: every column may be missing.
#[derive(Clone, Debug, PartialEq, Eq)]
pub struct MapObjectRecord {
    pub id: Option<String>,
    pub fuel: Option<i32>,
    pub position_x: Option<i32>,
    pub position_y: Option<i32>,
    pub policy_id: Option<String>,
    pub token_name: Option<String>,
    pub pilot_name: Option<String>,
    pub class: Option<String>,
    /// The stored reward, an arbitrary-precision decimal, as its text.
    pub total_rewards: Option<String>,
}

pub struct RecordView {
    pub id: Option<Seq<char>>,
    pub fuel: Option<i32>,
    pub position_x: Option<i32>,
    pub position_y: Option<i32>,
    pub policy_id: Option<Seq<char>>,
    pub token_name: Option<Seq<char>>,
    pub pilot_name: Option<Seq<char>>,
    pub class: Option<Seq<char>>,
    pub total_rewards: Option<Seq<char>>,
}

pub open spec fn text_of(column: Option<String>) -> Option<Seq<char>> {
    match column {
        Some(s) => Some(s@),
        None => None,
    }
}

impl View for MapObjectRecord {
    type V = RecordView;

    open spec fn view(&self) -> RecordView {
        RecordView {
            id: text_of(self.id),
            fuel: self.fuel,
            position_x: self.position_x,
            position_y: self.position_y,
            policy_id: text_of(self.policy_id),
            token_name: text_of(self.token_name),
            pilot_name: text_of(self.pilot_name),
            class: text_of(self.class),
            total_rewards: text_of(self.total_rewards),
        }
    }
}

/// The views of a run of rows, in their order.
pub open spec fn views_of(rows: Seq<MapObjectRecord>) -> Seq<RecordView> {
    rows.map_values(|r: MapObjectRecord| r@)
}

/// A missing text column reads as the empty text.
pub open spec fn or_empty(column: Option<Seq<char>>) -> Seq<char> {
    match column {
        Some(s) => s,
        None => Seq::empty(),
    }
}

/// A missing number column reads as zero.
pub open spec fn or_zero(column: Option<i32>) -> i32 {
    match column {
        Some(n) => n,
        None => 0,
    }
}

pub open spec fn ship_tag() -> Seq<char> {
    "Ship"@
}

pub open spec fn fuel_tag() -> Seq<char> {
    "Fuel"@
}

pub open spec fn asteria_tag() -> Seq<char> {
    "Asteria"@
}

/// The ship that a row describes, whatever its class tag says.
pub open spec fn ship_of(r: RecordView) -> ShipView {
    ShipView {
        id: or_empty(r.id),
        fuel: or_zero(r.fuel),
        x: or_zero(r.position_x),
        y: or_zero(r.position_y),
        shipyard_policy: or_empty(r.policy_id),
        ship_token_name: or_empty(r.token_name),
        pilot_token_name: or_empty(r.pilot_name),
        class: or_empty(r.class),
    }
}

/// The fuel pellet that a row describes, whatever its class tag says.
pub open spec fn fuel_of(r: RecordView) -> FuelView {
    FuelView {
        id: or_empty(r.id),
        fuel: or_zero(r.fuel),
        x: or_zero(r.position_x),
        y: or_zero(r.position_y),
        shipyard_policy: or_empty(r.policy_id),
        class: or_empty(r.class),
    }
}

/// The reward of a row as a 64-bit integer: zero where none is stored, the
/// stored decimal with its fraction cut off where that fits, else nothing.
pub open spec fn reward_of(r: RecordView) -> Option<i64> {
    match r.total_rewards {
        None => Some(0i64),
        Some(t) => decimal_i64(t),
    }
}

/// The aggregate object that a row with reward `reward` describes.
pub open spec fn asteria_of(r: RecordView, reward: i64) -> AsteriaView {
    AsteriaView {
        id: or_empty(r.id),
        x: or_zero(r.position_x),
        y: or_zero(r.position_y),
        total_rewards: reward,
        class: or_empty(r.class),
    }
}

/// The object that a row stands for. The class tag alone decides the kind;
/// each kind reads its own columns and no others.
pub open spec fn classified(r: RecordView) -> Result<MapObjectView, IntegrityFault> {
    if r.class == Some(ship_tag()) {
        Ok(MapObjectView::Ship(ship_of(r)))
    } else if r.class == Some(fuel_tag()) {
        Ok(MapObjectView::Fuel(fuel_of(r)))
    } else if r.class == Some(asteria_tag()) {
        match reward_of(r) {
            Some(reward) => Ok(MapObjectView::Asteria(asteria_of(r, reward))),
            None => Err(IntegrityFault::RewardOutOfRange),
        }
    } else {
        Err(IntegrityFault::UnknownClass)
    }
}

/// Whether a text column is there and holds `literal`.
pub fn column_is(column: &Option<String>, literal: &str) -> (b: bool)
    ensures
        b == (text_of(*column) == Some(literal@)),
{
    match column {
        Some(s) => {
            let wanted = String::from_str(literal);
            *s == wanted
        },
        None => false,
    }
}

/// A copy of a text column, empty where the column is missing.
pub fn column_or_empty(column: &Option<String>) -> (s: String)
    ensures
        s@ == or_empty(text_of(*column)),
{
    match column {
        Some(s) => s.clone(),
        None => String::new(),
    }
}

/// A number column, zero where it is missing.
pub fn column_or_zero(column: &Option<i32>) -> (n: i32)
    ensures
        n == or_zero(*column),
{
    match column {
        Some(n) => *n,
        None => 0,
    }
}

impl MapObjectRecord {
    /// The row read as a ship.
    pub fn to_ship(&self) -> (s: Ship)
        ensures
            s@ == ship_of(self@),
    {
        Ship {
            id: column_or_empty(&self.id),
            fuel: column_or_zero(&self.fuel),
            position: Position {
                x: column_or_zero(&self.position_x),
                y: column_or_zero(&self.position_y),
            },
            shipyard_policy: PolicyId { id: column_or_empty(&self.policy_id) },
            ship_token_name: AssetName { name: column_or_empty(&self.token_name) },
            pilot_token_name: AssetName { name: column_or_empty(&self.pilot_name) },
            class: column_or_empty(&self.class),
        }
    }

    /// The row read as a fuel pellet.
    pub fn to_fuel(&self) -> (f: Fuel)
        ensures
            f@ == fuel_of(self@),
    {
        Fuel {
            id: column_or_empty(&self.id),
            fuel: column_or_zero(&self.fuel),
            position: Position {
                x: column_or_zero(&self.position_x),
                y: column_or_zero(&self.position_y),
            },
            shipyard_policy: PolicyId { id: column_or_empty(&self.policy_id) },
            class: column_or_empty(&self.class),
        }
    }

    /// The row's reward as a 64-bit integer, or the fault where the stored
    /// decimal cannot be cut down to one.
    pub fn reward(&self) -> (r: Result<i64, QueryError>)
        ensures
            match reward_of(self@) {
                Some(v) => r == Ok::<i64, QueryError>(v),
                None => r == Err::<i64, QueryError>(
                    QueryError::DataIntegrity(IntegrityFault::RewardOutOfRange),
                ),
            },
    {
        match &self.total_rewards {
            None => Ok(0),
            Some(t) => match decimal_to_i64(t.as_str()) {
                Some(v) => Ok(v),
                None => Err(QueryError::DataIntegrity(IntegrityFault::RewardOutOfRange)),
            },
        }
    }

    /// Classifies the row by its class tag. A row whose tag is missing or
    /// unknown, or an aggregate row whose reward cannot be cut down to 64
    /// bits, is a fault: no partial object is ever made.
    pub fn classify(&self) -> (r: Result<MapObject, QueryError>)
        ensures
            match classified(self@) {
                Ok(v) => r matches Ok(o) && o@ == v,
                Err(fault) => r == Err::<MapObject, QueryError>(QueryError::DataIntegrity(fault)),
            },
    {
        if column_is(&self.class, "Ship") {
            Ok(MapObject::Ship(self.to_ship()))
        } else if column_is(&self.class, "Fuel") {
            Ok(MapObject::Fuel(self.to_fuel()))
        } else if column_is(&self.class, "Asteria") {
            match self.reward() {
                Ok(reward) => Ok(
                    MapObject::Asteria(
                        Asteria {
                            id: column_or_empty(&self.id),
                            position: Position {
                                x: column_or_zero(&self.position_x),
                                y: column_or_zero(&self.position_y),
                            },
                            total_rewards: reward,
                            class: column_or_empty(&self.class),
                        },
                    ),
                ),
                Err(e) => Err(e),
            }
        } else {
            Err(QueryError::DataIntegrity(IntegrityFault::UnknownClass))
        }
    }
}

} // verus!
