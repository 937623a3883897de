//! The objects of a snapshot, as the remote query service describes them.

use vstd::prelude::*;

verus! {

/// The kind of an object: a mobile unit, a resource pellet, or the aggregate.
#[derive(Clone, Copy, Debug, PartialEq, Eq, Structural)]
pub enum AssetClass {
    Ship,
    Fuel,
    Asteria,
}

#[derive(Clone, Debug, PartialEq, Eq)]
pub struct AssetTokenDto {
    pub name: String,
}

#[derive(Clone, Copy, Debug, PartialEq, Eq, Structural)]
pub struct AssetPositionDto {
    pub x: i32,
    pub y: i32,
}

/// One object of a snapshot. `id` is stable: the same object carries the
/// same `id` in every snapshot that holds it.
#[derive(Clone, Debug, PartialEq, Eq)]
pub struct AssetDto {
    pub id: String,
    pub ship_token_name: Option<AssetTokenDto>,
    pub fuel: Option<u32>,
    pub position: AssetPositionDto,
    pub class: AssetClass,
    pub total_rewards: Option<u32>,
}

pub struct AssetView {
    pub id: Seq<char>,
    pub ship_token_name: Option<Seq<char>>,
    pub fuel: Option<u32>,
    pub x: i32,
    pub y: i32,
    pub class: AssetClass,
    pub total_rewards: Option<u32>,
}

impl View for AssetDto {
    type V = AssetView;

    open spec fn view(&self) -> AssetView {
        AssetView {
            id: self.id@,
            ship_token_name: match self.ship_token_name {
                Some(t) => Some(t.name@),
                None => None,
            },
            fuel: self.fuel,
            x: self.position.x,
            y: self.position.y,
            class: self.class,
            total_rewards: self.total_rewards,
        }
    }
}

/// The views of a snapshot's objects, in their order.
pub open spec fn asset_views(assets: Seq<AssetDto>) -> Seq<AssetView> {
    assets.map_values(|a: AssetDto| a@)
}

} // verus!
