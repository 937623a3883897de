//! The world index: which objects of the snapshots are tracked, under which
//! handle, and where each was last seen.

use crate::api::{AssetClass, AssetDto, AssetView};
use vstd::prelude::*;
use vstd::string::*;

verus! {

/// Where a tracked entity is.
#[derive(Clone, Copy, Debug, PartialEq, Eq, Structural)]
pub struct Position {
    pub x: i32,
    pub y: i32,
}

impl Position {
    pub fn new(x: i32, y: i32) -> (p: Position)
        ensures
            p.x == x,
            p.y == y,
    {
        Position { x, y }
    }
}

/// The fuel that an entity holds.
#[derive(Clone, Copy, Debug, PartialEq, Eq, Structural)]
pub struct Fuel {
    pub available: u32,
}

impl Fuel {
    pub fn new(available: u32) -> (f: Fuel)
        ensures
            f.available == available,
    {
        Fuel { available }
    }
}

/// The token name that tells one ship from another.
#[derive(Clone, Debug, PartialEq, Eq)]
pub struct ShipIdentity {
    pub name: String,
}

impl ShipIdentity {
    pub fn new(name: String) -> (s: ShipIdentity)
        ensures
            s.name == name,
    {
        ShipIdentity { name }
    }
}

/// Marks an entity as a resource pellet.
#[derive(Clone, Copy, Debug, PartialEq, Eq, Structural)]
pub struct AsteroidIdentity;

/// Marks an entity as the aggregate, with the rewards it holds.
#[derive(Clone, Copy, Debug, PartialEq, Eq, Structural)]
pub struct PotIdentity {
    pub total_rewards: u32,
}

impl PotIdentity {
    pub fn new(total_rewards: u32) -> (p: PotIdentity)
        ensures
            p.total_rewards == total_rewards,
    {
        PotIdentity { total_rewards }
    }
}

/// One tracked object: the handle that the world gave its entity, its stable
/// identifier, its class and where it was last seen.
#[derive(Clone, Debug, PartialEq, Eq)]
pub struct AssetOnMap {
    pub entity: u64,
    pub id: String,
    pub class: AssetClass,
    pub position: Position,
}

pub struct TrackedView {
    pub entity: u64,
    pub id: Seq<char>,
    pub class: AssetClass,
    pub x: i32,
    pub y: i32,
}

impl View for AssetOnMap {
    type V = TrackedView;

    open spec fn view(&self) -> TrackedView {
        TrackedView {
            entity: self.entity,
            id: self.id@,
            class: self.class,
            x: self.position.x,
            y: self.position.y,
        }
    }
}

/// What the world is asked to do for one sighted object.
#[allow(inconsistent_fields)]
#[derive(Clone, Debug, PartialEq, Eq)]
pub enum WorldMutation {
    /// Create a ship entity.
    SpawnShip { identity: ShipIdentity, position: Position, fuel: Fuel },
    /// Create a resource pellet entity.
    SpawnAsteroid { position: Position, fuel: Fuel },
    /// Create the aggregate's entity.
    SpawnPot { identity: PotIdentity, position: Position },
    /// Move the entity behind `entity` to `position`.
    Move { entity: u64, position: Position },
}

pub enum MutationView {
    SpawnShip { name: Seq<char>, x: i32, y: i32, fuel: u32 },
    SpawnAsteroid { x: i32, y: i32, fuel: u32 },
    SpawnPot { total_rewards: u32, x: i32, y: i32 },
    Move { entity: u64, x: i32, y: i32 },
}

impl View for WorldMutation {
    type V = MutationView;

    open spec fn view(&self) -> MutationView {
        match self {
            WorldMutation::SpawnShip { identity, position, fuel } => MutationView::SpawnShip {
                name: identity.name@,
                x: position.x,
                y: position.y,
                fuel: fuel.available,
            },
            WorldMutation::SpawnAsteroid { position, fuel } => MutationView::SpawnAsteroid {
                x: position.x,
                y: position.y,
                fuel: fuel.available,
            },
            WorldMutation::SpawnPot { identity, position } => MutationView::SpawnPot {
                total_rewards: identity.total_rewards,
                x: position.x,
                y: position.y,
            },
            WorldMutation::Move { entity, position } => MutationView::Move {
                entity: *entity,
                x: position.x,
                y: position.y,
            },
        }
    }
}

/// Whether some entry of `w` carries `id`.
pub open spec fn tracks(w: Seq<TrackedView>, id: Seq<char>) -> bool {
    exists|i: int| 0 <= i < w.len() && (#[trigger] w[i]).id == id
}

/// The place of an entry of `w` that carries `id`.
pub open spec fn place_of(w: Seq<TrackedView>, id: Seq<char>) -> int {
    choose|i: int| 0 <= i < w.len() && (#[trigger] w[i]).id == id
}

/// No two entries of `w` carry the same identifier.
pub open spec fn distinct_ids(w: Seq<TrackedView>) -> bool {
    forall|i: int, j: int| 0 <= i < j < w.len() ==> (#[trigger] w[i]).id != (#[trigger] w[j]).id
}

/// The entry that a first sighting of `a` makes, under the handle `entity`.
pub open spec fn first_sighting(a: AssetView, entity: u64) -> TrackedView {
    TrackedView { entity, id: a.id, class: a.class, x: a.x, y: a.y }
}

/// An entry moved to where `a` is; nothing else of it changes.
pub open spec fn moved_to(e: TrackedView, a: AssetView) -> TrackedView {
    TrackedView { x: a.x, y: a.y, ..e }
}

/// The index after one sighting of `a`. A tracked object only moves; an
/// untracked one is appended, under the handle `entity`.
pub open spec fn after_sighting(w: Seq<TrackedView>, a: AssetView, entity: u64) -> Seq<
    TrackedView,
> {
    if tracks(w, a.id) {
        let i = place_of(w, a.id);
        w.update(i, moved_to(w[i], a))
    } else {
        w.push(first_sighting(a, entity))
    }
}

/// What the world must do for a sighting of `a`: move the entity of a
/// tracked object, or create one for an untracked object. A missing name
/// reads as empty, a missing number as zero.
pub open spec fn planned(w: Seq<TrackedView>, a: AssetView) -> MutationView {
    if tracks(w, a.id) {
        MutationView::Move { entity: w[place_of(w, a.id)].entity, x: a.x, y: a.y }
    } else {
        match a.class {
            AssetClass::Ship => MutationView::SpawnShip {
                name: match a.ship_token_name {
                    Some(n) => n,
                    None => Seq::empty(),
                },
                x: a.x,
                y: a.y,
                fuel: match a.fuel {
                    Some(f) => f,
                    None => 0u32,
                },
            },
            AssetClass::Fuel => MutationView::SpawnAsteroid {
                x: a.x,
                y: a.y,
                fuel: match a.fuel {
                    Some(f) => f,
                    None => 0u32,
                },
            },
            AssetClass::Asteria => MutationView::SpawnPot {
                total_rewards: match a.total_rewards {
                    Some(t) => t,
                    None => 0u32,
                },
                x: a.x,
                y: a.y,
            },
        }
    }
}

/// Where identifiers are distinct, the place of an identifier is the one
/// place that holds it.
pub proof fn lemma_place_of(w: Seq<TrackedView>, id: Seq<char>, i: int)
    requires
        distinct_ids(w),
        0 <= i < w.len(),
        w[i].id == id,
    ensures
        tracks(w, id),
        place_of(w, id) == i,
{
    let p = place_of(w, id);
    if p < i {
        assert(w[p].id != w[i].id);
    } else if i < p {
        assert(w[i].id != w[p].id);
    }
}

/// A sighting leaves the identifiers distinct.
pub proof fn lemma_sighting_keeps_distinct(w: Seq<TrackedView>, a: AssetView, entity: u64)
    requires
        distinct_ids(w),
    ensures
        distinct_ids(after_sighting(w, a, entity)),
{
    let r = after_sighting(w, a, entity);
    if tracks(w, a.id) {
        let p = place_of(w, a.id);
        assert forall|i: int, j: int| 0 <= i < j < r.len() implies (#[trigger] r[i]).id
            != (#[trigger] r[j]).id by {
            assert(r[i].id == w[i].id);
            assert(r[j].id == w[j].id);
        }
    } else {
        assert forall|i: int, j: int| 0 <= i < j < r.len() implies (#[trigger] r[i]).id
            != (#[trigger] r[j]).id by {
            assert(r[i] == w[i]);
            if j < w.len() {
                assert(r[j] == w[j]);
            }
        }
    }
}

/// What one sighting does to an index of distinct identifiers: every entry
/// stays in its place with its identifier, handle and class; the entry of
/// the sighted object, there before or new at the end, is where the object
/// is; every other entry is as it was.
pub proof fn lemma_sighting(w: Seq<TrackedView>, a: AssetView, entity: u64)
    requires
        distinct_ids(w),
    ensures
        distinct_ids(after_sighting(w, a, entity)),
        tracks(after_sighting(w, a, entity), a.id),
        after_sighting(w, a, entity).len() == w.len() + (if tracks(w, a.id) {
            0int
        } else {
            1int
        }),
        !tracks(w, a.id) ==> after_sighting(w, a, entity).last() == first_sighting(a, entity),
        forall|i: int|
            0 <= i < w.len() ==> {
                let e = #[trigger] after_sighting(w, a, entity)[i];
                &&& e.id == w[i].id
                &&& e.entity == w[i].entity
                &&& e.class == w[i].class
                &&& (w[i].id != a.id ==> e == w[i])
                &&& (w[i].id == a.id ==> e.x == a.x && e.y == a.y)
            },
{
    let r = after_sighting(w, a, entity);
    lemma_sighting_keeps_distinct(w, a, entity);
    if tracks(w, a.id) {
        let p = place_of(w, a.id);
        assert(r[p].id == a.id);
        assert forall|i: int| 0 <= i < w.len() implies {
            let e = #[trigger] r[i];
            &&& e.id == w[i].id
            &&& e.entity == w[i].entity
            &&& e.class == w[i].class
            &&& (w[i].id != a.id ==> e == w[i])
            &&& (w[i].id == a.id ==> e.x == a.x && e.y == a.y)
        } by {
            if i != p && w[i].id == a.id {
                lemma_place_of(w, a.id, i);
            }
        }
    } else {
        assert(r[w.len() as int].id == a.id);
        assert forall|i: int| 0 <= i < w.len() implies {
            let e = #[trigger] r[i];
            &&& e.id == w[i].id
            &&& e.entity == w[i].entity
            &&& e.class == w[i].class
            &&& (w[i].id != a.id ==> e == w[i])
            &&& (w[i].id == a.id ==> e.x == a.x && e.y == a.y)
        } by {
            assert(r[i] == w[i]);
        }
    }
}

/// The world index. No identifier is tracked twice, and nothing leaves it.
#[derive(Debug)]
pub struct MapState {
    entries: Vec<AssetOnMap>,
}

pub open spec fn tracked_views(entries: Seq<AssetOnMap>) -> Seq<TrackedView> {
    entries.map_values(|e: AssetOnMap| e@)
}

impl View for MapState {
    type V = Seq<TrackedView>;

    closed spec fn view(&self) -> Seq<TrackedView> {
        tracked_views(self.entries@)
    }
}

impl MapState {
    #[verifier::type_invariant]
    spec fn well_formed(&self) -> bool {
        distinct_ids(tracked_views(self.entries@))
    }

    /// An index that tracks nothing.
    pub fn new() -> (state: MapState)
        ensures
            state@ == Seq::<TrackedView>::empty(),
    {
        let state = MapState { entries: Vec::new() };
        assert(state@ =~= Seq::<TrackedView>::empty());
        state
    }

    /// What every index upholds, for a caller's proof: no identifier is
    /// entered twice. Nothing is computed.
    pub fn ids_are_distinct(&self)
        ensures
            distinct_ids(self@),
    {
        proof {
            use_type_invariant(self);
        }
    }

    /// How many objects are tracked.
    pub fn len(&self) -> (n: usize)
        ensures
            n == self@.len(),
            distinct_ids(self@),
    {
        proof {
            use_type_invariant(self);
        }
        self.entries.len()
    }

    /// The place of the entry that carries `id`, if one does.
    pub fn find(&self, id: &String) -> (place: Option<usize>)
        ensures
            match place {
                Some(i) => i < self@.len() && self@[i as int].id == id@ && i == place_of(
                    self@,
                    id@,
                ),
                None => !tracks(self@, id@),
            },
    {
        proof {
            use_type_invariant(self);
        }
        let mut i: usize = 0;
        while i < self.entries.len()
            invariant
                i <= self.entries.len(),
                distinct_ids(self@),
                forall|j: int| 0 <= j < i ==> (#[trigger] self@[j]).id != id@,
            decreases self.entries.len() - i,
        {
            if self.entries[i].id == *id {
                proof {
                    lemma_place_of(self@, id@, i as int);
                }
                return Some(i);
            }
            i = i + 1;
        }
        None
    }

    /// The entry that carries `id`, if one does.
    pub fn get(&self, id: &String) -> (entry: Option<&AssetOnMap>)
        ensures
            match entry {
                Some(e) => tracks(self@, id@) && e@ == self@[place_of(self@, id@)],
                None => !tracks(self@, id@),
            },
    {
        match self.find(id) {
            Some(i) => Some(&self.entries[i]),
            None => None,
        }
    }

    /// What the world must do for a sighting of `asset`: nothing is changed
    /// here, the decision alone is made.
    pub fn plan(&self, asset: &AssetDto) -> (m: WorldMutation)
        ensures
            m@ == planned(self@, asset@),
    {
        let position = Position::new(asset.position.x, asset.position.y);
        match self.find(&asset.id) {
            Some(i) => WorldMutation::Move { entity: self.entries[i].entity, position },
            None => {
                let fuel = match asset.fuel {
                    Some(f) => f,
                    None => 0,
                };
                match asset.class {
                    AssetClass::Ship => {
                        let name = match &asset.ship_token_name {
                            Some(t) => t.name.clone(),
                            None => String::new(),
                        };
                        WorldMutation::SpawnShip {
                            identity: ShipIdentity::new(name),
                            position,
                            fuel: Fuel::new(fuel),
                        }
                    },
                    AssetClass::Fuel => WorldMutation::SpawnAsteroid {
                        position,
                        fuel: Fuel::new(fuel),
                    },
                    AssetClass::Asteria => {
                        let total_rewards = match asset.total_rewards {
                            Some(t) => t,
                            None => 0,
                        };
                        WorldMutation::SpawnPot {
                            identity: PotIdentity::new(total_rewards),
                            position,
                        }
                    },
                }
            },
        }
    }

    /// Records one sighting of `asset`. A tracked object moves to where the
    /// asset is, and keeps its handle and its class whatever the asset says
    /// of them. An untracked object is entered under the handle `entity`,
    /// which the world gave the entity it created for it.
    pub fn record(&mut self, asset: &AssetDto, entity: u64)
        ensures
            final(self)@ == after_sighting(old(self)@, asset@, entity),
            distinct_ids(final(self)@),
    {
        proof {
            use_type_invariant(&*self);
        }
        let position = Position::new(asset.position.x, asset.position.y);
        let place = self.find(&asset.id);
        let ghost before = self@;
        // The entries are worked on outside the index and put back whole.
        let mut entries: Vec<AssetOnMap> = Vec::new();
        std::mem::swap(&mut self.entries, &mut entries);
        match place {
            Some(i) => {
                entries[i].position = position;
                assert(tracked_views(entries@) =~= before.update(
                    i as int,
                    moved_to(before[i as int], asset@),
                ));
            },
            None => {
                let entry = AssetOnMap { entity, id: asset.id.clone(), class: asset.class, position };
                entries.push(entry);
                assert(tracked_views(entries@) =~= before.push(first_sighting(asset@, entity)));
            },
        }
        proof {
            lemma_sighting_keeps_distinct(before, asset@, entity);
        }
        std::mem::swap(&mut self.entries, &mut entries);
    }
}

} // verus!
