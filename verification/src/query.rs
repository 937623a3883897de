//! The query engine: radius, point and list queries over the rows of one
//! store, each scoped to one tenant.

use crate::decimal::{decimal_text, format_decimal};
use crate::error::{IntegrityFault, QueryError, QueryErrorView};
use crate::record::{
    asteria_tag, classified, column_is, column_or_empty, column_or_zero, fuel_of, fuel_tag,
    or_empty, or_zero, reward_of, ship_of, ship_tag, views_of, MapObjectRecord, RecordView,
};
use crate::schema::{
    AssetNameInput, AsteriaState, AsteriaStateView, Fuel, FuelView, MapObject, MapObjectView,
    PolicyId, Position, PositionInput, Ship, ShipAction, ShipActionType, ShipActionView, ShipView,
};
use vstd::prelude::*;
use vstd::string::*;

verus! {

/// What a query asks of a row, beyond belonging to the tenant.
#[derive(Clone, Debug, PartialEq, Eq)]
pub enum Criterion {
    /// The row's ship token name is this one.
    Token(String),
    /// The row's class tag is this one.
    Class(String),
    /// The row lies within `radius` steps of `center`.
    Radius { center: PositionInput, radius: i32 },
}

pub enum CriterionView {
    Token(Seq<char>),
    Class(Seq<char>),
    Radius { cx: i32, cy: i32, radius: i32 },
}

impl View for Criterion {
    type V = CriterionView;

    open spec fn view(&self) -> CriterionView {
        match self {
            Criterion::Token(name) => CriterionView::Token(name@),
            Criterion::Class(tag) => CriterionView::Class(tag@),
            Criterion::Radius { center, radius } => CriterionView::Radius {
                cx: center.x,
                cy: center.y,
                radius: *radius,
            },
        }
    }
}

pub open spec fn distance(a: int, b: int) -> int {
    if a >= b {
        a - b
    } else {
        b - a
    }
}

/// The Manhattan distance between `(x, y)` and `(cx, cy)`.
pub open spec fn manhattan(x: int, y: int, cx: int, cy: int) -> int {
    distance(x, cx) + distance(y, cy)
}

/// Whether `(x, y)` lies in the square of half-width `radius` around `(cx, cy)`.
pub open spec fn in_box(x: int, y: int, cx: int, cy: int, radius: int) -> bool {
    cx - radius <= x <= cx + radius && cy - radius <= y <= cy + radius
}

/// Whether a row has a position, and that position is within `radius` steps
/// of `(cx, cy)`.
pub open spec fn within_radius(r: RecordView, cx: int, cy: int, radius: int) -> bool {
    match (r.position_x, r.position_y) {
        (Some(x), Some(y)) => manhattan(x as int, y as int, cx, cy) <= radius,
        _ => false,
    }
}

/// The criterion of a radius query around `(cx, cy)`.
pub open spec fn around(cx: i32, cy: i32, radius: i32) -> CriterionView {
    CriterionView::Radius { cx, cy, radius }
}

pub open spec fn meets(r: RecordView, c: CriterionView) -> bool {
    match c {
        CriterionView::Token(name) => r.token_name == Some(name),
        CriterionView::Class(tag) => r.class == Some(tag),
        CriterionView::Radius { cx, cy, radius } => within_radius(
            r,
            cx as int,
            cy as int,
            radius as int,
        ),
    }
}

/// Whether a query of `tenant` with criterion `c` sees the row: the row is
/// the tenant's own and meets the criterion.
pub open spec fn visible(r: RecordView, tenant: Seq<char>, c: CriterionView) -> bool {
    r.policy_id == Some(tenant) && meets(r, c)
}

/// The rows that a query sees, in storage order.
pub open spec fn selection(rows: Seq<RecordView>, tenant: Seq<char>, c: CriterionView) -> Seq<
    RecordView,
> {
    rows.filter(|r: RecordView| visible(r, tenant, c))
}

/// The part of `s` that a page of at most `limit` items after the first
/// `offset` ones holds.
pub open spec fn page<A>(s: Seq<A>, offset: int, limit: int) -> Seq<A> {
    let start = if offset < s.len() {
        offset
    } else {
        s.len() as int
    };
    let end = if start + limit < s.len() {
        start + limit
    } else {
        s.len() as int
    };
    s.subrange(start, end)
}

pub open spec fn record_views(found: Seq<&MapObjectRecord>) -> Seq<RecordView> {
    found.map_values(|r: &MapObjectRecord| r@)
}

pub open spec fn ship_views(ships: Seq<Ship>) -> Seq<ShipView> {
    ships.map_values(|s: Ship| s@)
}

pub open spec fn fuel_views(fuels: Seq<Fuel>) -> Seq<FuelView> {
    fuels.map_values(|f: Fuel| f@)
}

pub open spec fn object_views(objects: Seq<MapObject>) -> Seq<MapObjectView> {
    objects.map_values(|o: MapObject| o@)
}

/// What the point query for a ship answers.
pub open spec fn ship_answer(rows: Seq<RecordView>, tenant: Seq<char>, name: Seq<char>) -> Result<
    ShipView,
    QueryErrorView,
> {
    let found = selection(rows, tenant, CriterionView::Token(name));
    if found.len() == 0 {
        Err(QueryErrorView::NotFound)
    } else if found.len() > 1 {
        Err(QueryErrorView::DataIntegrity(IntegrityFault::AmbiguousMatch))
    } else if found[0].class == Some(ship_tag()) {
        Ok(ship_of(found[0]))
    } else {
        Err(QueryErrorView::DataIntegrity(IntegrityFault::UnknownClass))
    }
}

/// What the aggregate query answers.
pub open spec fn asteria_answer(rows: Seq<RecordView>, tenant: Seq<char>) -> Result<
    AsteriaStateView,
    QueryErrorView,
> {
    let found = selection(rows, tenant, CriterionView::Class(asteria_tag()));
    if found.len() == 0 {
        Err(QueryErrorView::NotFound)
    } else if found.len() > 1 {
        Err(QueryErrorView::DataIntegrity(IntegrityFault::AmbiguousMatch))
    } else {
        match reward_of(found[0]) {
            Some(reward) => Ok(
                AsteriaStateView {
                    ship_counter: or_zero(found[0].fuel),
                    shipyard_policy: or_empty(found[0].policy_id),
                    reward,
                },
            ),
            None => Err(QueryErrorView::DataIntegrity(IntegrityFault::RewardOutOfRange)),
        }
    }
}

/// Whether `objects` are the classifications of `rows`, one for one.
pub open spec fn classifies_to(rows: Seq<RecordView>, objects: Seq<MapObjectView>) -> bool {
    &&& objects.len() == rows.len()
    &&& forall|i: int| 0 <= i < rows.len() ==> classified(#[trigger] rows[i]) == Ok::<
        MapObjectView,
        IntegrityFault,
    >(objects[i])
}

/// Whether the row at `i` is the first of `rows` that cannot be classified,
/// and `fault` is why.
pub open spec fn first_fault(rows: Seq<RecordView>, i: int, fault: IntegrityFault) -> bool {
    &&& 0 <= i < rows.len()
    &&& classified(rows[i]) == Err::<MapObjectView, IntegrityFault>(fault)
    &&& forall|j: int| 0 <= j < i ==> (#[trigger] classified(rows[j])) is Ok
}

/// Tenant isolation: every row that a query of one tenant sees is a stored
/// row of that tenant, and so none of any other tenant, whatever the
/// criterion.
pub proof fn lemma_tenant_isolation(
    rows: Seq<RecordView>,
    tenant: Seq<char>,
    other: Seq<char>,
    c: CriterionView,
)
    requires
        tenant != other,
    ensures
        forall|i: int|
            0 <= i < selection(rows, tenant, c).len() ==> {
                let r = #[trigger] selection(rows, tenant, c)[i];
                &&& rows.contains(r)
                &&& r.policy_id == Some(tenant)
                &&& r.policy_id != Some(other)
                &&& meets(r, c)
            },
{
    let pred = |r: RecordView| visible(r, tenant, c);
    let sel = selection(rows, tenant, c);
    assert forall|i: int| 0 <= i < sel.len() implies {
        let r = #[trigger] sel[i];
        &&& rows.contains(r)
        &&& r.policy_id == Some(tenant)
        &&& r.policy_id != Some(other)
        &&& meets(r, c)
    } by {
        rows.lemma_filter_pred(pred, i);
        assert(sel.contains(sel[i]));
        rows.lemma_filter_contains_rev(pred, sel[i]);
    }
}

/// Tenant isolation, of the objects themselves: a ship or a fuel pellet that
/// a query of one tenant answers with names that tenant as its own.
pub proof fn lemma_objects_of_tenant(
    rows: Seq<RecordView>,
    tenant: Seq<char>,
    c: CriterionView,
    objects: Seq<MapObjectView>,
)
    requires
        classifies_to(selection(rows, tenant, c), objects),
    ensures
        forall|i: int|
            0 <= i < objects.len() ==> match #[trigger] objects[i] {
                MapObjectView::Ship(s) => s.shipyard_policy == tenant,
                MapObjectView::Fuel(f) => f.shipyard_policy == tenant,
                MapObjectView::Asteria(_) => true,
            },
{
    let pred = |r: RecordView| visible(r, tenant, c);
    let sel = selection(rows, tenant, c);
    assert forall|i: int| 0 <= i < objects.len() implies match #[trigger] objects[i] {
        MapObjectView::Ship(s) => s.shipyard_policy == tenant,
        MapObjectView::Fuel(f) => f.shipyard_policy == tenant,
        MapObjectView::Asteria(_) => true,
    } by {
        rows.lemma_filter_pred(pred, i);
        assert(visible(sel[i], tenant, c));
        assert(classified(sel[i]) == Ok::<MapObjectView, IntegrityFault>(objects[i]));
    }
}

/// The distance bound: every object that a radius query answers with lies
/// within the radius of the centre, by Manhattan distance.
pub proof fn lemma_distance_bound(
    rows: Seq<RecordView>,
    tenant: Seq<char>,
    cx: i32,
    cy: i32,
    radius: i32,
    objects: Seq<MapObjectView>,
)
    requires
        classifies_to(selection(rows, tenant, around(cx, cy, radius)), objects),
    ensures
        forall|i: int|
            0 <= i < objects.len() ==> manhattan(
                (#[trigger] objects[i]).x() as int,
                objects[i].y() as int,
                cx as int,
                cy as int,
            ) <= radius,
{
    let c = around(cx, cy, radius);
    let pred = |r: RecordView| visible(r, tenant, c);
    let sel = selection(rows, tenant, c);
    assert forall|i: int| 0 <= i < objects.len() implies manhattan(
        (#[trigger] objects[i]).x() as int,
        objects[i].y() as int,
        cx as int,
        cy as int,
    ) <= radius by {
        rows.lemma_filter_pred(pred, i);
        assert(visible(sel[i], tenant, c));
        assert(classified(sel[i]) == Ok::<MapObjectView, IntegrityFault>(objects[i]));
    }
}

/// A page holds items of the list it is cut from, in their order, and no
/// more of them than the limit.
pub proof fn lemma_page<A>(s: Seq<A>, offset: int, limit: int)
    requires
        offset >= 0,
        limit >= 0,
    ensures
        page(s, offset, limit).len() <= limit,
        page(s, offset, limit).len() <= s.len(),
        forall|k: int|
            0 <= k < page(s, offset, limit).len() ==> offset + k < s.len() && #[trigger] page(
                s,
                offset,
                limit,
            )[k] == s[offset + k],
{
}

/// The default number of actions on a page of one ship's actions.
pub const DEFAULT_ACTIONS_PAGE: i32 = 5;

pub open spec fn action_views(actions: Seq<ShipAction>) -> Seq<ShipActionView> {
    actions.map_values(|a: ShipAction| a@)
}

/// The sample action with number `i` in the listing of all ships' actions.
pub open spec fn sample_action(i: int) -> ShipActionView {
    ShipActionView {
        action_id: "action-"@ + decimal_text(i as nat),
        ship_id: "ship-1"@,
        action_type: ShipActionType::Move,
        x: (i * 5) as i32,
        y: (i * 10) as i32,
        timestamp: "01/01/1971"@,
    }
}

/// The sample action with number `i` in the listing of one ship's actions:
/// moves and fuel gatherings take turns.
pub open spec fn sample_action_of(ship_id: Seq<char>, i: int) -> ShipActionView {
    ShipActionView {
        action_id: "action-"@ + ship_id + "-"@ + decimal_text(i as nat),
        ship_id,
        action_type: if i % 2 == 0 {
            ShipActionType::Move
        } else {
            ShipActionType::GatherFuel
        },
        x: (100 + i) as i32,
        y: (200 + i) as i32,
        timestamp: "01/01/1971"@,
    }
}

/// The rows of a store, read for one tenant.
#[derive(Clone, Debug)]
pub struct QueryRoot {
    pub rows: Vec<MapObjectRecord>,
    pub shipyard_policy: PolicyId,
}

/// Whether a query of `tenant` with `criterion` sees `row`.
pub fn row_visible(row: &MapObjectRecord, tenant: &String, criterion: &Criterion) -> (b: bool)
    ensures
        b == visible(row@, tenant@, criterion@),
{
    let own = match &row.policy_id {
        Some(p) => *p == *tenant,
        None => false,
    };
    if !own {
        return false;
    }
    match criterion {
        Criterion::Token(name) => match &row.token_name {
            Some(t) => *t == *name,
            None => false,
        },
        Criterion::Class(tag) => match &row.class {
            Some(c) => *c == *tag,
            None => false,
        },
        Criterion::Radius { center, radius } => match (row.position_x, row.position_y) {
            (Some(x), Some(y)) => {
                let cx: i64 = center.x as i64;
                let cy: i64 = center.y as i64;
                let r: i64 = *radius as i64;
                let px: i64 = x as i64;
                let py: i64 = y as i64;
                // The square around the centre first: it is cheap, and no
                // point outside it can be within the radius.
                if px < cx - r || px > cx + r || py < cy - r || py > cy + r {
                    return false;
                }
                let dx: i64 = if px >= cx {
                    px - cx
                } else {
                    cx - px
                };
                let dy: i64 = if py >= cy {
                    py - cy
                } else {
                    cy - py
                };
                dx + dy <= r
            },
            _ => false,
        },
    }
}

/// Of `found`, the one row that there must be.
pub fn exactly_one<'a>(found: &Vec<&'a MapObjectRecord>) -> (r: Result<
    &'a MapObjectRecord,
    QueryError,
>)
    ensures
        found@.len() == 0 ==> r == Err::<&MapObjectRecord, QueryError>(QueryError::NotFound),
        found@.len() == 1 ==> r == Ok::<&MapObjectRecord, QueryError>(found@[0]),
        found@.len() > 1 ==> r == Err::<&MapObjectRecord, QueryError>(
            QueryError::DataIntegrity(IntegrityFault::AmbiguousMatch),
        ),
{
    if found.len() == 0 {
        Err(QueryError::NotFound)
    } else if found.len() > 1 {
        Err(QueryError::DataIntegrity(IntegrityFault::AmbiguousMatch))
    } else {
        Ok(found[0])
    }
}


/// No point within `radius` steps of the centre lies outside the square
/// around it: testing the square first loses nothing.
pub proof fn lemma_radius_within_box(x: int, y: int, cx: int, cy: int, radius: int)
    requires
        manhattan(x, y, cx, cy) <= radius,
    ensures
        in_box(x, y, cx, cy, radius),
{
}

/// The default number of objects on a page of a list query.
pub const DEFAULT_PAGE: i32 = 10;

pub open spec fn limit_or_default(limit: Option<i32>, default: i32) -> int {
    match limit {
        Some(n) => n as int,
        None => default as int,
    }
}

pub open spec fn offset_or_zero(offset: Option<i32>) -> int {
    match offset {
        Some(n) => n as int,
        None => 0,
    }
}

/// Where a page of `limit` items after the first `offset` ones starts and
/// ends in a list of `len` items.
pub fn page_bounds(len: usize, offset: i32, limit: i32) -> (bounds: (usize, usize))
    requires
        offset >= 0,
        limit >= 0,
    ensures
        bounds.0 <= bounds.1 <= len,
        bounds.0 == (if offset < len { offset as int } else { len as int }),
        bounds.1 == (if bounds.0 + limit < len { bounds.0 + limit } else { len as int }),
{
    let start: usize = if (offset as u64) < (len as u64) {
        offset as usize
    } else {
        len
    };
    let end: usize = if (limit as u64) < ((len - start) as u64) {
        start + limit as usize
    } else {
        len
    };
    (start, end)
}

/// Classifies every row of `found`, in order. One row that cannot be
/// classified fails them all: the fault is that of the first such row.
pub fn classify_rows(found: &Vec<&MapObjectRecord>) -> (r: Result<Vec<MapObject>, QueryError>)
    ensures
        match r {
            Ok(objects) => classifies_to(record_views(found@), object_views(objects@)),
            Err(e) => exists|i: int, fault: IntegrityFault|
                first_fault(record_views(found@), i, fault) && e == QueryError::DataIntegrity(
                    fault,
                ),
        },
{
    let mut objects: Vec<MapObject> = Vec::new();
    let ghost rows = record_views(found@);
    let mut k: usize = 0;
    while k < found.len()
        invariant
            k <= found.len(),
            rows == record_views(found@),
            objects@.len() == k,
            forall|j: int|
                0 <= j < k ==> classified(#[trigger] rows[j]) == Ok::<
                    MapObjectView,
                    IntegrityFault,
                >(objects@[j]@),
        decreases found.len() - k,
    {
        let row = found[k];
        assert(rows[k as int] == row@);
        match row.classify() {
            Ok(object) => {
                objects.push(object);
            },
            Err(e) => {
                proof {
                    let fault = classified(rows[k as int])->Err_0;
                    assert(first_fault(rows, k as int, fault));
                }
                return Err(e);
            },
        }
        k = k + 1;
    }
    Ok(objects)
}

impl QueryRoot {
    /// The views of the rows, in storage order.
    pub open spec fn table(&self) -> Seq<RecordView> {
        views_of(self.rows@)
    }

    /// The tenant that every query is scoped to.
    pub open spec fn tenant(&self) -> Seq<char> {
        self.shipyard_policy.id@
    }

    pub fn new(rows: Vec<MapObjectRecord>, shipyard_policy: PolicyId) -> (root: QueryRoot)
        ensures
            root.rows == rows,
            root.shipyard_policy == shipyard_policy,
    {
        QueryRoot { rows, shipyard_policy }
    }

    /// The query root over what a read of the store gave: the rows where
    /// the read went well, and a storage error with the store's own words
    /// where it did not. Nothing is retried.
    pub fn over(fetched: Result<Vec<MapObjectRecord>, String>, shipyard_policy: PolicyId) -> (r:
        Result<QueryRoot, QueryError>)
        ensures
            match fetched {
                Ok(rows) => r matches Ok(root) && root.rows == rows && root.shipyard_policy
                    == shipyard_policy,
                Err(message) => r matches Err(e) && e@ == QueryErrorView::Storage(message@),
            },
    {
        match fetched {
            Ok(rows) => Ok(QueryRoot { rows, shipyard_policy }),
            Err(message) => Err(QueryError::Storage(message)),
        }
    }

    /// The tenant's rows that meet `criterion`, in storage order.
    pub fn select(&self, criterion: &Criterion) -> (found: Vec<&MapObjectRecord>)
        ensures
            record_views(found@) == selection(self.table(), self.tenant(), criterion@),
    {
        let mut found: Vec<&MapObjectRecord> = Vec::new();
        let ghost pred = |r: RecordView| visible(r, self.tenant(), criterion@);
        let mut i: usize = 0;
        proof {
            reveal(Seq::filter);
            assert(self.table().take(0).filter(pred) =~= Seq::<RecordView>::empty());
            assert(record_views(found@) =~= Seq::<RecordView>::empty());
        }
        while i < self.rows.len()
            invariant
                i <= self.rows.len(),
                pred == |r: RecordView| visible(r, self.tenant(), criterion@),
                record_views(found@) == self.table().take(i as int).filter(pred),
            decreases self.rows.len() - i,
        {
            let row = &self.rows[i];
            proof {
                let t = self.table();
                assert(t[i as int] == row@);
                t.lemma_take_succ_push(i as int);
                t.take(i as int).lemma_filter_push(t[i as int], pred);
            }
            if row_visible(row, &self.shipyard_policy.id, criterion) {
                proof {
                    found@.lemma_push_map_commute(|r: &MapObjectRecord| r@, row);
                }
                found.push(row);
            }
            i = i + 1;
        }
        proof {
            assert(self.table().take(i as int) =~= self.table());
        }
        found
    }

    /// The tenant's objects within `radius` steps of `center`, by Manhattan
    /// distance, in storage order. A row without a position is nowhere, and
    /// so within no radius. One row in range that cannot be classified fails
    /// the whole query.
    pub fn objects_in_radius(&self, center: PositionInput, radius: i32) -> (r: Result<
        Vec<MapObject>,
        QueryError,
    >)
        ensures
            match r {
                Ok(objects) => classifies_to(
                    selection(
                        self.table(),
                        self.tenant(),
                        around(center.x, center.y, radius),
                    ),
                    object_views(objects@),
                ),
                Err(e) => exists|i: int, fault: IntegrityFault|
                    first_fault(
                        selection(
                            self.table(),
                            self.tenant(),
                            around(center.x, center.y, radius),
                        ),
                        i,
                        fault,
                    ) && e == QueryError::DataIntegrity(fault),
            },
            r matches Ok(objects) ==> forall|i: int|
                0 <= i < objects@.len() ==> manhattan(
                    (#[trigger] objects@[i])@.x() as int,
                    objects@[i]@.y() as int,
                    center.x as int,
                    center.y as int,
                ) <= radius,
            r matches Ok(objects) ==> forall|i: int|
                0 <= i < objects@.len() ==> match (#[trigger] objects@[i])@ {
                    MapObjectView::Ship(s) => s.shipyard_policy == self.tenant(),
                    MapObjectView::Fuel(f) => f.shipyard_policy == self.tenant(),
                    MapObjectView::Asteria(_) => true,
                },
    {
        let criterion = Criterion::Radius { center, radius };
        let found = self.select(&criterion);
        let r = classify_rows(&found);
        proof {
            if let Ok(objects) = &r {
                let views = object_views(objects@);
                lemma_distance_bound(
                    self.table(),
                    self.tenant(),
                    center.x,
                    center.y,
                    radius,
                    views,
                );
                lemma_objects_of_tenant(self.table(), self.tenant(), criterion@, views);
                assert forall|i: int| 0 <= i < objects@.len() implies manhattan(
                    (#[trigger] objects@[i])@.x() as int,
                    objects@[i]@.y() as int,
                    center.x as int,
                    center.y as int,
                ) <= radius by {
                    assert(views[i] == objects@[i]@);
                }
                assert forall|i: int| 0 <= i < objects@.len() implies match (#[trigger] objects@[i])@ {
                    MapObjectView::Ship(s) => s.shipyard_policy == self.tenant(),
                    MapObjectView::Fuel(f) => f.shipyard_policy == self.tenant(),
                    MapObjectView::Asteria(_) => true,
                } by {
                    assert(views[i] == objects@[i]@);
                }
            }
        }
        r
    }

    /// The one ship of the tenant whose token name is `ship_token_name`.
    pub fn ship(&self, ship_token_name: AssetNameInput) -> (r: Result<Ship, QueryError>)
        ensures
            match ship_answer(self.table(), self.tenant(), ship_token_name.name@) {
                Ok(v) => r matches Ok(s) && s@ == v,
                Err(e) => r matches Err(f) && f@ == e,
            },
    {
        let criterion = Criterion::Token(ship_token_name.name);
        let found = self.select(&criterion);
        match exactly_one(&found) {
            Ok(row) => {
                assert(record_views(found@)[0] == row@);
                if column_is(&row.class, "Ship") {
                    Ok(row.to_ship())
                } else {
                    Err(QueryError::DataIntegrity(IntegrityFault::UnknownClass))
                }
            },
            Err(e) => Err(e),
        }
    }

    /// A page of the tenant's ships, in storage order: at most `limit` of
    /// them (ten where no limit is given) after the first `offset` ones.
    pub fn ships(&self, limit: Option<i32>, offset: Option<i32>) -> (r: Vec<Ship>)
        requires
            limit matches Some(n) ==> n >= 0,
            offset matches Some(n) ==> n >= 0,
        ensures
            ship_views(r@) == page(
                selection(self.table(), self.tenant(), CriterionView::Class(ship_tag())),
                offset_or_zero(offset),
                limit_or_default(limit, DEFAULT_PAGE),
            ).map_values(|v: RecordView| ship_of(v)),
    {
        let criterion = Criterion::Class(String::from_str("Ship"));
        let found = self.select(&criterion);
        let num_ships: i32 = match limit {
            Some(n) => n,
            None => DEFAULT_PAGE,
        };
        let start_at: i32 = match offset {
            Some(n) => n,
            None => 0,
        };
        let (start, end) = page_bounds(found.len(), start_at, num_ships);
        let ghost sel = record_views(found@);
        let ghost to_ship = |v: RecordView| ship_of(v);
        let mut ships: Vec<Ship> = Vec::new();
        let mut k: usize = start;
        assert(sel.subrange(start as int, k as int).map_values(to_ship) =~= ship_views(ships@));
        while k < end
            invariant
                start <= k <= end <= found.len(),
                sel == record_views(found@),
                to_ship == |v: RecordView| ship_of(v),
                ship_views(ships@) == sel.subrange(start as int, k as int).map_values(to_ship),
            decreases end - k,
        {
            let ship = found[k].to_ship();
            proof {
                assert(sel[k as int] == found@[k as int]@);
                assert(sel.subrange(start as int, k + 1) =~= sel.subrange(
                    start as int,
                    k as int,
                ).push(sel[k as int]));
                sel.subrange(start as int, k as int).lemma_push_map_commute(to_ship, sel[k as int]);
                ships@.lemma_push_map_commute(|s: Ship| s@, ship);
            }
            ships.push(ship);
            k = k + 1;
        }
        ships
    }

    /// A page of the tenant's fuel pellets, in storage order: at most `limit`
    /// of them (ten where no limit is given) after the first `offset` ones.
    pub fn fuel_pellets(&self, limit: Option<i32>, offset: Option<i32>) -> (r: Vec<Fuel>)
        requires
            limit matches Some(n) ==> n >= 0,
            offset matches Some(n) ==> n >= 0,
        ensures
            fuel_views(r@) == page(
                selection(self.table(), self.tenant(), CriterionView::Class(fuel_tag())),
                offset_or_zero(offset),
                limit_or_default(limit, DEFAULT_PAGE),
            ).map_values(|v: RecordView| fuel_of(v)),
    {
        let criterion = Criterion::Class(String::from_str("Fuel"));
        let found = self.select(&criterion);
        let num_fuels: i32 = match limit {
            Some(n) => n,
            None => DEFAULT_PAGE,
        };
        let start_at: i32 = match offset {
            Some(n) => n,
            None => 0,
        };
        let (start, end) = page_bounds(found.len(), start_at, num_fuels);
        let ghost sel = record_views(found@);
        let ghost to_fuel = |v: RecordView| fuel_of(v);
        let mut fuels: Vec<Fuel> = Vec::new();
        let mut k: usize = start;
        assert(sel.subrange(start as int, k as int).map_values(to_fuel) =~= fuel_views(fuels@));
        while k < end
            invariant
                start <= k <= end <= found.len(),
                sel == record_views(found@),
                to_fuel == |v: RecordView| fuel_of(v),
                fuel_views(fuels@) == sel.subrange(start as int, k as int).map_values(to_fuel),
            decreases end - k,
        {
            let fuel = found[k].to_fuel();
            proof {
                assert(sel[k as int] == found@[k as int]@);
                assert(sel.subrange(start as int, k + 1) =~= sel.subrange(
                    start as int,
                    k as int,
                ).push(sel[k as int]));
                sel.subrange(start as int, k as int).lemma_push_map_commute(to_fuel, sel[k as int]);
                fuels@.lemma_push_map_commute(|f: Fuel| f@, fuel);
            }
            fuels.push(fuel);
            k = k + 1;
        }
        fuels
    }

    /// The tenant's aggregate: its ship count and its reward, the stored
    /// decimal cut down to 64 bits.
    pub fn asteria(&self) -> (r: Result<AsteriaState, QueryError>)
        ensures
            match asteria_answer(self.table(), self.tenant()) {
                Ok(v) => r matches Ok(s) && s@ == v,
                Err(e) => r matches Err(f) && f@ == e,
            },
    {
        let criterion = Criterion::Class(String::from_str("Asteria"));
        let found = self.select(&criterion);
        match exactly_one(&found) {
            Ok(row) => {
                assert(record_views(found@)[0] == row@);
                match row.reward() {
                    Ok(reward) => Ok(
                        AsteriaState {
                            ship_counter: column_or_zero(&row.fuel),
                            shipyard_policy: PolicyId { id: column_or_empty(&row.policy_id) },
                            reward,
                        },
                    ),
                    Err(e) => Err(e),
                }
            },
            Err(e) => Err(e),
        }
    }

    /// A page of sample actions of all ships: `limit` of them (ten where no
    /// limit is given), numbered from `offset` on. The coordinates of the
    /// last one, ten times its number at most, must fit in 32 bits.
    pub fn all_ship_actions(&self, limit: Option<i32>, offset: Option<i32>) -> (r: Vec<ShipAction>)
        requires
            limit_or_default(limit, DEFAULT_PAGE) >= 0,
            offset_or_zero(offset) >= 0,
            limit_or_default(limit, DEFAULT_PAGE) > 0 ==> (offset_or_zero(offset)
                + limit_or_default(limit, DEFAULT_PAGE) - 1) * 10 <= i32::MAX,
        ensures
            action_views(r@) == Seq::new(
                limit_or_default(limit, DEFAULT_PAGE) as nat,
                |k: int| sample_action(offset_or_zero(offset) + k),
            ),
    {
        let num_actions: i32 = match limit {
            Some(n) => n,
            None => DEFAULT_PAGE,
        };
        let start: i32 = match offset {
            Some(n) => n,
            None => 0,
        };
        let mut actions: Vec<ShipAction> = Vec::new();
        let mut k: i32 = 0;
        while k < num_actions
            invariant
                0 <= k <= num_actions,
                start >= 0,
                num_actions > 0 ==> (start + num_actions - 1) * 10 <= i32::MAX,
                action_views(actions@) =~= Seq::new(k as nat, |j: int| sample_action(start + j)),
            decreases num_actions - k,
        {
            let i: i32 = start + k;
            let mut action_id = String::from_str("action-");
            let digits = format_decimal(i as u64);
            action_id.append(digits.as_str());
            let action = ShipAction {
                action_id,
                ship_id: String::from_str("ship-1"),
                action_type: ShipActionType::Move,
                position: Position { x: i * 5, y: i * 10 },
                timestamp: String::from_str("01/01/1971"),
            };
            assert(action@ == sample_action(start + k));
            proof {
                actions@.lemma_push_map_commute(|a: ShipAction| a@, action);
            }
            actions.push(action);
            k = k + 1;
        }
        actions
    }

    /// A page of sample actions of the ship `ship_id`: `limit` of them (five
    /// where no limit is given), numbered from `offset` on. The coordinates
    /// of the last one, its number and 200 at most, must fit in 32 bits.
    pub fn ship_actions(&self, ship_id: String, limit: Option<i32>, offset: Option<i32>) -> (r:
        Vec<ShipAction>)
        requires
            limit_or_default(limit, DEFAULT_ACTIONS_PAGE) >= 0,
            offset_or_zero(offset) >= 0,
            limit_or_default(limit, DEFAULT_ACTIONS_PAGE) > 0 ==> offset_or_zero(offset)
                + limit_or_default(limit, DEFAULT_ACTIONS_PAGE) - 1 + 200 <= i32::MAX,
        ensures
            action_views(r@) == Seq::new(
                limit_or_default(limit, DEFAULT_ACTIONS_PAGE) as nat,
                |k: int| sample_action_of(ship_id@, offset_or_zero(offset) + k),
            ),
    {
        let num_actions: i32 = match limit {
            Some(n) => n,
            None => DEFAULT_ACTIONS_PAGE,
        };
        let start: i32 = match offset {
            Some(n) => n,
            None => 0,
        };
        let mut actions: Vec<ShipAction> = Vec::new();
        let mut k: i32 = 0;
        while k < num_actions
            invariant
                0 <= k <= num_actions,
                start >= 0,
                num_actions > 0 ==> start + num_actions - 1 + 200 <= i32::MAX,
                action_views(actions@) =~= Seq::new(
                    k as nat,
                    |j: int| sample_action_of(ship_id@, start + j),
                ),
            decreases num_actions - k,
        {
            let i: i32 = start + k;
            let mut action_id = String::from_str("action-");
            action_id.append(ship_id.as_str());
            action_id.append("-");
            let digits = format_decimal(i as u64);
            action_id.append(digits.as_str());
            let action = ShipAction {
                action_id,
                ship_id: ship_id.clone(),
                action_type: if i % 2 == 0 {
                    ShipActionType::Move
                } else {
                    ShipActionType::GatherFuel
                },
                position: Position { x: 100 + i, y: 200 + i },
                timestamp: String::from_str("01/01/1971"),
            };
            assert(action@ == sample_action_of(ship_id@, start + k));
            proof {
                actions@.lemma_push_map_commute(|a: ShipAction| a@, action);
            }
            actions.push(action);
            k = k + 1;
        }
        actions
    }
}

} // verus!
