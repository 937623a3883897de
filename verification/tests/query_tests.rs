use asteria::error::{IntegrityFault, QueryError};
use asteria::query::{exactly_one, page_bounds, row_visible, Criterion, QueryRoot};
use asteria::record::MapObjectRecord;
use asteria::schema::{AssetNameInput, MapObject, PolicyId, PositionInput, ShipActionType};

fn object(id: &str, class: &str, x: i32, y: i32, tenant: &str) -> MapObjectRecord {
    MapObjectRecord {
        id: Some(id.to_string()),
        fuel: Some(10),
        position_x: Some(x),
        position_y: Some(y),
        policy_id: Some(tenant.to_string()),
        token_name: None,
        pilot_name: None,
        class: Some(class.to_string()),
        total_rewards: None,
    }
}

fn ship(id: &str, token: &str, x: i32, y: i32, tenant: &str) -> MapObjectRecord {
    let mut r = object(id, "Ship", x, y, tenant);
    r.token_name = Some(token.to_string());
    r.pilot_name = Some(format!("pilot-of-{}", token));
    r
}

fn root(rows: Vec<MapObjectRecord>, tenant: &str) -> QueryRoot {
    QueryRoot::new(rows, PolicyId { id: tenant.to_string() })
}

fn ids(objects: &[MapObject]) -> Vec<String> {
    objects
        .iter()
        .map(|o| match o {
            MapObject::Ship(s) => s.id.clone(),
            MapObject::Fuel(f) => f.id.clone(),
            MapObject::Asteria(a) => a.id.clone(),
        })
        .collect()
}

#[test]
fn a_ship_within_the_radius_is_returned() {
    let q = root(vec![ship("s1", "SHIP1", 3, 4, "T")], "T");
    let found = q.objects_in_radius(PositionInput { x: 0, y: 0 }, 500).unwrap();
    assert_eq!(found.len(), 1);
    match &found[0] {
        MapObject::Ship(s) => {
            assert_eq!(s.id, "s1");
            assert_eq!((s.position.x, s.position.y), (3, 4));
            assert_eq!(s.ship_token_name.name, "SHIP1");
        }
        other => panic!("not a ship: {:?}", other),
    }
}

#[test]
fn an_object_beyond_the_radius_is_left_out() {
    let q = root(vec![object("far", "Fuel", 0, 501, "T")], "T");
    let found = q.objects_in_radius(PositionInput { x: 0, y: 0 }, 500).unwrap();
    assert!(found.is_empty());
}

#[test]
fn the_radius_is_a_manhattan_distance() {
    let rows = vec![
        object("edge", "Fuel", 0, 500, "T"),
        object("diag-in", "Fuel", 250, -250, "T"),
        object("diag-out", "Fuel", 251, 250, "T"),
        object("corner", "Fuel", 500, 500, "T"),
        object("centre", "Asteria", 0, 0, "T"),
        object("west", "Fuel", -500, 0, "T"),
        object("west-out", "Fuel", -501, 0, "T"),
    ];
    let q = root(rows, "T");
    let found = q.objects_in_radius(PositionInput { x: 0, y: 0 }, 500).unwrap();
    assert_eq!(ids(&found), vec!["edge", "diag-in", "centre", "west"]);
    for o in &found {
        let p = o.position();
        assert!((p.x as i64).abs() + (p.y as i64).abs() <= 500);
    }
}

#[test]
fn the_radius_is_measured_from_the_centre_given() {
    let rows = vec![
        object("a", "Fuel", 10, 10, "T"),
        object("b", "Fuel", 13, 10, "T"),
        object("c", "Fuel", 10, 14, "T"),
    ];
    let q = root(rows, "T");
    let found = q.objects_in_radius(PositionInput { x: 10, y: 10 }, 3).unwrap();
    assert_eq!(ids(&found), vec!["a", "b"]);
    let none = q.objects_in_radius(PositionInput { x: 10, y: 10 }, -1).unwrap();
    assert!(none.is_empty());
    let only = q.objects_in_radius(PositionInput { x: 10, y: 10 }, 0).unwrap();
    assert_eq!(ids(&only), vec!["a"]);
}

#[test]
fn the_radius_query_does_not_overflow_at_the_edges_of_the_grid() {
    let rows = vec![
        object("min", "Fuel", i32::MIN, i32::MIN, "T"),
        object("max", "Fuel", i32::MAX, i32::MAX, "T"),
    ];
    let q = root(rows, "T");
    let near_max = q
        .objects_in_radius(PositionInput { x: i32::MAX, y: i32::MAX }, i32::MAX)
        .unwrap();
    assert_eq!(ids(&near_max), vec!["max"]);
    let near_min = q
        .objects_in_radius(PositionInput { x: i32::MIN, y: i32::MIN }, 0)
        .unwrap();
    assert_eq!(ids(&near_min), vec!["min"]);
    let centre = q.objects_in_radius(PositionInput { x: 0, y: 0 }, i32::MAX).unwrap();
    assert!(centre.is_empty());
}

#[test]
fn a_query_sees_its_own_tenant_only() {
    let rows = vec![
        ship("s1", "SHIP1", 1, 1, "T1"),
        ship("s2", "SHIP1", 1, 1, "T2"),
        object("f1", "Fuel", 2, 2, "T2"),
        object("f2", "Fuel", 2, 2, "T1"),
        object("a1", "Asteria", 0, 0, "T1"),
        object("a2", "Asteria", 0, 0, "T2"),
    ];
    let q1 = root(rows.clone(), "T1");
    let q2 = root(rows.clone(), "T2");
    let q3 = root(rows, "T3");
    let c = PositionInput { x: 0, y: 0 };
    assert_eq!(ids(&q1.objects_in_radius(c, 500).unwrap()), vec!["s1", "f2", "a1"]);
    assert_eq!(ids(&q2.objects_in_radius(c, 500).unwrap()), vec!["s2", "f1", "a2"]);
    assert!(q3.objects_in_radius(c, 500).unwrap().is_empty());
    assert_eq!(q1.ship(AssetNameInput { name: "SHIP1".to_string() }).unwrap().id, "s1");
    assert_eq!(q2.ship(AssetNameInput { name: "SHIP1".to_string() }).unwrap().id, "s2");
    assert_eq!(q1.ships(None, None).len(), 1);
    assert_eq!(q1.ships(None, None)[0].shipyard_policy.id, "T1");
    assert_eq!(q2.fuel_pellets(None, None)[0].id, "f1");
    assert_eq!(q3.asteria(), Err(QueryError::NotFound));
}

#[test]
fn a_row_without_a_tenant_or_a_position_is_seen_by_no_radius_query() {
    let mut no_tenant = object("n", "Fuel", 0, 0, "T");
    no_tenant.policy_id = None;
    let mut no_x = object("x", "Fuel", 0, 0, "T");
    no_x.position_x = None;
    let mut no_y = object("y", "Fuel", 0, 0, "T");
    no_y.position_y = None;
    let q = root(vec![no_tenant, no_x, no_y], "T");
    assert!(q.objects_in_radius(PositionInput { x: 0, y: 0 }, 10).unwrap().is_empty());
    let empty_tenant = root(vec![object("n", "Fuel", 0, 0, "")], "");
    assert_eq!(
        empty_tenant.objects_in_radius(PositionInput { x: 0, y: 0 }, 10).unwrap().len(),
        1
    );
}

#[test]
fn one_bad_row_in_range_fails_the_whole_radius_query() {
    let rows = vec![
        object("ok", "Fuel", 1, 1, "T"),
        object("bad", "Comet", 2, 2, "T"),
        object("ok2", "Ship", 3, 3, "T"),
    ];
    let q = root(rows, "T");
    assert_eq!(
        q.objects_in_radius(PositionInput { x: 0, y: 0 }, 500),
        Err(QueryError::DataIntegrity(IntegrityFault::UnknownClass))
    );
    // Out of range, the bad row is not looked at.
    assert_eq!(q.objects_in_radius(PositionInput { x: 0, y: 0 }, 2).unwrap().len(), 1);
}

#[test]
fn the_first_bad_row_names_the_fault() {
    let mut overflow = object("big", "Asteria", 1, 1, "T");
    overflow.total_rewards = Some("1e400".to_string());
    let rows = vec![overflow, object("bad", "Comet", 2, 2, "T")];
    let q = root(rows, "T");
    assert_eq!(
        q.objects_in_radius(PositionInput { x: 0, y: 0 }, 500),
        Err(QueryError::DataIntegrity(IntegrityFault::RewardOutOfRange))
    );
}

#[test]
fn a_bad_row_of_another_tenant_does_no_harm() {
    let rows = vec![object("ok", "Fuel", 1, 1, "T"), object("bad", "Comet", 1, 1, "U")];
    let q = root(rows, "T");
    assert_eq!(q.objects_in_radius(PositionInput { x: 0, y: 0 }, 500).unwrap().len(), 1);
}

#[test]
fn get_ship_by_token() {
    let rows = vec![
        ship("s1", "SHIP1", 3, 4, "T"),
        ship("s2", "SHIP2", 5, 6, "T"),
        object("f", "Fuel", 0, 0, "T"),
    ];
    let q = root(rows, "T");
    let s = q.ship(AssetNameInput { name: "SHIP1".to_string() }).unwrap();
    assert_eq!(s.id, "s1");
    assert_eq!(s.fuel, 10);
    assert_eq!((s.position.x, s.position.y), (3, 4));
    assert_eq!(s.shipyard_policy.id, "T");
    assert_eq!(s.ship_token_name.name, "SHIP1");
    assert_eq!(s.pilot_token_name.name, "pilot-of-SHIP1");
    assert_eq!(s.class, "Ship");
}

#[test]
fn get_ship_by_token_finds_none() {
    let q = root(vec![ship("s2", "SHIP2", 5, 6, "T")], "T");
    assert_eq!(
        q.ship(AssetNameInput { name: "SHIP1".to_string() }),
        Err(QueryError::NotFound)
    );
    let empty = root(vec![], "T");
    assert_eq!(
        empty.ship(AssetNameInput { name: "SHIP1".to_string() }),
        Err(QueryError::NotFound)
    );
}

#[test]
fn get_ship_by_token_finds_two() {
    let rows = vec![ship("s1", "SHIP1", 3, 4, "T"), ship("s1b", "SHIP1", 9, 9, "T")];
    let q = root(rows, "T");
    assert_eq!(
        q.ship(AssetNameInput { name: "SHIP1".to_string() }),
        Err(QueryError::DataIntegrity(IntegrityFault::AmbiguousMatch))
    );
}

#[test]
fn get_ship_by_token_finds_what_is_no_ship() {
    let mut pellet = object("f", "Fuel", 0, 0, "T");
    pellet.token_name = Some("SHIP1".to_string());
    let q = root(vec![pellet], "T");
    assert_eq!(
        q.ship(AssetNameInput { name: "SHIP1".to_string() }),
        Err(QueryError::DataIntegrity(IntegrityFault::UnknownClass))
    );
}

fn fleet(n: usize) -> Vec<MapObjectRecord> {
    let mut rows = Vec::new();
    for i in 0..n {
        rows.push(ship(&format!("s{}", i), &format!("SHIP{}", i), i as i32, 0, "T"));
        rows.push(object(&format!("f{}", i), "Fuel", 0, i as i32, "T"));
        rows.push(ship(&format!("x{}", i), &format!("SHIP{}", i), i as i32, 0, "U"));
    }
    rows
}

#[test]
fn ships_are_listed_in_pages() {
    let q = root(fleet(25), "T");
    let first: Vec<String> = q.ships(None, None).into_iter().map(|s| s.id).collect();
    assert_eq!(first, (0..10).map(|i| format!("s{}", i)).collect::<Vec<_>>());
    let second: Vec<String> = q.ships(Some(10), Some(10)).into_iter().map(|s| s.id).collect();
    assert_eq!(second, (10..20).map(|i| format!("s{}", i)).collect::<Vec<_>>());
    let last: Vec<String> = q.ships(Some(10), Some(20)).into_iter().map(|s| s.id).collect();
    assert_eq!(last, (20..25).map(|i| format!("s{}", i)).collect::<Vec<_>>());
    assert!(q.ships(Some(10), Some(25)).is_empty());
    assert!(q.ships(Some(10), Some(1000)).is_empty());
    assert!(q.ships(Some(0), Some(3)).is_empty());
    assert_eq!(q.ships(Some(i32::MAX), Some(0)).len(), 25);
    assert_eq!(q.ships(Some(i32::MAX), Some(i32::MAX)).len(), 0);
    assert_eq!(q.ships(Some(3), None).len(), 3);
    let from_four: Vec<String> = q.ships(None, Some(4)).into_iter().map(|s| s.id).collect();
    assert_eq!(from_four, (4..14).map(|i| format!("s{}", i)).collect::<Vec<_>>());
}

#[test]
fn fuel_pellets_are_listed_in_pages() {
    let q = root(fleet(12), "T");
    let first: Vec<String> = q.fuel_pellets(None, None).into_iter().map(|f| f.id).collect();
    assert_eq!(first, (0..10).map(|i| format!("f{}", i)).collect::<Vec<_>>());
    let rest = q.fuel_pellets(Some(5), Some(10));
    assert_eq!(rest.len(), 2);
    assert_eq!(rest[0].id, "f10");
    assert_eq!(rest[0].fuel, 10);
    assert_eq!((rest[1].position.x, rest[1].position.y), (0, 11));
    assert_eq!(rest[1].shipyard_policy.id, "T");
    assert_eq!(rest[1].class, "Fuel");
}

#[test]
fn the_aggregate_of_a_tenant() {
    let mut a = object("asteria", "Asteria", 0, 0, "T");
    a.fuel = Some(42);
    a.total_rewards = Some("123456.789".to_string());
    let q = root(vec![ship("s", "SHIP1", 1, 1, "T"), a], "T");
    let state = q.asteria().unwrap();
    assert_eq!(state.ship_counter, 42);
    assert_eq!(state.shipyard_policy.id, "T");
    assert_eq!(state.reward, 123456);
}

#[test]
fn the_aggregate_with_nothing_stored() {
    let mut a = object("asteria", "Asteria", 0, 0, "T");
    a.fuel = None;
    a.total_rewards = None;
    let q = root(vec![a], "T");
    let state = q.asteria().unwrap();
    assert_eq!(state.ship_counter, 0);
    assert_eq!(state.reward, 0);
}

#[test]
fn the_aggregate_must_be_the_only_one() {
    let q = root(vec![ship("s", "SHIP1", 1, 1, "T")], "T");
    assert_eq!(q.asteria(), Err(QueryError::NotFound));
    let two = root(
        vec![object("a", "Asteria", 0, 0, "T"), object("b", "Asteria", 0, 0, "T")],
        "T",
    );
    assert_eq!(
        two.asteria(),
        Err(QueryError::DataIntegrity(IntegrityFault::AmbiguousMatch))
    );
}

#[test]
fn the_aggregate_reward_must_fit() {
    let mut a = object("asteria", "Asteria", 0, 0, "T");
    a.total_rewards = Some("9223372036854775808".to_string());
    let q = root(vec![a], "T");
    assert_eq!(
        q.asteria(),
        Err(QueryError::DataIntegrity(IntegrityFault::RewardOutOfRange))
    );
}

#[test]
fn rows_are_selected_in_storage_order() {
    let q = root(fleet(3), "T");
    let found = q.select(&Criterion::Class("Fuel".to_string()));
    let got: Vec<String> = found.iter().map(|r| r.id.clone().unwrap()).collect();
    assert_eq!(got, vec!["f0", "f1", "f2"]);
    let one = q.select(&Criterion::Token("SHIP2".to_string()));
    assert_eq!(one.len(), 1);
    assert_eq!(one[0].id.as_deref(), Some("s2"));
    let near = q.select(&Criterion::Radius { center: PositionInput { x: 0, y: 0 }, radius: 1 });
    let got: Vec<String> = near.iter().map(|r| r.id.clone().unwrap()).collect();
    assert_eq!(got, vec!["s0", "f0", "s1", "f1"]);
}

#[test]
fn visibility_of_a_row() {
    let r = ship("s", "SHIP1", 3, 4, "T");
    let t = "T".to_string();
    let u = "U".to_string();
    assert!(row_visible(&r, &t, &Criterion::Token("SHIP1".to_string())));
    assert!(!row_visible(&r, &u, &Criterion::Token("SHIP1".to_string())));
    assert!(!row_visible(&r, &t, &Criterion::Token("SHIP2".to_string())));
    assert!(row_visible(&r, &t, &Criterion::Class("Ship".to_string())));
    assert!(!row_visible(&r, &t, &Criterion::Class("Fuel".to_string())));
    let at = |radius| Criterion::Radius { center: PositionInput { x: 0, y: 0 }, radius };
    assert!(row_visible(&r, &t, &at(7)));
    assert!(!row_visible(&r, &t, &at(6)));
    assert!(!row_visible(&r, &u, &at(7)));
}

#[test]
fn exactly_one_row() {
    let a = ship("a", "A", 0, 0, "T");
    let b = ship("b", "B", 0, 0, "T");
    assert_eq!(exactly_one(&vec![]), Err(QueryError::NotFound));
    assert_eq!(exactly_one(&vec![&a]), Ok(&a));
    assert_eq!(
        exactly_one(&vec![&a, &b]),
        Err(QueryError::DataIntegrity(IntegrityFault::AmbiguousMatch))
    );
}

#[test]
fn bounds_of_a_page() {
    assert_eq!(page_bounds(25, 0, 10), (0, 10));
    assert_eq!(page_bounds(25, 20, 10), (20, 25));
    assert_eq!(page_bounds(25, 25, 10), (25, 25));
    assert_eq!(page_bounds(25, 30, 10), (25, 25));
    assert_eq!(page_bounds(0, 0, 10), (0, 0));
    assert_eq!(page_bounds(5, 2, 0), (2, 2));
    assert_eq!(page_bounds(5, i32::MAX, i32::MAX), (5, 5));
}

#[test]
fn sample_actions_of_all_ships() {
    let q = root(vec![], "T");
    let actions = q.all_ship_actions(None, None);
    assert_eq!(actions.len(), 10);
    for (i, a) in actions.iter().enumerate() {
        assert_eq!(a.action_id, format!("action-{}", i));
        assert_eq!(a.ship_id, "ship-1");
        assert_eq!(a.action_type, ShipActionType::Move);
        assert_eq!((a.position.x, a.position.y), (i as i32 * 5, i as i32 * 10));
        assert_eq!(a.timestamp, "01/01/1971");
    }
    let page = q.all_ship_actions(Some(3), Some(12));
    assert_eq!(page.len(), 3);
    assert_eq!(page[0].action_id, "action-12");
    assert_eq!((page[2].position.x, page[2].position.y), (70, 140));
    assert!(q.all_ship_actions(Some(0), Some(5)).is_empty());
}

#[test]
fn sample_actions_of_one_ship() {
    let q = root(vec![], "T");
    let actions = q.ship_actions("ship-9".to_string(), None, None);
    assert_eq!(actions.len(), 5);
    for (i, a) in actions.iter().enumerate() {
        assert_eq!(a.action_id, format!("action-ship-9-{}", i));
        assert_eq!(a.ship_id, "ship-9");
        let kind = if i % 2 == 0 { ShipActionType::Move } else { ShipActionType::GatherFuel };
        assert_eq!(a.action_type, kind);
        assert_eq!((a.position.x, a.position.y), (100 + i as i32, 200 + i as i32));
        assert_eq!(a.timestamp, "01/01/1971");
    }
    let page = q.ship_actions("s".to_string(), Some(2), Some(7));
    assert_eq!(page.len(), 2);
    assert_eq!(page[0].action_id, "action-s-7");
    assert_eq!(page[0].action_type, ShipActionType::GatherFuel);
    assert_eq!(page[1].action_type, ShipActionType::Move);
    assert_eq!((page[1].position.x, page[1].position.y), (108, 208));
}

#[test]
fn a_failed_read_is_a_storage_error() {
    let tenant = PolicyId { id: "T".to_string() };
    let failed = QueryRoot::over(Err("pool timed out".to_string()), tenant.clone());
    match failed {
        Err(e) => {
            assert_eq!(e, QueryError::Storage("pool timed out".to_string()));
            assert_eq!(e.message(), "pool timed out");
        }
        Ok(_) => panic!("a failed read gave a query root"),
    }
    let rows = vec![ship("s1", "SHIP1", 3, 4, "T")];
    let read = QueryRoot::over(Ok(rows.clone()), tenant).unwrap();
    assert_eq!(read.rows, rows);
    assert_eq!(read.shipyard_policy.id, "T");
    assert_eq!(read.ships(None, None).len(), 1);
}

#[test]
fn sample_actions_up_to_the_last_that_fits() {
    let q = root(vec![], "T");
    let last = q.all_ship_actions(Some(1), Some(214748364));
    assert_eq!(last.len(), 1);
    assert_eq!(last[0].action_id, "action-214748364");
    assert_eq!((last[0].position.x, last[0].position.y), (1073741820, 2147483640));
    assert!(q.all_ship_actions(Some(0), Some(i32::MAX)).is_empty());
    let own = q.ship_actions("z".to_string(), Some(1), Some(i32::MAX - 200));
    assert_eq!(own.len(), 1);
    assert_eq!(own[0].action_id, "action-z-2147483447");
    assert_eq!((own[0].position.x, own[0].position.y), (i32::MAX - 100, i32::MAX));
    assert!(q.ship_actions("z".to_string(), Some(0), Some(i32::MAX)).is_empty());
}
