use isopod_adventure::{
    check_world, describe, destination, exits_of, get_items, get_locations, item_at, Item,
    Location, WorldError,
};

fn loc(name: &str, exits: &[(&str, &str)]) -> Location {
    Location {
        name: name.to_string(),
        description: format!("This is {}.", name),
        exits: exits.iter().map(|(d, t)| (d.to_string(), t.to_string())).collect(),
    }
}

fn item(location: &str, label: &str) -> Item {
    Item { location: location.to_string(), label: label.to_string() }
}

#[test]
fn builtin_world_is_well_formed() {
    assert_eq!(check_world(&get_locations(), &get_items()), Ok(()));
    assert_eq!(get_locations().len(), 4);
    assert_eq!(get_items().len(), 3);
}

#[test]
fn destinations_follow_declared_exits() {
    let locations = get_locations();
    let garden = "Garden".to_string();
    assert_eq!(destination(&locations, &garden, "north"), Some("Pond".to_string()));
    assert_eq!(destination(&locations, &garden, "east"), Some("Rocky Path".to_string()));
    assert_eq!(destination(&locations, &garden, "west"), None);
    assert_eq!(destination(&locations, &garden, "south"), None);
    assert_eq!(destination(&locations, &"Nowhere".to_string(), "north"), None);
}

#[test]
fn describe_and_exits() {
    let locations = get_locations();
    let pond = "Pond".to_string();
    assert!(describe(&locations, &pond).unwrap().contains("pond"));
    assert_eq!(exits_of(&locations, &pond), vec!["south".to_string(), "east".to_string()]);
    assert_eq!(describe(&locations, &"Nowhere".to_string()), None);
    assert!(exits_of(&locations, &"Nowhere".to_string()).is_empty());
}

#[test]
fn items_by_location() {
    let items = get_items();
    assert_eq!(item_at(&items, &"Forest".to_string()), Some("A Place to Hide 🛏️".to_string()));
    assert_eq!(item_at(&items, &"Rocky Path".to_string()), None);
}

#[test]
fn duplicate_location_rejected() {
    let locations = vec![loc("A", &[]), loc("A", &[])];
    assert_eq!(check_world(&locations, &vec![]), Err(WorldError::DuplicateLocation));
}

#[test]
fn duplicate_exit_rejected() {
    let locations = vec![loc("A", &[("north", "B"), ("north", "A")]), loc("B", &[])];
    assert_eq!(check_world(&locations, &vec![]), Err(WorldError::DuplicateExit));
}

#[test]
fn dangling_exit_rejected() {
    let locations = vec![loc("A", &[("north", "C")]), loc("B", &[])];
    assert_eq!(check_world(&locations, &vec![]), Err(WorldError::DanglingExit));
}

#[test]
fn duplicate_item_rejected() {
    let locations = vec![loc("A", &[("north", "B")]), loc("B", &[("south", "A")])];
    let same_place = vec![item("A", "x"), item("A", "y")];
    assert_eq!(check_world(&locations, &same_place), Err(WorldError::DuplicateItem));
    let same_label = vec![item("A", "x"), item("B", "x")];
    assert_eq!(check_world(&locations, &same_label), Err(WorldError::DuplicateItem));
    let fine = vec![item("A", "x"), item("B", "y")];
    assert_eq!(check_world(&locations, &fine), Ok(()));
}
