use isopod_adventure::{
    get_items, get_locations, has_won, look_around, move_to, GameState, MoveError, START_LOCATION,
};

#[test]
fn new_game_starts_in_garden_empty_handed() {
    let s = GameState::new();
    assert_eq!(START_LOCATION, "Garden");
    assert_eq!(s.current_location, "Garden");
    assert!(s.inventory.is_empty());
    assert!(s.found_items.is_empty());
}

#[test]
fn look_in_garden_reports_and_collects_cookie() {
    let locations = get_locations();
    let items = get_items();
    let mut s = GameState::new();
    let look = look_around(&mut s, &locations, &items).expect("Garden is a location");
    assert!(look.description.contains("lush garden"));
    assert_eq!(look.found, Some("Cookie Crumb 🍪".to_string()));
    assert_eq!(look.exits, vec!["north".to_string(), "east".to_string()]);
    assert_eq!(s.inventory, vec!["Cookie Crumb 🍪".to_string()]);
    assert_eq!(s.found_items, s.inventory);
}

#[test]
fn move_north_then_find_friend_at_pond() {
    let locations = get_locations();
    let items = get_items();
    let mut s = GameState::new();
    look_around(&mut s, &locations, &items);
    let look = move_to(&mut s, "north", &locations, &items).ok().expect("north leads to the Pond");
    assert_eq!(s.current_location, "Pond");
    assert_eq!(look.found, Some("Isopod Friend 🐾".to_string()));
    assert_eq!(s.inventory.len(), 2);
}

#[test]
fn move_west_from_garden_is_invalid_exit() {
    let locations = get_locations();
    let items = get_items();
    let mut s = GameState::new();
    let r = move_to(&mut s, "west", &locations, &items);
    assert!(matches!(r, Err(MoveError::InvalidExit)));
    assert_eq!(s.current_location, "Garden");
    assert!(s.inventory.is_empty());
}

#[test]
fn unknown_direction_is_invalid_exit() {
    let locations = get_locations();
    let items = get_items();
    let mut s = GameState::new();
    let r = move_to(&mut s, "up", &locations, &items);
    assert!(matches!(r, Err(MoveError::InvalidExit)));
    assert_eq!(s.current_location, "Garden");
}

#[test]
fn win_exactly_on_third_item() {
    let locations = get_locations();
    let items = get_items();
    let mut s = GameState::new();
    look_around(&mut s, &locations, &items);
    assert!(!has_won(&s, &items));
    move_to(&mut s, "east", &locations, &items).ok().expect("east leads to the Rocky Path");
    assert_eq!(s.current_location, "Rocky Path");
    assert!(!has_won(&s, &items));
    move_to(&mut s, "north", &locations, &items).ok().expect("north leads to the Forest");
    assert_eq!(s.current_location, "Forest");
    assert_eq!(s.inventory.len(), 2);
    assert!(!has_won(&s, &items));
    move_to(&mut s, "west", &locations, &items).ok().expect("west leads to the Pond");
    assert_eq!(s.current_location, "Pond");
    assert_eq!(s.inventory.len(), 3);
    assert!(has_won(&s, &items));
}

#[test]
fn look_twice_at_rocky_path_keeps_inventory_empty() {
    let locations = get_locations();
    let items = get_items();
    let mut s = GameState {
        current_location: "Rocky Path".to_string(),
        inventory: Vec::new(),
        found_items: Vec::new(),
    };
    let first = look_around(&mut s, &locations, &items).expect("Rocky Path is a location");
    let second = look_around(&mut s, &locations, &items).expect("Rocky Path is a location");
    assert!(s.inventory.is_empty());
    assert_eq!(first.found, None);
    assert_eq!(second.found, None);
    assert_eq!(first.description, second.description);
    assert_eq!(first.exits, second.exits);
}

#[test]
fn look_twice_in_garden_collects_once() {
    let locations = get_locations();
    let items = get_items();
    let mut s = GameState::new();
    look_around(&mut s, &locations, &items);
    let inventory = s.inventory.clone();
    let second = look_around(&mut s, &locations, &items).expect("Garden is a location");
    assert_eq!(second.found, None);
    assert_eq!(s.inventory, inventory);
    assert_eq!(s.found_items, inventory);
}

#[test]
fn look_at_unknown_location_does_nothing() {
    let locations = get_locations();
    let items = get_items();
    let mut s = GameState {
        current_location: "Moon".to_string(),
        inventory: Vec::new(),
        found_items: Vec::new(),
    };
    assert!(look_around(&mut s, &locations, &items).is_none());
    assert_eq!(s.current_location, "Moon");
    assert!(s.inventory.is_empty());
}
