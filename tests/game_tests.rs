use isopod_adventure::{
    get_items, get_locations, has_won, look_around, move_to, GameState, MoveError,
};

fn state_at(location: &str) -> GameState {
    GameState {
        current_location: location.to_string(),
        inventory: Vec::new(),
        found_items: Vec::new(),
    }
}

#[test]
fn test_move_to_valid_direction() {
    let mut game_state = state_at("Garden");
    let locations = get_locations();
    let items = get_items();

    let r = move_to(&mut game_state, "north", &locations, &items);
    assert!(r.is_ok());
    assert_eq!(game_state.current_location, "Pond");
}

#[test]
fn test_move_to_invalid_direction() {
    let mut game_state = state_at("Garden");
    let locations = get_locations();
    let items = get_items();

    let r = move_to(&mut game_state, "west", &locations, &items); // No west exit from Garden
    assert!(matches!(r, Err(MoveError::InvalidExit)));
    assert_eq!(game_state.current_location, "Garden");
}

#[test]
fn test_look_around_finds_item() {
    let mut game_state = state_at("Garden");
    let locations = get_locations();
    let items = get_items();

    look_around(&mut game_state, &locations, &items);
    assert!(game_state.inventory.contains(&"Cookie Crumb 🍪".to_string()));
}

#[test]
fn test_look_around_no_item() {
    let mut game_state = state_at("Rocky Path");
    let locations = get_locations();
    let items = get_items();

    look_around(&mut game_state, &locations, &items);
    assert!(game_state.inventory.is_empty());
}

#[test]
fn test_win_condition() {
    let mut game_state = state_at("Garden");

    game_state.inventory.push("Cookie Crumb 🍪".to_string());
    game_state.inventory.push("Isopod Friend 🐾".to_string());
    game_state.inventory.push("A Place to Hide 🛏️".to_string());

    assert_eq!(game_state.inventory.len(), 3); // Check win condition
    assert!(has_won(&game_state, &get_items()));
}
