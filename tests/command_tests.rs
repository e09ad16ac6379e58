use isopod_adventure::{
    classify, get_items, get_locations, is_direction, parse_command, play_turn, Command,
    GameState, Outcome,
};

fn go_direction(c: Command) -> Option<String> {
    match c {
        Command::Go(d) => Some(d),
        _ => None,
    }
}

#[test]
fn parses_simple_commands() {
    assert!(matches!(parse_command("help"), Command::Help));
    assert!(matches!(parse_command("  LOOK \n"), Command::Look));
    assert!(matches!(parse_command("Inventory"), Command::Inventory));
    assert!(matches!(parse_command("quit\n"), Command::Quit));
    assert!(matches!(parse_command("dance"), Command::Unknown));
    assert!(matches!(parse_command(""), Command::Unknown));
}

#[test]
fn parses_go_with_direction() {
    assert_eq!(go_direction(parse_command("  Go North \n")), Some("north".to_string()));
    assert_eq!(go_direction(parse_command("go   west")), Some("west".to_string()));
    assert!(matches!(parse_command("go up"), Command::InvalidDirection));
    assert!(matches!(parse_command("go"), Command::Unknown));
}

#[test]
fn classify_expects_normalised_text() {
    assert!(matches!(classify("HELP"), Command::Unknown));
    assert_eq!(go_direction(classify("go  east ")), Some("east".to_string()));
}

#[test]
fn directions_are_the_four_compass_points() {
    for d in ["north", "south", "east", "west"] {
        assert!(is_direction(&d.to_string()));
    }
    assert!(!is_direction(&"North".to_string()));
    assert!(!is_direction(&"up".to_string()));
}

#[test]
fn turns_play_to_victory() {
    let locations = get_locations();
    let items = get_items();
    let mut s = GameState::new();
    let t = play_turn(&mut s, parse_command("look"), &locations, &items);
    assert!(matches!(t.outcome, Outcome::Looked(Some(_))));
    assert!(!t.won);
    let t = play_turn(&mut s, parse_command("go west"), &locations, &items);
    assert!(matches!(t.outcome, Outcome::Moved(Err(_))));
    let t = play_turn(&mut s, parse_command("go north"), &locations, &items);
    assert!(matches!(t.outcome, Outcome::Moved(Ok(_))));
    assert!(!t.won);
    let t = play_turn(&mut s, parse_command("go up"), &locations, &items);
    assert!(matches!(t.outcome, Outcome::InvalidDirection));
    let t = play_turn(&mut s, parse_command("go east"), &locations, &items);
    assert_eq!(s.current_location, "Forest");
    assert!(t.won);
}

#[test]
fn quit_never_wins() {
    let locations = get_locations();
    let items = get_items();
    let mut s = GameState::new();
    let t = play_turn(&mut s, parse_command("quit"), &locations, &items);
    assert!(matches!(t.outcome, Outcome::Quit));
    assert!(!t.won);
    let t = play_turn(&mut s, parse_command("help"), &locations, &items);
    assert!(matches!(t.outcome, Outcome::ShowHelp));
    let t = play_turn(&mut s, parse_command("xyzzy"), &locations, &items);
    assert!(matches!(t.outcome, Outcome::Unknown));
}
