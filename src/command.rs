//! Reading a line of player input as a command, and playing one turn.
use vstd::prelude::*;

use crate::game::{
    has_won, look_around, looked, move_to, moved, reports, state_inv, GameState, GameView, Look,
    MoveError,
};
use crate::world::{destination_of, has_location, items_wf, locations_wf, Item, Location};

verus! {

/// What `str::trim` returns for `s`.
pub uninterp spec fn trim_of(s: Seq<char>) -> Seq<char>;

/// What `str::to_lowercase` returns for `s`.
pub uninterp spec fn lower_of(s: Seq<char>) -> Seq<char>;

/// Relies on `str::trim`: the result depends on the characters alone.
#[verifier::external_body]
fn trim(s: &str) -> (r: &str)
    ensures
        r@ == trim_of(s@),
{
    s.trim()
}

/// Relies on `str::to_lowercase`: the result depends on the characters alone.
#[verifier::external_body]
fn lowercase(s: &str) -> (r: String)
    ensures
        r@ == lower_of(s@),
{
    s.to_lowercase()
}

/// Relies on `str::strip_prefix` with a string pattern: `Some` of what follows
/// `prefix` when `s` starts with it, else `None`.
#[verifier::external_body]
fn strip_prefix<'a>(s: &'a str, prefix: &str) -> (r: Option<&'a str>)
    ensures
        match r {
            Some(rest) => prefix@.is_prefix_of(s@) && rest@ == s@.subrange(
                prefix@.len() as int,
                s@.len() as int,
            ),
            None => !prefix@.is_prefix_of(s@),
        },
{
    s.strip_prefix(prefix)
}

/// A player's command.
pub enum Command {
    Help,
    Look,
    Inventory,
    Quit,
    /// Walk in a recognised direction.
    Go(String),
    /// `go` followed by something that is not a direction.
    InvalidDirection,
    Unknown,
}

/// The view of a [`Command`].
pub enum CommandView {
    Help,
    Look,
    Inventory,
    Quit,
    Go(Seq<char>),
    InvalidDirection,
    Unknown,
}

impl View for Command {
    type V = CommandView;

    open spec fn view(&self) -> CommandView {
        match self {
            Command::Help => CommandView::Help,
            Command::Look => CommandView::Look,
            Command::Inventory => CommandView::Inventory,
            Command::Quit => CommandView::Quit,
            Command::Go(d) => CommandView::Go(d@),
            Command::InvalidDirection => CommandView::InvalidDirection,
            Command::Unknown => CommandView::Unknown,
        }
    }
}

/// `s` names one of the four compass directions.
pub open spec fn is_direction_spec(s: Seq<char>) -> bool {
    s == "north"@ || s == "south"@ || s == "east"@ || s == "west"@
}

/// The command that a normalised (trimmed, lower-case) input line asks for.
pub open spec fn command_of(c: Seq<char>) -> CommandView {
    if c == "help"@ {
        CommandView::Help
    } else if c == "look"@ {
        CommandView::Look
    } else if c == "inventory"@ {
        CommandView::Inventory
    } else if c == "quit"@ {
        CommandView::Quit
    } else if "go "@.is_prefix_of(c) {
        let d = trim_of(c.subrange(3, c.len() as int));
        if is_direction_spec(d) {
            CommandView::Go(d)
        } else {
            CommandView::InvalidDirection
        }
    } else {
        CommandView::Unknown
    }
}

/// Whether `s` names one of the four compass directions.
pub fn is_direction(s: &String) -> (r: bool)
    ensures
        r == is_direction_spec(s@),
{
    *s == "north".to_owned() || *s == "south".to_owned() || *s == "east".to_owned() || *s
        == "west".to_owned()
}

/// Reads a normalised input line as a command.
pub fn classify(command: &str) -> (r: Command)
    ensures
        r@ == command_of(command@),
{
    let c = command.to_owned();
    if c == "help".to_owned() {
        Command::Help
    } else if c == "look".to_owned() {
        Command::Look
    } else if c == "inventory".to_owned() {
        Command::Inventory
    } else if c == "quit".to_owned() {
        Command::Quit
    } else {
        match strip_prefix(command, "go ") {
            Some(rest) => {
                proof {
                    reveal_strlit("go ");
                }
                let d = trim(rest).to_owned();
                if is_direction(&d) {
                    Command::Go(d)
                } else {
                    Command::InvalidDirection
                }
            },
            None => Command::Unknown,
        }
    }
}

/// Reads a raw input line as a command: surrounding whitespace is ignored and
/// case does not matter.
pub fn parse_command(line: &str) -> (r: Command)
    ensures
        r@ == command_of(lower_of(trim_of(line@))),
{
    let c = lowercase(trim(line));
    classify(c.as_str())
}

/// What a turn did, for the caller to show.
pub enum Outcome {
    ShowHelp,
    Looked(Option<Look>),
    ShowInventory,
    Moved(Result<Look, MoveError>),
    InvalidDirection,
    Unknown,
    Quit,
}

/// The result of one turn: what happened, and whether the game is now won.
pub struct Turn {
    pub outcome: Outcome,
    pub won: bool,
}

/// The outcome of a turn is the one that `command` asks for, and says what
/// the transition reported.
pub open spec fn outcome_fits(
    o: Outcome,
    command: CommandView,
    before: GameView,
    locs: Seq<Location>,
    items: Seq<Item>,
) -> bool {
    match command {
        CommandView::Help => o is ShowHelp,
        CommandView::Look => match o {
            Outcome::Looked(Some(look)) => reports(look, before, locs, items),
            Outcome::Looked(None) => !has_location(locs, before.current),
            _ => false,
        },
        CommandView::Inventory => o is ShowInventory,
        CommandView::Quit => o is Quit,
        CommandView::Go(d) => match o {
            Outcome::Moved(Ok(look)) => match destination_of(locs, before.current, d) {
                Some(place) => reports(look, moved(before, place), locs, items),
                None => false,
            },
            Outcome::Moved(Err(e)) => e == MoveError::InvalidExit && destination_of(
                locs,
                before.current,
                d,
            ) is None,
            _ => false,
        },
        CommandView::InvalidDirection => o is InvalidDirection,
        CommandView::Unknown => o is Unknown,
    }
}

/// The state after a turn that runs `command` from `before`.
pub open spec fn after_turn(
    command: CommandView,
    before: GameView,
    locs: Seq<Location>,
    items: Seq<Item>,
) -> GameView {
    match command {
        CommandView::Look => looked(before, locs, items),
        CommandView::Go(d) => match destination_of(locs, before.current, d) {
            Some(place) => looked(moved(before, place), locs, items),
            None => before,
        },
        _ => before,
    }
}

/// Plays one turn: carries out `command` on the game state. The game is won
/// when, after any command but `quit`, the player holds as many items as the
/// world defines.
pub fn play_turn(
    game_state: &mut GameState,
    command: Command,
    locations: &Vec<Location>,
    items: &Vec<Item>,
) -> (r: Turn)
    requires
        locations_wf(locations@),
        items_wf(items@),
    ensures
        final(game_state)@ == after_turn(command@, old(game_state)@, locations@, items@),
        outcome_fits(r.outcome, command@, old(game_state)@, locations@, items@),
        r.won == (!(command@ is Quit) && final(game_state)@.inventory.len() == items@.len()),
        state_inv(old(game_state)@, items@) ==> state_inv(final(game_state)@, items@),
{
    let outcome = match command {
        Command::Help => Outcome::ShowHelp,
        Command::Look => Outcome::Looked(look_around(game_state, locations, items)),
        Command::Inventory => Outcome::ShowInventory,
        Command::Quit => {
            return Turn { outcome: Outcome::Quit, won: false };
        },
        Command::Go(d) => Outcome::Moved(move_to(game_state, d.as_str(), locations, items)),
        Command::InvalidDirection => Outcome::InvalidDirection,
        Command::Unknown => Outcome::Unknown,
    };
    let won = has_won(game_state, items);
    Turn { outcome, won }
}

} // verus!
