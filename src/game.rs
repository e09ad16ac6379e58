//! The game state machine: where the player stands and what they carry, with
//! the two transitions "look" and "move".
use vstd::prelude::*;
use vstd::set_lib::{lemma_len_subset, lemma_subset_equality};

use crate::world::{
    describe, destination, destination_of, description_of, exit_directions, exits_of, has_location,
    item_at, item_label_at, item_labels, items_wf, location_index, locations_wf, opt_view, Item,
    Location,
};

verus! {

/// The location where every game begins.
pub const START_LOCATION: &'static str = "Garden";

/// The player's state. `inventory` and `found_items` hold item labels without
/// repetition; since items are never dropped the two always agree.
pub struct GameState {
    pub current_location: String,
    pub inventory: Vec<String>,
    pub found_items: Vec<String>,
}

/// The mathematical view of a [`GameState`].
pub struct GameView {
    pub current: Seq<char>,
    pub inventory: Seq<Seq<char>>,
    pub found: Seq<Seq<char>>,
}

impl View for GameState {
    type V = GameView;

    open spec fn view(&self) -> GameView {
        GameView {
            current: self.current_location@,
            inventory: self.inventory@.map_values(|s: String| s@),
            found: self.found_items@.map_values(|s: String| s@),
        }
    }
}

/// What a look reports: the description, the item just discovered (if any),
/// and the exit directions in declaration order.
pub struct Look {
    pub description: String,
    pub found: Option<String>,
    pub exits: Vec<String>,
}

/// Why a move did not happen.
#[derive(Debug, Clone, Copy, PartialEq, Eq, Structural)]
pub enum MoveError {
    /// The current location has no exit in the requested direction.
    InvalidExit,
}

/// The state invariant: inventory and found items agree, hold no label twice,
/// and hold only labels of items of the world.
pub open spec fn state_inv(s: GameView, items: Seq<Item>) -> bool {
    &&& s.inventory == s.found
    &&& s.inventory.no_duplicates()
    &&& forall|k: int| 0 <= k < s.inventory.len() ==> item_labels(items).contains(#[trigger] s.inventory[k])
}

/// The item that a look from `s` discovers: the one at the current location,
/// unless it was found before.
pub open spec fn newly_found(s: GameView, locs: Seq<Location>, items: Seq<Item>) -> Option<Seq<char>> {
    if has_location(locs, s.current) {
        match item_label_at(items, s.current) {
            Some(label) => if s.found.contains(label) {
                None
            } else {
                Some(label)
            },
            None => None,
        }
    } else {
        None
    }
}

/// The state after a look from `s`.
pub open spec fn looked(s: GameView, locs: Seq<Location>, items: Seq<Item>) -> GameView {
    match newly_found(s, locs, items) {
        Some(label) => GameView {
            current: s.current,
            inventory: s.inventory.push(label),
            found: s.found.push(label),
        },
        None => s,
    }
}

/// The state `s` with the player standing at `place`.
pub open spec fn moved(s: GameView, place: Seq<char>) -> GameView {
    GameView { current: place, inventory: s.inventory, found: s.found }
}

/// `look` is the report of a look from the state `s`.
pub open spec fn reports(look: Look, s: GameView, locs: Seq<Location>, items: Seq<Item>) -> bool {
    &&& description_of(locs, s.current) == Some(look.description@)
    &&& opt_view(look.found) == newly_found(s, locs, items)
    &&& look.exits@.map_values(|e: String| e@) == exit_directions(locs, s.current)
}

/// The player has every item of the world.
pub open spec fn has_all_items(s: GameView, items: Seq<Item>) -> bool {
    forall|k: int| 0 <= k < items.len() ==> s.inventory.contains(#[trigger] item_labels(items)[k])
}

/// Whether some element of `v` equals `s`.
fn contains_label(v: &Vec<String>, s: &String) -> (r: bool)
    ensures
        r == v@.map_values(|e: String| e@).contains(s@),
{
    let mut i: usize = 0;
    while i < v.len()
        invariant
            i <= v@.len(),
            forall|k: int| 0 <= k < i ==> #[trigger] v@[k]@ != s@,
        decreases v@.len() - i,
    {
        if v[i] == *s {
            proof {
                assert(v@.map_values(|e: String| e@)[i as int] == s@);
            }
            return true;
        }
        i += 1;
    }
    proof {
        if v@.map_values(|e: String| e@).contains(s@) {
            let m = v@.map_values(|e: String| e@);
            let k = choose|k: int| 0 <= k < m.len() && #[trigger] m[k] == s@;
            assert(v@[k]@ != s@);
        }
    }
    false
}

impl GameState {
    /// A fresh game: at the start location, carrying nothing.
    pub fn new() -> (r: GameState)
        ensures
            r@.current == START_LOCATION@,
            r@.inventory.len() == 0,
            r@.found.len() == 0,
            forall|items: Seq<Item>| state_inv(#[trigger] r@, items),
    {
        let r = GameState {
            current_location: START_LOCATION.to_owned(),
            inventory: Vec::new(),
            found_items: Vec::new(),
        };
        proof {
            assert(r@.inventory =~= r@.found);
        }
        r
    }
}

/// Looks around the current location: reports its description and exits,
/// and picks up the item lying there unless it was found before. At an
/// unknown location nothing happens and `None` is returned.
pub fn look_around(game_state: &mut GameState, locations: &Vec<Location>, items: &Vec<Item>) -> (r:
    Option<Look>)
    requires
        locations_wf(locations@),
        items_wf(items@),
    ensures
        final(game_state)@ == looked(old(game_state)@, locations@, items@),
        state_inv(old(game_state)@, items@) ==> state_inv(final(game_state)@, items@),
        match r {
            Some(look) => reports(look, old(game_state)@, locations@, items@),
            None => !has_location(locations@, old(game_state)@.current),
        },
{
    let description = match describe(locations, &game_state.current_location) {
        Some(d) => d,
        None => {
            return None;
        },
    };
    let ghost s0 = game_state@;
    let found = match item_at(items, &game_state.current_location) {
        Some(label) => {
            if contains_label(&game_state.found_items, &label) {
                None
            } else {
                let ghost inv0 = game_state.inventory@;
                let ghost found0 = game_state.found_items@;
                game_state.inventory.push(label.clone());
                game_state.found_items.push(label.clone());
                proof {
                    assert(game_state.inventory@ =~= inv0.push(label));
                    assert(game_state.found_items@ =~= found0.push(label));
                    assert(game_state@.inventory =~= s0.inventory.push(label@));
                    assert(game_state@.found =~= s0.found.push(label@));
                    if state_inv(s0, items@) {
                        let i = choose|i: int|
                            0 <= i < items@.len() && #[trigger] items@[i].location@ == s0.current;
                        assert(item_labels(items@)[i] == label@);
                        assert forall|k: int| 0 <= k < game_state@.inventory.len() implies item_labels(
                            items@,
                        ).contains(#[trigger] game_state@.inventory[k]) by {
                            if k < s0.inventory.len() {
                                assert(game_state@.inventory[k] == s0.inventory[k]);
                            }
                        }
                    }
                }
                Some(label)
            }
        },
        None => None,
    };
    let exits = exits_of(locations, &game_state.current_location);
    Some(Look { description, found, exits })
}

/// Moves one step in `direction`, then looks around the new location. When
/// the current location has no exit that way the state is left unchanged and
/// `InvalidExit` is returned.
pub fn move_to(
    game_state: &mut GameState,
    direction: &str,
    locations: &Vec<Location>,
    items: &Vec<Item>,
) -> (r: Result<Look, MoveError>)
    requires
        locations_wf(locations@),
        items_wf(items@),
    ensures
        state_inv(old(game_state)@, items@) ==> state_inv(final(game_state)@, items@),
        match destination_of(locations@, old(game_state)@.current, direction@) {
            Some(place) => {
                let at = moved(old(game_state)@, place);
                &&& r is Ok
                &&& final(game_state)@ == looked(at, locations@, items@)
                &&& reports(r->Ok_0, at, locations@, items@)
            },
            None => r == Err::<Look, MoveError>(MoveError::InvalidExit) && final(game_state)@ == old(
                game_state,
            )@,
        },
{
    match destination(locations, &game_state.current_location, direction) {
        Some(place) => {
            proof {
                lemma_destination_exists(locations@, game_state@.current, direction@);
            }
            game_state.current_location = place;
            match look_around(game_state, locations, items) {
                Some(look) => Ok(look),
                None => Err(MoveError::InvalidExit),
            }
        },
        None => Err(MoveError::InvalidExit),
    }
}

/// Every exit of a well-formed world leads to one of its locations.
pub proof fn lemma_destination_exists(locs: Seq<Location>, name: Seq<char>, dir: Seq<char>)
    requires
        locations_wf(locs),
        destination_of(locs, name, dir) is Some,
    ensures
        has_location(locs, destination_of(locs, name, dir)->Some_0),
{
    let i = location_index(locs, name);
    let exits = locs[i].exits@;
    let j = choose|j: int| 0 <= j < exits.len() && #[trigger] exits[j].0@ == dir;
    assert(has_location(locs, locs[i].exits@[j].1@));
}

/// Whether the player holds as many items as the world defines.
pub fn has_won(game_state: &GameState, items: &Vec<Item>) -> (r: bool)
    ensures
        r == (game_state@.inventory.len() == items@.len()),
{
    game_state.inventory.len() == items.len()
}

/// Looking twice in a row at the same place leaves the state as one look
/// does: an item is never collected twice.
pub proof fn lemma_look_idempotent(s: GameView, locs: Seq<Location>, items: Seq<Item>)
    ensures
        looked(looked(s, locs, items), locs, items) == looked(s, locs, items),
{
    let t = looked(s, locs, items);
    if let Some(label) = newly_found(s, locs, items) {
        assert(t.found[t.found.len() - 1] == label);
        assert(t.found.contains(label));
    }
}

/// Under the state invariant the inventory is contained in the found items,
/// and the two hold the same labels.
pub proof fn lemma_inventory_is_found(s: GameView, items: Seq<Item>)
    requires
        state_inv(s, items),
    ensures
        s.inventory.to_set().subset_of(s.found.to_set()),
        s.inventory.to_set() == s.found.to_set(),
{
}

/// Under the state invariant, in a well-formed world, the player holds as
/// many items as the world defines exactly when they hold every one of them.
pub proof fn lemma_win_iff_all_items(s: GameView, items: Seq<Item>)
    requires
        items_wf(items),
        state_inv(s, items),
    ensures
        (s.inventory.len() == items.len()) <==> has_all_items(s, items),
{
    let labels = item_labels(items);
    let a = s.inventory.to_set();
    let b = labels.to_set();
    assert(labels.no_duplicates()) by {
        assert forall|i: int, j: int| 0 <= i < labels.len() && 0 <= j < labels.len() && i != j implies labels[i]
            != labels[j] by {
            if i < j {
                assert(items[i].label@ != items[j].label@);
            } else {
                assert(items[j].label@ != items[i].label@);
            }
        }
    }
    s.inventory.unique_seq_to_set();
    labels.unique_seq_to_set();
    assert(b.finite());
    assert(a.subset_of(b)) by {
        assert forall|x: Seq<char>| a.contains(x) implies b.contains(x) by {
            let k = choose|k: int| 0 <= k < s.inventory.len() && s.inventory[k] == x;
            assert(labels.contains(s.inventory[k]));
        }
    }
    lemma_len_subset(a, b);
    if s.inventory.len() == items.len() {
        lemma_subset_equality(a, b);
        assert forall|k: int| 0 <= k < items.len() implies s.inventory.contains(
            #[trigger] item_labels(items)[k],
        ) by {
            assert(b.contains(labels[k]));
        }
    }
    if has_all_items(s, items) {
        assert(b.subset_of(a)) by {
            assert forall|x: Seq<char>| b.contains(x) implies a.contains(x) by {
                let k = choose|k: int| 0 <= k < labels.len() && labels[k] == x;
                assert(s.inventory.contains(item_labels(items)[k]));
            }
        }
        lemma_len_subset(b, a);
    }
}

} // verus!
