//! The built-in world: four locations around a garden, three items to find.
use vstd::prelude::*;

use crate::world::{items_wf, locations_wf, Item, Location};

verus! {

/// The names of the built-in locations.
pub const GARDEN: &'static str = "Garden";

pub const POND: &'static str = "Pond";

pub const ROCKY_PATH: &'static str = "Rocky Path";

pub const FOREST: &'static str = "Forest";

/// The compass directions that the built-in exits use.
pub const NORTH: &'static str = "north";

pub const SOUTH: &'static str = "south";

pub const EAST: &'static str = "east";

pub const WEST: &'static str = "west";

/// The descriptions of the built-in locations.
pub const GARDEN_TEXT: &'static str =
    "You are in a lush garden. Tall green leaves sway gently above you.";

pub const POND_TEXT: &'static str = "You are at the edge of a small pond. The air is cool and damp.";

pub const ROCKY_PATH_TEXT: &'static str =
    "You are on a rocky path. Pebbles crunch under your many little legs.";

pub const FOREST_TEXT: &'static str =
    "You are in a shady forest. Fallen leaves cover the soft, moist ground.";

/// The labels of the built-in items.
pub const COOKIE: &'static str = "Cookie Crumb 🍪";

pub const FRIEND: &'static str = "Isopod Friend 🐾";

pub const HIDEOUT: &'static str = "A Place to Hide 🛏️";

/// A location as plain values: name, description and exits.
pub open spec fn location_view(l: Location) -> (Seq<char>, Seq<char>, Seq<(Seq<char>, Seq<char>)>) {
    (l.name@, l.description@, l.exits@.map_values(|e: (String, String)| (e.0@, e.1@)))
}

/// An item as plain values: location and label.
pub open spec fn item_view(it: Item) -> (Seq<char>, Seq<char>) {
    (it.location@, it.label@)
}

/// The built-in locations.
pub open spec fn builtin_locations() -> Seq<(Seq<char>, Seq<char>, Seq<(Seq<char>, Seq<char>)>)> {
    seq![
        (GARDEN@, GARDEN_TEXT@, seq![(NORTH@, POND@), (EAST@, ROCKY_PATH@)]),
        (POND@, POND_TEXT@, seq![(SOUTH@, GARDEN@), (EAST@, FOREST@)]),
        (ROCKY_PATH@, ROCKY_PATH_TEXT@, seq![(WEST@, GARDEN@), (NORTH@, FOREST@)]),
        (FOREST@, FOREST_TEXT@, seq![(WEST@, POND@), (SOUTH@, ROCKY_PATH@)]),
    ]
}

/// The built-in items.
pub open spec fn builtin_items() -> Seq<(Seq<char>, Seq<char>)> {
    seq![(GARDEN@, COOKIE@), (POND@, FRIEND@), (FOREST@, HIDEOUT@)]
}

fn exit(direction: &str, to: &str) -> (r: (String, String))
    ensures
        r.0@ == direction@,
        r.1@ == to@,
{
    (direction.to_owned(), to.to_owned())
}

fn place(name: &str, description: &str, a: (String, String), b: (String, String)) -> (r: Location)
    ensures
        r.name@ == name@,
        r.description@ == description@,
        r.exits@ == seq![a, b],
{
    let mut exits: Vec<(String, String)> = Vec::new();
    exits.push(a);
    exits.push(b);
    proof {
        assert(exits@ =~= seq![a, b]);
    }
    Location { name: name.to_owned(), description: description.to_owned(), exits }
}

/// The locations of the built-in world.
pub fn get_locations() -> (r: Vec<Location>)
    ensures
        r@.map_values(|l: Location| location_view(l)) == builtin_locations(),
        locations_wf(r@),
{
    let mut r: Vec<Location> = Vec::new();
    r.push(place(GARDEN, GARDEN_TEXT, exit(NORTH, POND), exit(EAST, ROCKY_PATH)));
    r.push(place(POND, POND_TEXT, exit(SOUTH, GARDEN), exit(EAST, FOREST)));
    r.push(place(ROCKY_PATH, ROCKY_PATH_TEXT, exit(WEST, GARDEN), exit(NORTH, FOREST)));
    r.push(place(FOREST, FOREST_TEXT, exit(WEST, POND), exit(SOUTH, ROCKY_PATH)));
    proof {
        reveal_strlit("Garden");
        reveal_strlit("Pond");
        reveal_strlit("Rocky Path");
        reveal_strlit("Forest");
        reveal_strlit("north");
        reveal_strlit("south");
        reveal_strlit("east");
        reveal_strlit("west");
        let v = r@;
        assert(GARDEN@[0] == 'G' && POND@[0] == 'P' && ROCKY_PATH@[0] == 'R' && FOREST@[0] == 'F');
        assert(NORTH@[0] == 'n' && SOUTH@[0] == 's' && EAST@[0] == 'e' && WEST@[0] == 'w');
        assert(v[0].exits@.map_values(|e: (String, String)| (e.0@, e.1@)) =~= seq![
            (NORTH@, POND@),
            (EAST@, ROCKY_PATH@),
        ]);
        assert(v[1].exits@.map_values(|e: (String, String)| (e.0@, e.1@)) =~= seq![
            (SOUTH@, GARDEN@),
            (EAST@, FOREST@),
        ]);
        assert(v[2].exits@.map_values(|e: (String, String)| (e.0@, e.1@)) =~= seq![
            (WEST@, GARDEN@),
            (NORTH@, FOREST@),
        ]);
        assert(v[3].exits@.map_values(|e: (String, String)| (e.0@, e.1@)) =~= seq![
            (WEST@, POND@),
            (SOUTH@, ROCKY_PATH@),
        ]);
        assert(v.map_values(|l: Location| location_view(l)) =~= builtin_locations());
        assert(v[0].name@ != v[1].name@);
        assert(v[0].name@ != v[2].name@);
        assert(v[0].name@ != v[3].name@);
        assert(v[1].name@ != v[2].name@);
        assert(v[1].name@ != v[3].name@);
        assert(v[2].name@ != v[3].name@);
        assert(v[0].exits@[0].0@ != v[0].exits@[1].0@);
        assert(v[1].exits@[0].0@ != v[1].exits@[1].0@);
        assert(v[2].exits@[0].0@ != v[2].exits@[1].0@);
        assert(v[3].exits@[0].0@ != v[3].exits@[1].0@);
        assert(v[0].name@ == GARDEN@);
        assert(v[1].name@ == POND@);
        assert(v[2].name@ == ROCKY_PATH@);
        assert(v[3].name@ == FOREST@);
        assert forall|i: int, j: int|
            0 <= i < v.len() && 0 <= j < v[i].exits@.len() implies crate::world::has_location(
            v,
            #[trigger] v[i].exits@[j].1@,
        ) by {
            let to = v[i].exits@[j].1@;
            if to == GARDEN@ {
                assert(v[0].name@ == to);
            } else if to == POND@ {
                assert(v[1].name@ == to);
            } else if to == ROCKY_PATH@ {
                assert(v[2].name@ == to);
            } else {
                assert(v[3].name@ == to);
            }
        }
    }
    r
}

fn item(location: &str, label: &str) -> (r: Item)
    ensures
        r.location@ == location@,
        r.label@ == label@,
{
    Item { location: location.to_owned(), label: label.to_owned() }
}

/// The items of the built-in world.
pub fn get_items() -> (r: Vec<Item>)
    ensures
        r@.map_values(|it: Item| item_view(it)) == builtin_items(),
        items_wf(r@),
{
    let mut r: Vec<Item> = Vec::new();
    r.push(item(GARDEN, COOKIE));
    r.push(item(POND, FRIEND));
    r.push(item(FOREST, HIDEOUT));
    proof {
        reveal_strlit("Garden");
        reveal_strlit("Pond");
        reveal_strlit("Forest");
        reveal_strlit("Cookie Crumb 🍪");
        reveal_strlit("Isopod Friend 🐾");
        reveal_strlit("A Place to Hide 🛏️");
        let v = r@;
        assert(GARDEN@[0] == 'G' && POND@[0] == 'P' && FOREST@[0] == 'F');
        assert(COOKIE@[0] == 'C' && FRIEND@[0] == 'I' && HIDEOUT@[0] == 'A');
        assert(v.map_values(|it: Item| item_view(it)) =~= builtin_items());
        assert(v[0].location@ != v[1].location@ && v[0].label@ != v[1].label@);
        assert(v[0].location@ != v[2].location@ && v[0].label@ != v[2].label@);
        assert(v[1].location@ != v[2].location@ && v[1].label@ != v[2].label@);
    }
    r
}

} // verus!
