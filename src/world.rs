//! The world: named locations with their descriptions and exits, and the
//! items that lie at some of them. The world never changes once built.
use vstd::prelude::*;

verus! {

/// A place in the world. `exits` holds (direction, destination) pairs in
/// declaration order.
pub struct Location {
    pub name: String,
    pub description: String,
    pub exits: Vec<(String, String)>,
}

/// A collectible item and the name of the location where it lies.
pub struct Item {
    pub location: String,
    pub label: String,
}

/// The view of an optional string.
pub open spec fn opt_view(o: Option<String>) -> Option<Seq<char>> {
    match o {
        Some(s) => Some(s@),
        None => None,
    }
}

/// Some location is called `name`.
pub open spec fn has_location(locs: Seq<Location>, name: Seq<char>) -> bool {
    exists|i: int| 0 <= i < locs.len() && #[trigger] locs[i].name@ == name
}

/// The position of the location called `name` (unique in a well-formed world).
pub open spec fn location_index(locs: Seq<Location>, name: Seq<char>) -> int
    recommends
        has_location(locs, name),
{
    choose|i: int| 0 <= i < locs.len() && #[trigger] locs[i].name@ == name
}

/// Some exit of `exits` leads in direction `dir`.
pub open spec fn has_exit(exits: Seq<(String, String)>, dir: Seq<char>) -> bool {
    exists|j: int| 0 <= j < exits.len() && #[trigger] exits[j].0@ == dir
}

/// Where the exit in direction `dir` leads, if there is one.
pub open spec fn exit_target(exits: Seq<(String, String)>, dir: Seq<char>) -> Option<Seq<char>> {
    if has_exit(exits, dir) {
        Some(exits[choose|j: int| 0 <= j < exits.len() && #[trigger] exits[j].0@ == dir].1@)
    } else {
        None
    }
}

/// The description of the location called `name`.
pub open spec fn description_of(locs: Seq<Location>, name: Seq<char>) -> Option<Seq<char>> {
    if has_location(locs, name) {
        Some(locs[location_index(locs, name)].description@)
    } else {
        None
    }
}

/// The directions of the exits of the location called `name`, in declaration
/// order; empty for an unknown location.
pub open spec fn exit_directions(locs: Seq<Location>, name: Seq<char>) -> Seq<Seq<char>> {
    if has_location(locs, name) {
        locs[location_index(locs, name)].exits@.map_values(|e: (String, String)| e.0@)
    } else {
        Seq::empty()
    }
}

/// Where direction `dir` leads from the location called `name`.
pub open spec fn destination_of(locs: Seq<Location>, name: Seq<char>, dir: Seq<char>) -> Option<
    Seq<char>,
> {
    if has_location(locs, name) {
        exit_target(locs[location_index(locs, name)].exits@, dir)
    } else {
        None
    }
}

/// Some item lies at the location called `name`.
pub open spec fn has_item_at(items: Seq<Item>, name: Seq<char>) -> bool {
    exists|i: int| 0 <= i < items.len() && #[trigger] items[i].location@ == name
}

/// The label of the item at the location called `name`, if any.
pub open spec fn item_label_at(items: Seq<Item>, name: Seq<char>) -> Option<Seq<char>> {
    if has_item_at(items, name) {
        Some(items[choose|i: int| 0 <= i < items.len() && #[trigger] items[i].location@ == name].label@)
    } else {
        None
    }
}

/// Location names are unique.
pub open spec fn names_unique(locs: Seq<Location>) -> bool {
    forall|i: int, j: int| 0 <= i < j < locs.len() ==> locs[i].name@ != locs[j].name@
}

/// No location has two exits in the same direction.
pub open spec fn exits_unique(locs: Seq<Location>) -> bool {
    forall|i: int, j: int, k: int|
        0 <= i < locs.len() && 0 <= j < k < locs[i].exits@.len() ==> locs[i].exits@[j].0@
            != locs[i].exits@[k].0@
}

/// Every exit leads to a location of the world.
pub open spec fn exits_closed(locs: Seq<Location>) -> bool {
    forall|i: int, j: int|
        0 <= i < locs.len() && 0 <= j < locs[i].exits@.len() ==> has_location(
            locs,
            #[trigger] locs[i].exits@[j].1@,
        )
}

/// A well-formed set of locations.
pub open spec fn locations_wf(locs: Seq<Location>) -> bool {
    &&& names_unique(locs)
    &&& exits_unique(locs)
    &&& exits_closed(locs)
}

/// A well-formed set of items: at most one item per location, and no two
/// items share a label.
pub open spec fn items_wf(items: Seq<Item>) -> bool {
    forall|i: int, j: int|
        0 <= i < j < items.len() ==> items[i].location@ != items[j].location@ && items[i].label@
            != items[j].label@
}

/// The labels of all items.
pub open spec fn item_labels(items: Seq<Item>) -> Seq<Seq<char>> {
    items.map_values(|it: Item| it.label@)
}

/// In a world with unique names, a location is found at its one position.
proof fn lemma_location_index(locs: Seq<Location>, name: Seq<char>, i: int)
    requires
        names_unique(locs),
        0 <= i < locs.len(),
        locs[i].name@ == name,
    ensures
        has_location(locs, name),
        location_index(locs, name) == i,
{
    assert(locs[i].name@ == name);
    let k = location_index(locs, name);
    if k < i {
        assert(locs[k].name@ != locs[i].name@);
    } else if i < k {
        assert(locs[i].name@ != locs[k].name@);
    }
}

proof fn lemma_exit_target(exits: Seq<(String, String)>, dir: Seq<char>, j: int)
    requires
        forall|a: int, b: int| 0 <= a < b < exits.len() ==> exits[a].0@ != exits[b].0@,
        0 <= j < exits.len(),
        exits[j].0@ == dir,
    ensures
        exit_target(exits, dir) == Some(exits[j].1@),
{
    assert(exits[j].0@ == dir);
    let k = choose|k: int| 0 <= k < exits.len() && #[trigger] exits[k].0@ == dir;
    if k < j {
        assert(exits[k].0@ != exits[j].0@);
    } else if j < k {
        assert(exits[j].0@ != exits[k].0@);
    }
}

proof fn lemma_item_label_at(items: Seq<Item>, name: Seq<char>, i: int)
    requires
        items_wf(items),
        0 <= i < items.len(),
        items[i].location@ == name,
    ensures
        item_label_at(items, name) == Some(items[i].label@),
{
    assert(items[i].location@ == name);
    let k = choose|k: int| 0 <= k < items.len() && #[trigger] items[k].location@ == name;
    if k < i {
        assert(items[k].location@ != items[i].location@);
    } else if i < k {
        assert(items[i].location@ != items[k].location@);
    }
}

/// The position of the first location called `name`.
fn find_location(locations: &Vec<Location>, name: &String) -> (r: Option<usize>)
    ensures
        match r {
            Some(i) => i < locations@.len() && locations@[i as int].name@ == name@,
            None => !has_location(locations@, name@),
        },
{
    let mut i: usize = 0;
    while i < locations.len()
        invariant
            i <= locations@.len(),
            forall|k: int| 0 <= k < i ==> #[trigger] locations@[k].name@ != name@,
        decreases locations@.len() - i,
    {
        if locations[i].name == *name {
            return Some(i);
        }
        i += 1;
    }
    None
}

/// The description of the location called `location`, or `None` for an
/// unknown location.
pub fn describe(locations: &Vec<Location>, location: &String) -> (r: Option<String>)
    requires
        locations_wf(locations@),
    ensures
        opt_view(r) == description_of(locations@, location@),
{
    match find_location(locations, location) {
        Some(i) => {
            proof {
                lemma_location_index(locations@, location@, i as int);
            }
            Some(locations[i].description.clone())
        },
        None => None,
    }
}

/// The directions in which one can leave the location called `location`, in
/// declaration order; empty for an unknown location.
pub fn exits_of(locations: &Vec<Location>, location: &String) -> (r: Vec<String>)
    requires
        locations_wf(locations@),
    ensures
        r@.map_values(|s: String| s@) == exit_directions(locations@, location@),
{
    let mut out: Vec<String> = Vec::new();
    match find_location(locations, location) {
        Some(li) => {
            proof {
                lemma_location_index(locations@, location@, li as int);
            }
            let exits = &locations[li].exits;
            let mut j: usize = 0;
            while j < exits.len()
                invariant
                    j <= exits@.len(),
                    li < locations@.len(),
                    out@.len() == j,
                    exits@ == locations@[li as int].exits@,
                    out@.map_values(|s: String| s@) == exits@.subrange(0, j as int).map_values(
                        |e: (String, String)| e.0@,
                    ),
                decreases exits@.len() - j,
            {
                let ghost prev = out@;
                out.push(exits[j].0.clone());
                proof {
                    assert(exits@.subrange(0, j + 1) =~= exits@.subrange(0, j as int).push(
                        exits@[j as int],
                    ));
                    assert(out@ =~= prev.push(out@[j as int]));
                    assert(out@.map_values(|s: String| s@) =~= prev.map_values(|s: String| s@).push(
                        exits@[j as int].0@,
                    ));
                    assert(exits@.subrange(0, j + 1).map_values(|e: (String, String)| e.0@)
                        =~= exits@.subrange(0, j as int).map_values(|e: (String, String)| e.0@).push(
                        exits@[j as int].0@,
                    ));
                }
                j += 1;
            }
            proof {
                assert(exits@.subrange(0, exits@.len() as int) == exits@);
            }
        },
        None => {},
    }
    proof {
        assert(out@.map_values(|s: String| s@) =~= exit_directions(locations@, location@));
    }
    out
}

/// Where direction `direction` leads from the location called `location`:
/// `None` when that location has no exit in that direction, or is unknown.
pub fn destination(locations: &Vec<Location>, location: &String, direction: &str) -> (r: Option<
    String,
>)
    requires
        locations_wf(locations@),
    ensures
        opt_view(r) == destination_of(locations@, location@, direction@),
        r.is_some() <==> (has_location(locations@, location@) && has_exit(
            locations@[location_index(locations@, location@)].exits@,
            direction@,
        )),
{
    let li = match find_location(locations, location) {
        Some(li) => li,
        None => {
            return None;
        },
    };
    proof {
        lemma_location_index(locations@, location@, li as int);
    }
    let dir = direction.to_owned();
    let exits = &locations[li].exits;
    let mut j: usize = 0;
    while j < exits.len()
        invariant
            j <= exits@.len(),
            li < locations@.len(),
            locations_wf(locations@),
            has_location(locations@, location@),
            location_index(locations@, location@) == li,
            dir@ == direction@,
            exits@ == locations@[li as int].exits@,
            forall|k: int| 0 <= k < j ==> #[trigger] exits@[k].0@ != dir@,
        decreases exits@.len() - j,
    {
        if exits[j].0 == dir {
            proof {
                assert forall|a: int, b: int| 0 <= a < b < exits@.len() implies exits@[a].0@
                    != exits@[b].0@ by {
                    assert(locations@[li as int].exits@[a].0@ != locations@[li as int].exits@[b].0@);
                }
                lemma_exit_target(exits@, dir@, j as int);
            }
            return Some(exits[j].1.clone());
        }
        j += 1;
    }
    None
}

/// The label of the item lying at the location called `location`, if any.
pub fn item_at(items: &Vec<Item>, location: &String) -> (r: Option<String>)
    requires
        items_wf(items@),
    ensures
        opt_view(r) == item_label_at(items@, location@),
{
    let mut i: usize = 0;
    while i < items.len()
        invariant
            i <= items@.len(),
            items_wf(items@),
            forall|k: int| 0 <= k < i ==> #[trigger] items@[k].location@ != location@,
        decreases items@.len() - i,
    {
        if items[i].location == *location {
            proof {
                lemma_item_label_at(items@, location@, i as int);
            }
            return Some(items[i].label.clone());
        }
        i += 1;
    }
    None
}

/// A defect that makes a world unusable.
#[derive(Debug, Clone, Copy, PartialEq, Eq, Structural)]
pub enum WorldError {
    /// Two locations share a name.
    DuplicateLocation,
    /// A location has two exits in the same direction.
    DuplicateExit,
    /// An exit leads to a location that does not exist.
    DanglingExit,
    /// Two items lie at one location, or share a label.
    DuplicateItem,
}

/// No two exits of `exits` share a direction.
pub open spec fn directions_unique(exits: Seq<(String, String)>) -> bool {
    forall|a: int, b: int| 0 <= a < b < exits.len() ==> exits[a].0@ != exits[b].0@
}

fn distinct_names(locations: &Vec<Location>) -> (r: bool)
    ensures
        r == names_unique(locations@),
{
    let mut i: usize = 0;
    while i < locations.len()
        invariant
            i <= locations@.len(),
            forall|a: int, b: int| 0 <= a < b < i ==> locations@[a].name@ != locations@[b].name@,
        decreases locations@.len() - i,
    {
        let mut j: usize = 0;
        while j < i
            invariant
                j <= i < locations@.len(),
                forall|a: int| 0 <= a < j ==> locations@[a].name@ != locations@[i as int].name@,
            decreases i - j,
        {
            if locations[j].name == locations[i].name {
                proof {
                    assert(!names_unique(locations@)) by {
                        assert(locations@[j as int].name@ == locations@[i as int].name@);
                    }
                }
                return false;
            }
            j += 1;
        }
        i += 1;
    }
    true
}

fn distinct_directions(exits: &Vec<(String, String)>) -> (r: bool)
    ensures
        r == directions_unique(exits@),
{
    let mut i: usize = 0;
    while i < exits.len()
        invariant
            i <= exits@.len(),
            forall|a: int, b: int| 0 <= a < b < i ==> exits@[a].0@ != exits@[b].0@,
        decreases exits@.len() - i,
    {
        let mut j: usize = 0;
        while j < i
            invariant
                j <= i < exits@.len(),
                forall|a: int| 0 <= a < j ==> exits@[a].0@ != exits@[i as int].0@,
            decreases i - j,
        {
            if exits[j].0 == exits[i].0 {
                proof {
                    assert(!directions_unique(exits@)) by {
                        assert(exits@[j as int].0@ == exits@[i as int].0@);
                    }
                }
                return false;
            }
            j += 1;
        }
        i += 1;
    }
    true
}

fn all_exits_distinct(locations: &Vec<Location>) -> (r: bool)
    ensures
        r == exits_unique(locations@),
{
    let mut i: usize = 0;
    while i < locations.len()
        invariant
            i <= locations@.len(),
            forall|a: int| 0 <= a < i ==> directions_unique(#[trigger] locations@[a].exits@),
        decreases locations@.len() - i,
    {
        if !distinct_directions(&locations[i].exits) {
            proof {
                assert(!exits_unique(locations@)) by {
                    let exits = locations@[i as int].exits@;
                    let (a, b) = choose|a: int, b: int|
                        !(0 <= a < b < exits.len() ==> exits[a].0@ != exits[b].0@);
                    assert(locations@[i as int].exits@[a].0@ == locations@[i as int].exits@[b].0@);
                }
            }
            return false;
        }
        i += 1;
    }
    proof {
        assert forall|i: int, j: int, k: int|
            0 <= i < locations@.len() && 0 <= j < k < locations@[i].exits@.len() implies locations@[i].exits@[j].0@
            != locations@[i].exits@[k].0@ by {
            assert(directions_unique(locations@[i].exits@));
        }
    }
    true
}

fn all_exits_closed(locations: &Vec<Location>) -> (r: bool)
    ensures
        r == exits_closed(locations@),
{
    let mut i: usize = 0;
    while i < locations.len()
        invariant
            i <= locations@.len(),
            forall|a: int, b: int|
                0 <= a < i && 0 <= b < locations@[a].exits@.len() ==> has_location(
                    locations@,
                    #[trigger] locations@[a].exits@[b].1@,
                ),
        decreases locations@.len() - i,
    {
        let exits = &locations[i].exits;
        let mut j: usize = 0;
        while j < exits.len()
            invariant
                i < locations@.len(),
                j <= exits@.len(),
                exits@ == locations@[i as int].exits@,
                forall|a: int, b: int|
                    0 <= a < i && 0 <= b < locations@[a].exits@.len() ==> has_location(
                        locations@,
                        #[trigger] locations@[a].exits@[b].1@,
                    ),
                forall|b: int| 0 <= b < j ==> has_location(locations@, #[trigger] exits@[b].1@),
            decreases exits@.len() - j,
        {
            if find_location(locations, &exits[j].1).is_none() {
                proof {
                    assert(!has_location(locations@, locations@[i as int].exits@[j as int].1@));
                }
                return false;
            }
            j += 1;
        }
        i += 1;
    }
    true
}

fn distinct_items(items: &Vec<Item>) -> (r: bool)
    ensures
        r == items_wf(items@),
{
    let mut i: usize = 0;
    while i < items.len()
        invariant
            i <= items@.len(),
            forall|a: int, b: int|
                0 <= a < b < i ==> items@[a].location@ != items@[b].location@ && items@[a].label@
                    != items@[b].label@,
        decreases items@.len() - i,
    {
        let mut j: usize = 0;
        while j < i
            invariant
                j <= i < items@.len(),
                forall|a: int|
                    0 <= a < j ==> items@[a].location@ != items@[i as int].location@
                        && items@[a].label@ != items@[i as int].label@,
            decreases i - j,
        {
            if items[j].location == items[i].location || items[j].label == items[i].label {
                proof {
                    assert(!items_wf(items@)) by {
                        assert(items@[j as int].location@ == items@[i as int].location@
                            || items@[j as int].label@ == items@[i as int].label@);
                    }
                }
                return false;
            }
            j += 1;
        }
        i += 1;
    }
    true
}

/// Checks that a world is fit to play: location names are unique, no
/// location has two exits one way, every exit leads to a location, and items
/// neither share a location nor a label. Defects are reported in that order.
pub fn check_world(locations: &Vec<Location>, items: &Vec<Item>) -> (r: Result<(), WorldError>)
    ensures
        r is Ok <==> locations_wf(locations@) && items_wf(items@),
        r == Err::<(), WorldError>(WorldError::DuplicateLocation) <==> !names_unique(locations@),
        r == Err::<(), WorldError>(WorldError::DuplicateExit) <==> names_unique(locations@)
            && !exits_unique(locations@),
        r == Err::<(), WorldError>(WorldError::DanglingExit) <==> names_unique(locations@)
            && exits_unique(locations@) && !exits_closed(locations@),
        r == Err::<(), WorldError>(WorldError::DuplicateItem) <==> locations_wf(locations@)
            && !items_wf(items@),
{
    if !distinct_names(locations) {
        Err(WorldError::DuplicateLocation)
    } else if !all_exits_distinct(locations) {
        Err(WorldError::DuplicateExit)
    } else if !all_exits_closed(locations) {
        Err(WorldError::DanglingExit)
    } else if !distinct_items(items) {
        Err(WorldError::DuplicateItem)
    } else {
        Ok(())
    }
}

} // verus!
