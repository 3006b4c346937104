//! The table from OSC addresses to the pins they drive.

use crate::osc_handler::OscPath;
use crate::piblaster::GpioPin;
use vstd::prelude::*;

verus! {

/// A table as a list: each address with its pins, in the order in which the
/// addresses were first inserted.
pub type Entries = Seq<(Seq<char>, Seq<GpioPin>)>;

/// The place of the first entry for `path`, or the list's length where there
/// is none.
pub open spec fn index_of(entries: Entries, path: Seq<char>) -> int
    decreases entries.len(),
{
    if entries.len() == 0 {
        0
    } else if entries[0].0 == path {
        0
    } else {
        1 + index_of(entries.skip(1), path)
    }
}

/// The pins that `path` drives, if the table knows the path.
pub open spec fn lookup(entries: Entries, path: Seq<char>) -> Option<Seq<GpioPin>> {
    if index_of(entries, path) < entries.len() {
        Some(entries[index_of(entries, path)].1)
    } else {
        None
    }
}

/// The table after `path` is given `pins`: a known path keeps its place and
/// has its pins replaced, a new one goes to the end.
pub open spec fn inserted(entries: Entries, path: Seq<char>, pins: Seq<GpioPin>) -> Entries {
    if index_of(entries, path) < entries.len() {
        entries.update(index_of(entries, path), (path, pins))
    } else {
        entries.push((path, pins))
    }
}

/// Whether no address stands twice in the list.
pub open spec fn distinct_paths(entries: Entries) -> bool {
    forall|i: int, j: int|
        0 <= i < j < entries.len() ==> (#[trigger] entries[i]).0 != (#[trigger] entries[j]).0
}

/// All pins of the table, entry by entry, each entry's pins in their order.
pub open spec fn all_pins(entries: Entries) -> Seq<GpioPin>
    decreases entries.len(),
{
    if entries.len() == 0 {
        Seq::empty()
    } else {
        all_pins(entries.drop_last()) + entries.last().1
    }
}

/// Whether some address of the table drives `pin`.
pub open spec fn routed(entries: Entries, pin: GpioPin) -> bool {
    exists|e: int, p: int|
        0 <= e < entries.len() && 0 <= p < entries[e].1.len() && (#[trigger] entries[e].1[p])
            == pin
}

/// The pins of the table are the pins that its addresses drive: an actuator
/// built for `all_pins` has every pin that the table can lead to, and no
/// other.
pub proof fn lemma_all_pins_routed(entries: Entries, pin: GpioPin)
    ensures
        all_pins(entries).contains(pin) <==> routed(entries, pin),
    decreases entries.len(),
{
    if entries.len() > 0 {
        let front = entries.drop_last();
        lemma_all_pins_routed(front, pin);
        if all_pins(entries).contains(pin) {
            let k = choose|k: int| 0 <= k < all_pins(entries).len() && all_pins(entries)[k] == pin;
            if k < all_pins(front).len() {
                let (e, p) = choose|e: int, p: int|
                    0 <= e < front.len() && 0 <= p < front[e].1.len() && (#[trigger] front[e].1[p])
                        == pin;
                assert(entries[e].1[p] == pin);
            } else {
                assert(entries[entries.len() - 1].1[k - all_pins(front).len()] == pin);
            }
        }
        if routed(entries, pin) {
            let (e, p) = choose|e: int, p: int|
                0 <= e < entries.len() && 0 <= p < entries[e].1.len() && (
                #[trigger] entries[e].1[p]) == pin;
            if e < front.len() {
                assert(front[e].1[p] == pin);
                let k = choose|k: int| 0 <= k < all_pins(front).len() && all_pins(front)[k] == pin;
                assert(all_pins(entries)[k] == pin);
            } else {
                assert(all_pins(entries)[all_pins(front).len() + p] == pin);
            }
        }
    }
}

/// `index_of` finds the first entry for the path and nothing before it.
pub proof fn lemma_index_of(entries: Entries, path: Seq<char>)
    ensures
        0 <= index_of(entries, path) <= entries.len(),
        forall|k: int| 0 <= k < index_of(entries, path) ==> (#[trigger] entries[k]).0 != path,
        index_of(entries, path) < entries.len() ==> entries[index_of(entries, path)].0 == path,
    decreases entries.len(),
{
    if entries.len() > 0 && entries[0].0 != path {
        let rest = entries.skip(1);
        lemma_index_of(rest, path);
        assert forall|k: int| 0 <= k < index_of(entries, path) implies (#[trigger] entries[k]).0
            != path by {
            if k > 0 {
                assert(entries[k] == rest[k - 1]);
            }
        }
    }
}

/// A place with no entry for the path before it, that holds one or is the
/// list's end, is the place `index_of` finds.
pub proof fn lemma_index_of_is(entries: Entries, path: Seq<char>, at: int)
    requires
        0 <= at <= entries.len(),
        forall|k: int| 0 <= k < at ==> (#[trigger] entries[k]).0 != path,
        at < entries.len() ==> entries[at].0 == path,
    ensures
        index_of(entries, path) == at,
{
    lemma_index_of(entries, path);
}

/// Insertion keeps the addresses distinct.
pub proof fn lemma_inserted_distinct(entries: Entries, path: Seq<char>, pins: Seq<GpioPin>)
    requires
        distinct_paths(entries),
    ensures
        distinct_paths(inserted(entries, path, pins)),
{
    lemma_index_of(entries, path);
}

/// Where no address stands twice, every entry is what `lookup` finds for its
/// address.
pub proof fn lemma_lookup_entry(entries: Entries, at: int)
    requires
        distinct_paths(entries),
        0 <= at < entries.len(),
    ensures
        lookup(entries, entries[at].0) == Some(entries[at].1),
{
    lemma_index_of(entries, entries[at].0);
}

/// After an insertion the path leads to the new pins, and every other path
/// leads where it led before.
pub proof fn lemma_lookup_inserted(
    entries: Entries,
    path: Seq<char>,
    pins: Seq<GpioPin>,
    other: Seq<char>,
)
    ensures
        lookup(inserted(entries, path, pins), path) == Some(pins),
        other != path ==> lookup(inserted(entries, path, pins), other) == lookup(entries, other),
{
    lemma_index_of(entries, path);
    lemma_index_of(entries, other);
    let after = inserted(entries, path, pins);
    lemma_index_of_is(after, path, index_of(entries, path));
    if other != path {
        if index_of(entries, other) < entries.len() {
            lemma_index_of_is(after, other, index_of(entries, other));
        } else {
            lemma_index_of_is(after, other, after.len() as int);
        }
    }
}

/// One address and the pins it drives.
#[derive(Debug, PartialEq, Eq)]
pub struct Route {
    pub path: OscPath,
    pub pins: Vec<GpioPin>,
}

impl Clone for Route {
    /// The same address with the same pins.
    fn clone(&self) -> (route: Self)
        ensures
            route.path@ == self.path@,
            route.pins@ == self.pins@,
    {
        let mut pins: Vec<GpioPin> = Vec::new();
        let mut i: usize = 0;
        while i < self.pins.len()
            invariant
                i <= self.pins@.len(),
                pins@ == self.pins@.subrange(0, i as int),
            decreases self.pins.len() - i,
        {
            pins.push(self.pins[i]);
            i += 1;
        }
        Route { path: self.path.clone(), pins }
    }
}

/// The routing table: for each known address, the pins it drives.
#[derive(Debug)]
pub struct RoutingTable {
    routes: Vec<Route>,
}

/// Routes as a list of addresses with their pins.
pub open spec fn entries_of(routes: Seq<Route>) -> Entries {
    routes.map_values(|route: Route| (route.path@, route.pins@))
}

impl Clone for RoutingTable {
    /// A table with the same entries in the same order.
    fn clone(&self) -> (table: Self)
        ensures
            table.entries() == self.entries(),
    {
        proof {
            use_type_invariant(self);
        }
        let mut routes: Vec<Route> = Vec::new();
        let mut i: usize = 0;
        while i < self.routes.len()
            invariant
                i <= self.routes@.len(),
                routes@.len() == i,
                entries_of(routes@) == self.entries().subrange(0, i as int),
            decreases self.routes.len() - i,
        {
            let ghost before = routes@;
            let route = self.routes[i].clone();
            routes.push(route);
            assert forall|k: int| 0 <= k < i + 1 implies #[trigger] entries_of(routes@)[k]
                == self.entries()[k] by {
                if k < i {
                    assert(entries_of(before)[k] == self.entries().subrange(0, i as int)[k]);
                }
            }
            i += 1;
        }
        RoutingTable { routes }
    }
}

impl RoutingTable {
    /// The table as a list, in the order in which its addresses were first
    /// inserted.
    pub closed spec fn entries(self) -> Entries {
        entries_of(self.routes@)
    }

    #[verifier::type_invariant]
    spec fn no_path_twice(self) -> bool {
        distinct_paths(self.entries())
    }

    /// A table without addresses.
    pub fn new() -> (table: Self)
        ensures
            table.entries() == Entries::empty(),
    {
        let table = RoutingTable { routes: Vec::new() };
        table
    }

    /// The number of addresses.
    pub fn len(&self) -> (n: usize)
        ensures
            n == self.entries().len(),
    {
        self.routes.len()
    }

    /// The place of `path` among the routes, or their number.
    fn find(&self, path: &OscPath) -> (at: usize)
        ensures
            at == index_of(self.entries(), path@),
    {
        let mut i: usize = 0;
        while i < self.routes.len()
            invariant
                i <= self.routes@.len(),
                forall|k: int| 0 <= k < i ==> (#[trigger] self.entries()[k]).0 != path@,
            decreases self.routes.len() - i,
        {
            if self.routes[i].path.same_as(path) {
                proof {
                    lemma_index_of_is(self.entries(), path@, i as int);
                }
                return i;
            }
            i += 1;
        }
        proof {
            lemma_index_of_is(self.entries(), path@, i as int);
        }
        i
    }

    /// Whether the table knows `path`.
    pub fn contains_key(&self, path: &OscPath) -> (r: bool)
        ensures
            r == lookup(self.entries(), path@).is_some(),
    {
        self.find(path) < self.routes.len()
    }

    /// The pins that `path` drives.
    pub fn get(&self, path: &OscPath) -> (r: Option<&Vec<GpioPin>>)
        ensures
            match r {
                Some(pins) => lookup(self.entries(), path@) == Some(pins@),
                None => lookup(self.entries(), path@).is_none(),
            },
    {
        let at = self.find(path);
        if at < self.routes.len() {
            Some(&self.routes[at].pins)
        } else {
            None
        }
    }

    /// Gives `path` the pins `pins`, in place of any it had.
    pub fn insert(&mut self, path: OscPath, pins: Vec<GpioPin>)
        ensures
            final(self).entries() == inserted(old(self).entries(), path@, pins@),
    {
        proof {
            use_type_invariant(&*self);
            lemma_inserted_distinct(self.entries(), path@, pins@);
        }
        let at = self.find(&path);
        let mut routes: Vec<Route> = Vec::new();
        std::mem::swap(&mut routes, &mut self.routes);
        if at < routes.len() {
            routes[at] = Route { path, pins };
        } else {
            routes.push(Route { path, pins });
        }
        assert(entries_of(routes@) =~= inserted(old(self).entries(), path@, pins@));
        self.routes = routes;
    }

    /// All pins of the table, entry by entry.
    pub fn all_pins(&self) -> (pins: Vec<GpioPin>)
        ensures
            pins@ == all_pins(self.entries()),
    {
        let mut v: Vec<GpioPin> = Vec::new();
        let mut i: usize = 0;
        while i < self.routes.len()
            invariant
                i <= self.routes@.len(),
                v@ == all_pins(self.entries().subrange(0, i as int)),
            decreases self.routes.len() - i,
        {
            let route = &self.routes[i];
            let mut j: usize = 0;
            while j < route.pins.len()
                invariant
                    i < self.routes@.len(),
                    route == self.routes@[i as int],
                    j <= route.pins@.len(),
                    v@ == all_pins(self.entries().subrange(0, i as int)) + route.pins@.subrange(
                        0,
                        j as int,
                    ),
                decreases route.pins.len() - j,
            {
                v.push(route.pins[j]);
                j += 1;
            }
            proof {
                let upto = self.entries().subrange(0, i + 1);
                assert(upto.drop_last() =~= self.entries().subrange(0, i as int));
            }
            i += 1;
        }
        assert(self.entries().subrange(0, i as int) =~= self.entries());
        v
    }
}

} // verus!
