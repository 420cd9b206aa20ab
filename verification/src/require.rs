//! Where an item of the registry is required: by which library, and at which
//! core versions or extensions.
use vstd::prelude::*;
use crate::names::{RegistryName, TypeName, FuncPointerName, CommandName};
use crate::text::str_eq;

verus! {

#[derive(Debug, Clone, Copy, PartialEq, Eq, Structural)]
pub enum LibraryName {
    Vk,
    Video,
}

/// A place that requires an item: a core version, or an extension by name.
pub enum RequireLocation {
    Core { major: u32, minor: u32 },
    Extension { name: String },
}

pub ghost enum LocationView {
    Core { major: u32, minor: u32 },
    Extension { name: Seq<char> },
}

impl View for RequireLocation {
    type V = LocationView;

    open spec fn view(&self) -> LocationView {
        match self {
            RequireLocation::Core { major, minor } => LocationView::Core { major: *major, minor: *minor },
            RequireLocation::Extension { name } => LocationView::Extension { name: name@ },
        }
    }
}

impl RequireLocation {
    pub fn copy(&self) -> (r: RequireLocation)
        ensures
            r@ == self@,
    {
        match self {
            RequireLocation::Core { major, minor } => RequireLocation::Core { major: *major, minor: *minor },
            RequireLocation::Extension { name } => RequireLocation::Extension { name: name.clone() },
        }
    }

    /// Whether two locations are the same place.
    pub fn same(&self, other: &RequireLocation) -> (r: bool)
        ensures
            r == (self@ == other@),
    {
        match (self, other) {
            (RequireLocation::Core { major: a, minor: b }, RequireLocation::Core { major: c, minor: d }) => *a == *c && *b == *d,
            (RequireLocation::Extension { name: a }, RequireLocation::Extension { name: b }) => str_eq(a.as_str(), b.as_str()),
            _ => false,
        }
    }
}

/// The places that require an item, in registry order.
pub struct RequiredBy {
    pub library: LibraryName,
    pub locations: Vec<RequireLocation>,
}

pub ghost struct RequiredByView {
    pub library: LibraryName,
    pub locations: Seq<LocationView>,
}

impl View for RequiredBy {
    type V = RequiredByView;

    open spec fn view(&self) -> RequiredByView {
        RequiredByView { library: self.library, locations: self.locations@.map_values(|l: RequireLocation| l@) }
    }
}

/// A copy of a list of locations.
pub fn copy_locations(locations: &Vec<RequireLocation>) -> (r: Vec<RequireLocation>)
    ensures
        r@.map_values(|l: RequireLocation| l@) == locations@.map_values(|l: RequireLocation| l@),
{
    let mut r: Vec<RequireLocation> = Vec::new();
    let mut i: usize = 0;
    while i < locations.len()
        invariant
            i <= locations.len(),
            r@.len() == i,
            forall|j: int| 0 <= j < i ==> #[trigger] r@[j]@ == locations@[j]@,
        decreases locations.len() - i,
    {
        r.push(locations[i].copy());
        i += 1;
    }
    assert(r@.map_values(|l: RequireLocation| l@) =~= locations@.map_values(|l: RequireLocation| l@));
    r
}

impl RequiredBy {
    pub fn copy(&self) -> (r: RequiredBy)
        ensures
            r@ == self@,
    {
        RequiredBy { library: self.library, locations: copy_locations(&self.locations) }
    }
}

/// The first value stored under `key`, if any.
pub open spec fn lookup<K: View<V = Seq<char>>, V>(entries: Seq<(K, V)>, key: Seq<char>) -> Option<V>
    decreases entries.len(),
{
    if entries.len() == 0 {
        None
    } else if entries[0].0@ == key {
        Some(entries[0].1)
    } else {
        lookup(entries.drop_first(), key)
    }
}

/// The first index at which `key` is stored, if any.
pub open spec fn index_of_key<K: View<V = Seq<char>>, V>(entries: Seq<(K, V)>, key: Seq<char>) -> Option<int>
    decreases entries.len(),
{
    if entries.len() == 0 {
        None
    } else if entries[0].0@ == key {
        Some(0)
    } else {
        match index_of_key(entries.drop_first(), key) {
            Some(i) => Some(i + 1),
            None => None,
        }
    }
}

pub proof fn lemma_index_of_key<K: View<V = Seq<char>>, V>(entries: Seq<(K, V)>, key: Seq<char>)
    ensures
        index_of_key(entries, key) matches Some(i) ==> {
            &&& 0 <= i < entries.len()
            &&& entries[i].0@ == key
            &&& forall|j: int| 0 <= j < i ==> (#[trigger] entries[j]).0@ != key
            &&& lookup(entries, key) == Some(entries[i].1)
        },
        index_of_key(entries, key) is None ==> {
            &&& forall|j: int| 0 <= j < entries.len() ==> (#[trigger] entries[j]).0@ != key
            &&& lookup(entries, key) is None
        },
    decreases entries.len(),
{
    if entries.len() > 0 && entries[0].0@ != key {
        let rest = entries.drop_first();
        lemma_index_of_key(rest, key);
        match index_of_key(rest, key) {
            Some(i) => {
                assert(entries[i + 1] == rest[i]);
                assert forall|j: int| 0 <= j < i + 1 implies (#[trigger] entries[j]).0@ != key by {
                    if j > 0 {
                        assert(entries[j] == rest[j - 1]);
                    }
                }
            },
            None => {
                assert forall|j: int| 0 <= j < entries.len() implies (#[trigger] entries[j]).0@ != key by {
                    if j > 0 {
                        assert(entries[j] == rest[j - 1]);
                    }
                }
            },
        }
    }
}

/// Finds the first index at which `key` is stored.
pub fn find_key<K: RegistryName, V>(entries: &Vec<(K, V)>, key: &str) -> (r: Option<usize>)
    ensures
        r matches Some(i) ==> index_of_key(entries@, key@) == Some(i as int),
        r is None ==> index_of_key(entries@, key@) is None,
{
    proof {
        lemma_index_of_key(entries@, key@);
    }
    let mut i: usize = 0;
    while i < entries.len()
        invariant
            i <= entries.len(),
            forall|j: int| 0 <= j < i ==> (#[trigger] entries@[j]).0@ != key@,
            index_of_key(entries@, key@) matches Some(k) ==> {
                &&& 0 <= k < entries@.len()
                &&& entries@[k].0@ == key@
                &&& forall|j: int| 0 <= j < k ==> (#[trigger] entries@[j]).0@ != key@
            },
            index_of_key(entries@, key@) is None ==> forall|j: int| 0 <= j < entries@.len() ==> (#[trigger] entries@[j]).0@ != key@,
        decreases entries.len() - i,
    {
        if str_eq(entries[i].0.original(), key) {
            return Some(i);
        }
        i += 1;
    }
    None
}

/// What the registry requires of each type, function pointer type and command.
pub struct RequireMap {
    pub ty: Vec<(TypeName, RequiredBy)>,
    pub func_pointer: Vec<(FuncPointerName, RequiredBy)>,
    pub command: Vec<(CommandName, RequiredBy)>,
}

} // verus!
