//! Where generated code goes: destinations, the module paths they stand for, and the
//! documentation that links to them.
use vstd::prelude::*;
use crate::generator::{check_escape_ident, escape_ident, escape_ident_ok, escape_ident_spec, refpage_doc, refpage_doc_spec};
use crate::ident::{format_ident, format_ident_ok, check_format_ident, snake_case, to_snek_case, syn_ident, ident_ok};
use crate::require::{LibraryName, LocationView, RequireLocation, RequiredBy, RequiredByView, copy_locations};
use crate::text::{ascii_lowercase_spec, decimal, has_prefix, join, join_strings, push_str, split_once, strip_prefix, to_ascii_lowercase, u32_to_string};

verus! {

/// All the places that require an item, in one library.
pub struct Destination {
    pub library: LibraryName,
    pub locations: Vec<RequireLocation>,
    pub reexport: bool,
}

pub ghost struct DestinationView {
    pub library: LibraryName,
    pub locations: Seq<LocationView>,
    pub reexport: bool,
}

impl View for Destination {
    type V = DestinationView;

    open spec fn view(&self) -> DestinationView {
        DestinationView {
            library: self.library,
            locations: self.locations@.map_values(|l: RequireLocation| l@),
            reexport: self.reexport,
        }
    }
}

/// One place that requires an item.
pub struct SingleDestination {
    pub library: LibraryName,
    pub location: RequireLocation,
    pub reexport: bool,
}

pub ghost struct SingleDestinationView {
    pub library: LibraryName,
    pub location: LocationView,
    pub reexport: bool,
}

impl View for SingleDestination {
    type V = SingleDestinationView;

    open spec fn view(&self) -> SingleDestinationView {
        SingleDestinationView { library: self.library, location: self.location@, reexport: self.reexport }
    }
}

impl SingleDestination {
    pub fn copy(&self) -> (r: SingleDestination)
        ensures
            r@ == self@,
    {
        SingleDestination { library: self.library, location: self.location.copy(), reexport: self.reexport }
    }

    /// Whether two destinations are the same.
    pub fn same(&self, other: &SingleDestination) -> (r: bool)
        ensures
            r == (self@ == other@),
    {
        self.library == other.library && self.reexport == other.reexport && self.location.same(&other.location)
    }
}

/// The destination of each place of a destination, in order.
pub open spec fn single_dests_spec(d: DestinationView) -> Seq<SingleDestinationView> {
    d.locations.map_values(|l: LocationView| SingleDestinationView { library: d.library, location: l, reexport: d.reexport })
}

impl Destination {
    /// The destination of an item, re-exported by default.
    pub fn new(required_by: RequiredBy) -> (r: Destination)
        ensures
            r@ == (DestinationView { library: required_by@.library, locations: required_by@.locations, reexport: true }),
    {
        Destination { library: required_by.library, locations: required_by.locations, reexport: true }
    }

    pub fn copy(&self) -> (r: Destination)
        ensures
            r@ == self@,
    {
        Destination { library: self.library, locations: copy_locations(&self.locations), reexport: self.reexport }
    }

    /// The destination of each place, with this destination's library and re-export flag.
    pub fn single_dests(&self) -> (r: Vec<SingleDestination>)
        ensures
            r@.map_values(|s: SingleDestination| s@) == single_dests_spec(self@),
    {
        let mut r: Vec<SingleDestination> = Vec::new();
        let mut i: usize = 0;
        while i < self.locations.len()
            invariant
                i <= self.locations.len(),
                r@.len() == i,
                forall|j: int| 0 <= j < i ==> (#[trigger] r@[j])@ == (SingleDestinationView {
                    library: self.library,
                    location: self.locations@[j]@,
                    reexport: self.reexport,
                }),
            decreases self.locations.len() - i,
        {
            r.push(SingleDestination { library: self.library, location: self.locations[i].copy(), reexport: self.reexport });
            i += 1;
        }
        assert(r@.map_values(|s: SingleDestination| s@) =~= single_dests_spec(self@));
        r
    }

    /// The first place, taken as the one that defines the item.
    pub fn guess_primary(&self) -> (r: SingleDestination)
        requires
            self.locations@.len() > 0,
        ensures
            r@ == (SingleDestinationView { library: self.library, location: self@.locations[0], reexport: self.reexport }),
    {
        SingleDestination { library: self.library, location: self.locations[0].copy(), reexport: self.reexport }
    }
}

/// One module of the path of a destination, with its documentation.
pub struct DestinationPathComponent {
    pub module_name: String,
    pub doc_comment: String,
}

pub ghost struct ComponentView {
    pub module_name: Seq<char>,
    pub doc_comment: Seq<char>,
}

impl View for DestinationPathComponent {
    type V = ComponentView;

    open spec fn view(&self) -> ComponentView {
        ComponentView { module_name: self.module_name@, doc_comment: self.doc_comment@ }
    }
}

/// The name of an extension after `VK_`.
pub open spec fn vulkan_ext(name: Seq<char>) -> Seq<char> {
    name.subrange("VK_"@.len() as int, name.len() as int)
}

/// The position of the first `_` in a string.
pub open spec fn first_underscore(s: Seq<char>) -> int {
    choose|i: int| 0 <= i < s.len() && s[i] == '_' && forall|j: int| 0 <= j < i ==> s[j] != '_'
}

pub open spec fn has_underscore(s: Seq<char>) -> bool {
    exists|i: int| 0 <= i < s.len() && s[i] == '_'
}

/// The vendor tag of an extension name after `VK_`: what comes before its first `_`.
pub open spec fn ext_tag(e: Seq<char>) -> Seq<char> {
    e.subrange(0, first_underscore(e))
}

/// The rest of an extension name after its vendor tag and `_`.
pub open spec fn ext_name(e: Seq<char>) -> Seq<char> {
    e.subrange(first_underscore(e) + 1, e.len() as int)
}

/// The name of a video item after `vulkan_video_`.
pub open spec fn video_ext(name: Seq<char>) -> Seq<char> {
    name.subrange("vulkan_video_"@.len() as int, name.len() as int)
}

/// The inputs on which `path_components` does not panic: an extension of the Vulkan
/// library is named `VK_<tag>_<name>` with identifiers to make of both, one of the video
/// library `vulkan_video_<ident>`.
pub open spec fn path_ok(d: SingleDestinationView) -> bool {
    match d.location {
        LocationView::Core { .. } => true,
        LocationView::Extension { name } => match d.library {
            LibraryName::Vk => {
                &&& has_prefix(name, "VK_"@)
                &&& has_underscore(vulkan_ext(name))
                &&& format_ident_ok(ascii_lowercase_spec(ext_tag(vulkan_ext(name))))
                &&& escape_ident_ok(snake_case(ext_name(vulkan_ext(name))))
            },
            LibraryName::Video => has_prefix(name, "vulkan_video_"@) && format_ident_ok(video_ext(name)),
        },
    }
}

/// `major` and `minor` as written in a version: `<major><sep><minor>`.
pub open spec fn version_text(major: u32, minor: u32, sep: Seq<char>) -> Seq<char> {
    decimal(major as nat) + sep + decimal(minor as nat)
}

/// The modules, outermost first, in which the code of a destination stands.
pub open spec fn path_components_spec(d: SingleDestinationView) -> Seq<ComponentView> {
    match d.location {
        LocationView::Core { major, minor } => seq![ComponentView {
            module_name: "vk"@ + version_text(major, minor, "_"@),
            doc_comment: refpage_doc_spec("VK_VERSION_"@ + version_text(major, minor, "_"@), "Vulkan version "@ + version_text(major, minor, "."@)),
        }],
        LocationView::Extension { name } => match d.library {
            LibraryName::Vk => {
                let e = vulkan_ext(name);
                seq![
                    ComponentView {
                        module_name: ascii_lowercase_spec(ext_tag(e)),
                        doc_comment: "Extensions tagged "@ + ext_tag(e),
                    },
                    ComponentView {
                        module_name: escape_ident_spec(snake_case(ext_name(e))),
                        doc_comment: refpage_doc_spec(name, "Extension `"@ + name + "`"@),
                    },
                ]
            },
            LibraryName::Video => seq![
                ComponentView { module_name: "video"@, doc_comment: "Vulkan Video"@ },
                ComponentView { module_name: video_ext(name), doc_comment: "Items provided by `"@ + name + "`"@ },
            ],
        },
    }
}

fn version(major: u32, minor: u32, sep: &str) -> (r: String)
    ensures
        r@ == version_text(major, minor, sep@),
{
    let mut r = u32_to_string(major);
    push_str(&mut r, sep);
    let m = u32_to_string(minor);
    push_str(&mut r, m.as_str());
    r
}

fn concat2(a: &str, b: &str) -> (r: String)
    ensures
        r@ == a@ + b@,
{
    let mut r = a.to_owned();
    push_str(&mut r, b);
    r
}

fn concat3(a: &str, b: &str, c: &str) -> (r: String)
    ensures
        r@ == a@ + b@ + c@,
{
    let mut r = a.to_owned();
    push_str(&mut r, b);
    push_str(&mut r, c);
    r
}

impl SingleDestination {
    pub fn path_components(&self) -> (r: Vec<DestinationPathComponent>)
        requires
            path_ok(self@),
        ensures
            r@.map_values(|c: DestinationPathComponent| c@) == path_components_spec(self@),
    {
        let r = match &self.location {
            RequireLocation::Core { major, minor } => {
                let under = version(*major, *minor, "_");
                let dot = version(*major, *minor, ".");
                let module_name = concat2("vk", under.as_str());
                let target = concat2("VK_VERSION_", under.as_str());
                let description = concat2("Vulkan version ", dot.as_str());
                let doc_comment = refpage_doc(target.as_str(), description.as_str());
                vec![DestinationPathComponent { module_name, doc_comment }]
            },
            RequireLocation::Extension { name } => match self.library {
                LibraryName::Vk => {
                    let vulkan_ext = strip_prefix(name.as_str(), "VK_").unwrap();
                    let (ext_tag, ext_name) = split_once(vulkan_ext, '_').unwrap();
                    proof {
                        let e = vulkan_ext@;
                        let i = choose|i: int|
                            0 <= i < e.len() && e[i] == '_' && (forall|j: int| 0 <= j < i ==> e[j] != '_') && ext_tag@ == e.subrange(0, i)
                                && ext_name@ == e.subrange(i + 1, e.len() as int);
                        let k = first_underscore(e);
                        assert(0 <= k < e.len() && e[k] == '_' && forall|j: int| 0 <= j < k ==> e[j] != '_');
                        assert(i == k) by {
                            if i < k {
                                assert(e[i] != '_');
                            } else if k < i {
                                assert(e[k] != '_');
                            }
                        }
                    }
                    let tag_lower = to_ascii_lowercase(ext_tag);
                    let first = DestinationPathComponent {
                        module_name: format_ident(tag_lower.as_str()),
                        doc_comment: concat2("Extensions tagged ", ext_tag),
                    };
                    let snake = to_snek_case(ext_name);
                    let description = concat3("Extension `", name.as_str(), "`");
                    let second = DestinationPathComponent {
                        module_name: escape_ident(snake.as_str()),
                        doc_comment: refpage_doc(name.as_str(), description.as_str()),
                    };
                    vec![first, second]
                },
                LibraryName::Video => {
                    let video_ext = strip_prefix(name.as_str(), "vulkan_video_").unwrap();
                    let first = DestinationPathComponent {
                        module_name: "video".to_owned(),
                        doc_comment: "Vulkan Video".to_owned(),
                    };
                    let second = DestinationPathComponent {
                        module_name: format_ident(video_ext),
                        doc_comment: concat3("Items provided by `", name.as_str(), "`"),
                    };
                    vec![first, second]
                },
            },
        };
        assert(r@.map_values(|c: DestinationPathComponent| c@) =~= path_components_spec(self@));
        r
    }
}

} // verus!

verus! {

/// The module path of a destination, `::` between its modules.
pub open spec fn dest_module_path(d: SingleDestinationView) -> Seq<char> {
    join(path_components_spec(d).map_values(|c: ComponentView| c.module_name), "::"@)
}

/// The documentation line that says which module provides an item, with a link to it.
pub open spec fn doc_link_spec(d: SingleDestinationView) -> Seq<char> {
    "Provided by [`"@ + dest_module_path(d) + "`](crate::"@ + dest_module_path(d) + ")"@
}

impl SingleDestination {
    pub fn doc_link(&self) -> (r: String)
        requires
            path_ok(self@),
        ensures
            r@ == doc_link_spec(self@),
    {
        let components = self.path_components();
        let mut names: Vec<String> = Vec::new();
        let mut i: usize = 0;
        while i < components.len()
            invariant
                i <= components.len(),
                names@.len() == i,
                forall|j: int| 0 <= j < i ==> (#[trigger] names@[j])@ == components@[j].module_name@,
            decreases components.len() - i,
        {
            names.push(components[i].module_name.clone());
            i += 1;
        }
        assert(names@.map_values(|s: String| s@) =~= components@.map_values(|c: DestinationPathComponent| c@).map_values(
            |c: ComponentView| c.module_name,
        ));
        let path = join_strings(&names, "::");
        let mut r = concat3("Provided by [`", path.as_str(), "`](crate::");
        push_str(&mut r, path.as_str());
        push_str(&mut r, ")");
        r
    }

    /// The documentation link of a destination, where its module path can be made
    /// (`None` where `doc_link` would panic).
    pub fn try_doc_link(&self) -> (r: Option<String>)
        ensures
            match r {
                Some(s) => path_ok(self@) && s@ == doc_link_spec(self@),
                None => !path_ok(self@),
            },
    {
        if self.check_path() {
            Some(self.doc_link())
        } else {
            None
        }
    }

    /// Whether the module path of this destination can be made.
    pub fn check_path(&self) -> (r: bool)
        ensures
            r == path_ok(self@),
    {
        match &self.location {
            RequireLocation::Core { .. } => true,
            RequireLocation::Extension { name } => match self.library {
                LibraryName::Vk => match strip_prefix(name.as_str(), "VK_") {
                    None => false,
                    Some(vulkan_ext) => match split_once(vulkan_ext, '_') {
                        None => {
                            assert(!has_underscore(vulkan_ext@));
                            false
                        },
                        Some((ext_tag, ext_name)) => {
                            proof {
                                let e = vulkan_ext@;
                                let i = choose|i: int|
                                    0 <= i < e.len() && e[i] == '_' && (forall|j: int| 0 <= j < i ==> e[j] != '_') && ext_tag@ == e.subrange(0, i)
                                        && ext_name@ == e.subrange(i + 1, e.len() as int);
                                let k = first_underscore(e);
                                assert(0 <= k < e.len() && e[k] == '_' && forall|j: int| 0 <= j < k ==> e[j] != '_');
                                assert(i == k) by {
                                    if i < k {
                                        assert(e[i] != '_');
                                    } else if k < i {
                                        assert(e[k] != '_');
                                    }
                                }
                            }
                            let tag_lower = to_ascii_lowercase(ext_tag);
                            let snake = to_snek_case(ext_name);
                            check_format_ident(tag_lower.as_str()) && check_escape_ident(snake.as_str())
                        },
                    },
                },
                LibraryName::Video => match strip_prefix(name.as_str(), "vulkan_video_") {
                    None => false,
                    Some(video_ext) => check_format_ident(video_ext),
                },
            },
        }
    }
}

} // verus!

verus! {

/// Generated code by destination, each destination once, in the order they came.
pub struct CodeMap {
    pub entries: Vec<(SingleDestination, String)>,
}

pub type CodeMapView = Seq<(SingleDestinationView, Seq<char>)>;

impl View for CodeMap {
    type V = CodeMapView;

    open spec fn view(&self) -> CodeMapView {
        self.entries@.map_values(|e: (SingleDestination, String)| (e.0@, e.1@))
    }
}

/// The first position of a destination in a code map.
pub open spec fn dest_index(m: CodeMapView, d: SingleDestinationView) -> Option<int>
    decreases m.len(),
{
    if m.len() == 0 {
        None
    } else if m[0].0 == d {
        Some(0)
    } else {
        match dest_index(m.drop_first(), d) {
            Some(i) => Some(i + 1),
            None => None,
        }
    }
}

pub proof fn lemma_dest_index(m: CodeMapView, d: SingleDestinationView)
    ensures
        dest_index(m, d) matches Some(i) ==> 0 <= i < m.len() && m[i].0 == d && forall|j: int| 0 <= j < i ==> (#[trigger] m[j]).0 != d,
        dest_index(m, d) is None ==> forall|j: int| 0 <= j < m.len() ==> (#[trigger] m[j]).0 != d,
    decreases m.len(),
{
    if m.len() > 0 && m[0].0 != d {
        let rest = m.drop_first();
        lemma_dest_index(rest, d);
        match dest_index(rest, d) {
            Some(i) => {
                assert(m[i + 1] == rest[i]);
                assert forall|j: int| 0 <= j < i + 1 implies (#[trigger] m[j]).0 != d by {
                    if j > 0 {
                        assert(m[j] == rest[j - 1]);
                    }
                }
            },
            None => {
                assert forall|j: int| 0 <= j < m.len() implies (#[trigger] m[j]).0 != d by {
                    if j > 0 {
                        assert(m[j] == rest[j - 1]);
                    }
                }
            },
        }
    }
}

/// Code added at a destination: after the code already there, or as a new last entry.
pub open spec fn insert_code(m: CodeMapView, d: SingleDestinationView, t: Seq<char>) -> CodeMapView {
    match dest_index(m, d) {
        Some(i) => m.update(i, (d, m[i].1 + " "@ + t)),
        None => m.push((d, t)),
    }
}

/// A code map extended by the entries of another, in order.
pub open spec fn extend_spec(m: CodeMapView, others: CodeMapView) -> CodeMapView
    decreases others.len(),
{
    if others.len() == 0 {
        m
    } else {
        insert_code(extend_spec(m, others.drop_last()), others.last().0, others.last().1)
    }
}

/// Each destination stands in a code map at most once.
pub open spec fn dests_unique(m: CodeMapView) -> bool {
    forall|i: int, j: int| 0 <= i < j < m.len() ==> m[i].0 != m[j].0
}

impl CodeMap {
    /// The empty code map.
    pub fn empty() -> (r: CodeMap)
        ensures
            r@ == Seq::<(SingleDestinationView, Seq<char>)>::empty(),
    {
        CodeMap { entries: Vec::new() }
    }

    /// A code map with one destination.
    pub fn new(dest: SingleDestination, tokens: String) -> (r: CodeMap)
        ensures
            r@ == seq![(dest@, tokens@)],
    {
        let mut entries: Vec<(SingleDestination, String)> = Vec::new();
        entries.push((dest, tokens));
        let r = CodeMap { entries };
        assert(r@ =~= seq![(dest@, tokens@)]);
        r
    }

    /// A code map with the code at the guessed primary place of a destination.
    pub fn new_from_primary(dest: Destination, tokens: String) -> (r: CodeMap)
        requires
            dest@.locations.len() > 0,
        ensures
            r@ == seq![(SingleDestinationView { library: dest@.library, location: dest@.locations[0], reexport: dest@.reexport }, tokens@)],
    {
        CodeMap::new(dest.guess_primary(), tokens)
    }

    /// The entries of the map, each destination with its code, in the order they were
    /// added.
    pub fn iter(&self) -> (r: &[(SingleDestination, String)])
        ensures
            r@ == self.entries@,
    {
        self.entries.as_slice()
    }

    fn find(&self, dest: &SingleDestination) -> (r: Option<usize>)
        ensures
            match r {
                Some(i) => dest_index(self@, dest@) == Some(i as int),
                None => dest_index(self@, dest@) is None,
            },
    {
        proof {
            lemma_dest_index(self@, dest@);
        }
        let mut i: usize = 0;
        while i < self.entries.len()
            invariant
                i <= self.entries.len(),
                forall|j: int| 0 <= j < i ==> (#[trigger] self@[j]).0 != dest@,
                dest_index(self@, dest@) matches Some(k) ==> 0 <= k < self@.len() && self@[k].0 == dest@ && forall|j: int|
                    0 <= j < k ==> (#[trigger] self@[j]).0 != dest@,
                dest_index(self@, dest@) is None ==> forall|j: int| 0 <= j < self@.len() ==> (#[trigger] self@[j]).0 != dest@,
            decreases self.entries.len() - i,
        {
            assert(self@[i as int].0 == self.entries@[i as int].0@);
            if self.entries[i].0.same(dest) {
                return Some(i);
            }
            i += 1;
        }
        None
    }

    /// Adds code at a destination.
    pub fn insert(&mut self, dest: SingleDestination, tokens: String)
        ensures
            final(self)@ == insert_code(old(self)@, dest@, tokens@),
    {
        proof {
            lemma_dest_index(self@, dest@);
        }
        match self.find(&dest) {
            Some(i) => {
                let mut text = self.entries[i].1.clone();
                push_str(&mut text, " ");
                push_str(&mut text, tokens.as_str());
                let ghost before = self@;
                self.entries.set(i, (dest, text));
                assert(self@ =~= before.update(i as int, (dest@, before[i as int].1 + " "@ + tokens@)));
            },
            None => {
                let ghost before = self@;
                self.entries.push((dest, tokens));
                assert(self@ =~= before.push((dest@, tokens@)));
            },
        }
    }

    /// Adds the code of another map, destination by destination.
    pub fn extend(&mut self, other: CodeMap)
        ensures
            final(self)@ == extend_spec(old(self)@, other@),
    {
        let mut i: usize = 0;
        while i < other.entries.len()
            invariant
                i <= other.entries.len(),
                self@ == extend_spec(old(self)@, other@.take(i as int)),
            decreases other.entries.len() - i,
        {
            let dest = other.entries[i].0.copy();
            let tokens = other.entries[i].1.clone();
            assert(other@.take(i + 1).drop_last() =~= other@.take(i as int));
            assert(other@.take(i + 1).last() == other@[i as int]);
            self.insert(dest, tokens);
            i += 1;
        }
        assert(other@.take(other@.len() as int) =~= other@);
    }
}

/// Adding code keeps each destination once.
pub proof fn lemma_insert_keeps_unique(m: CodeMapView, d: SingleDestinationView, t: Seq<char>)
    requires
        dests_unique(m),
    ensures
        dests_unique(insert_code(m, d, t)),
{
    lemma_dest_index(m, d);
}

/// Extending a code map keeps each destination once.
pub proof fn lemma_extend_keeps_unique(m: CodeMapView, others: CodeMapView)
    requires
        dests_unique(m),
    ensures
        dests_unique(extend_spec(m, others)),
    decreases others.len(),
{
    if others.len() > 0 {
        lemma_extend_keeps_unique(m, others.drop_last());
        lemma_insert_keeps_unique(extend_spec(m, others.drop_last()), others.last().0, others.last().1);
    }
}

} // verus!

verus! {

/// Extending by a one-entry map adds that entry.
pub proof fn lemma_extend_one(m: CodeMapView, d: SingleDestinationView, t: Seq<char>)
    ensures
        extend_spec(m, seq![(d, t)]) == insert_code(m, d, t),
{
    let others = seq![(d, t)];
    assert(others.drop_last() =~= Seq::<(SingleDestinationView, Seq<char>)>::empty());
    assert(extend_spec(m, others.drop_last()) == m);
    assert(others.last() == (d, t));
}

/// Every destination of a map after adding code is one that was there or the one added.
pub proof fn lemma_insert_dests(m: CodeMapView, d: SingleDestinationView, t: Seq<char>)
    ensures
        forall|j: int| 0 <= j < insert_code(m, d, t).len() ==> (#[trigger] insert_code(m, d, t)[j]).0 == d || exists|i: int|
            0 <= i < m.len() && m[i].0 == insert_code(m, d, t)[j].0,
        insert_code(m, d, t).len() >= m.len(),
{
    lemma_dest_index(m, d);
    let r = insert_code(m, d, t);
    assert forall|j: int| 0 <= j < r.len() implies (#[trigger] r[j]).0 == d || exists|i: int| 0 <= i < m.len() && m[i].0 == r[j].0 by {
        if j < m.len() && r[j].0 != d {
            assert(m[j].0 == r[j].0);
        }
    }
}

} // verus!
