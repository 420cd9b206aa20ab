//! Laying generated code out as files: one source file per destination path, `mod.rs`
//! files that declare the modules, and `vk.rs`, which re-exports everything.
use vstd::prelude::*;
use indexmap::IndexSet;
use crate::ident::{str_literal, string_literal};
use crate::output::{CodeMap, CodeMapView, ComponentView, DestinationPathComponent, SingleDestination, SingleDestinationView, path_components_spec, path_ok};
use crate::require::LocationView;
use crate::text::{blank, is_blank, join, join_strings, push_str};
use crate::vfs::{FilesView, VirtualRustFs, find_entry, key_index, keys_of, lemma_key_index, lemma_key_index_push, write_spec};

verus! {

#[verifier::external_type_specification]
#[verifier::external_body]
#[verifier::reject_recursive_types(T)]
#[verifier::reject_recursive_types(S)]
pub struct ExIndexSet<T, S>(IndexSet<T, S>);

/// The strings that an `IndexSet` holds.
pub uninterp spec fn index_set_items(s: IndexSet<String>) -> Set<Seq<char>>;

/// Calls `IndexSet::new`: the set holds nothing.
#[verifier::external_body]
fn new_index_set() -> (r: IndexSet<String>)
    ensures
        index_set_items(r) == Set::<Seq<char>>::empty(),
{
    IndexSet::new()
}

/// The sort key of a module: the same for every module of one insertion.
fn same_sort_key(order: u8, _name: &String) -> (r: u8)
    ensures
        r == order,
{
    order
}

/// Calls `IndexSet::insert_sorted_by_key`, with one sort key for all items. Claimed: the
/// set then holds what it held and `name`. Where `name` goes in the order is left unsaid:
/// with equal keys the position comes from a binary search that may return any of them.
#[verifier::external_body]
fn insert_sorted(s: &mut IndexSet<String>, name: String, sort_order: u8)
    ensures
        index_set_items(*final(s)) == index_set_items(*old(s)).insert(name@),
{
    s.insert_sorted_by_key(name, |n| same_sort_key(sort_order, n));
}

/// Lists the items of an `IndexSet` in its order (`IndexSet::iter`). Claimed: each item
/// once, and all of them.
#[verifier::external_body]
fn index_set_list(s: &IndexSet<String>) -> (r: Vec<String>)
    ensures
        r@.map_values(|x: String| x@).no_duplicates(),
        r@.map_values(|x: String| x@).to_set() == index_set_items(*s),
{
    s.iter().cloned().collect()
}

/// What a source file gathers: the destination that made it, its documentation, the
/// code that is re-exported and the code that is not.
pub struct SourceFile {
    pub destination: SingleDestination,
    pub doc_comment: String,
    pub reexport_content: String,
    pub content: String,
}

pub ghost struct SourceView {
    pub destination: SingleDestinationView,
    pub doc_comment: Seq<char>,
    pub reexport_content: Seq<char>,
    pub content: Seq<char>,
}

impl View for SourceFile {
    type V = SourceView;

    open spec fn view(&self) -> SourceView {
        SourceView {
            destination: self.destination@,
            doc_comment: self.doc_comment@,
            reexport_content: self.reexport_content@,
            content: self.content@,
        }
    }
}

/// A `mod.rs` file: its documentation, if any, and the modules it declares.
pub struct ModFile {
    pub doc_comment: Option<String>,
    pub child_modules: IndexSet<String>,
}

pub ghost struct ModView {
    pub doc_comment: Option<Seq<char>>,
    pub child_modules: Set<Seq<char>>,
}

impl View for ModFile {
    type V = ModView;

    open spec fn view(&self) -> ModView {
        ModView {
            doc_comment: match self.doc_comment {
                Some(d) => Some(d@),
                None => None,
            },
            child_modules: index_set_items(self.child_modules),
        }
    }
}

pub type SourcesView = Seq<(Seq<char>, SourceView)>;

pub type ModsView = Seq<(Seq<char>, ModView)>;

pub open spec fn module_names(comps: Seq<ComponentView>) -> Seq<Seq<char>> {
    comps.map_values(|c: ComponentView| c.module_name)
}

/// The path of the source file of a destination: its modules, `/` between, and `.rs`.
pub open spec fn source_path(comps: Seq<ComponentView>) -> Seq<char> {
    join(module_names(comps), "/"@) + ".rs"@
}

/// The path of the `mod.rs` that declares the `i`-th module of a path.
pub open spec fn mod_path(comps: Seq<ComponentView>, i: int) -> Seq<char> {
    join(module_names(comps).take(i).push("mod.rs"@), "/"@)
}

/// The first line of the top `mod.rs`.
pub open spec fn mod_rs_head() -> Seq<char> {
    "#[doc = \" A re-export of all items\"] pub mod vk;"@
}

/// The last lines of `vk.rs`.
pub open spec fn vk_rs_tail() -> Seq<char> {
    "pub use crate::Handle; pub use crate::TaggedStructure; pub use crate::Extends; pub use crate::platform_types::*;"@
}

pub open spec fn source_keys(s: SourcesView) -> Seq<Seq<char>> {
    s.map_values(|e: (Seq<char>, SourceView)| e.0)
}

pub open spec fn mod_keys(s: ModsView) -> Seq<Seq<char>> {
    s.map_values(|e: (Seq<char>, ModView)| e.0)
}

/// Code added to the source file at `path`, made where missing: to the re-exported part
/// where the destination re-exports, to the other part otherwise.
pub open spec fn add_source(s: SourcesView, path: Seq<char>, d: SingleDestinationView, doc: Seq<char>, content: Seq<char>) -> SourcesView {
    let s1 = match key_index(source_keys(s), path) {
        Some(_) => s,
        None => s.push((path, SourceView { destination: d, doc_comment: doc, reexport_content: Seq::empty(), content: Seq::empty() })),
    };
    let i = key_index(source_keys(s1), path).unwrap();
    let f = s1[i].1;
    if d.reexport {
        s1.update(i, (path, SourceView { reexport_content: f.reexport_content + " "@ + content, ..f }))
    } else {
        s1.update(i, (path, SourceView { content: f.content + " "@ + content, ..f }))
    }
}

/// A module declared in the `mod.rs` at `path`, made where missing with `doc`.
pub open spec fn add_mod(s: ModsView, path: Seq<char>, doc: Option<Seq<char>>, child: Seq<char>) -> ModsView {
    let s1 = match key_index(mod_keys(s), path) {
        Some(_) => s,
        None => s.push((path, ModView { doc_comment: doc, child_modules: Set::empty() })),
    };
    let i = key_index(mod_keys(s1), path).unwrap();
    s1.update(i, (path, ModView { child_modules: s1[i].1.child_modules.insert(child), ..s1[i].1 }))
}

/// The `mod.rs` files after declaring the first `i` modules of a path, each in the file
/// of its parent, documented as the parent.
#[verifier::opaque]
pub open spec fn add_mods(s: ModsView, comps: Seq<ComponentView>, i: int) -> ModsView
    decreases i,
{
    if i <= 0 {
        s
    } else {
        add_mod(
            add_mods(s, comps, i - 1),
            mod_path(comps, i - 1),
            if i - 1 > 0 {
                Some(comps[i - 2].doc_comment)
            } else {
                None
            },
            comps[i - 1].module_name,
        )
    }
}

/// The files, source files and `mod.rs` files after the first `k` destinations.
#[verifier::opaque]
pub open spec fn collect(m: CodeMapView, k: int) -> (FilesView, SourcesView, ModsView)
    decreases k,
{
    if k <= 0 {
        (seq![("mod.rs"@, mod_rs_head())], Seq::empty(), Seq::empty())
    } else {
        let prev = collect(m, k - 1);
        let d = m[k - 1].0;
        let content = m[k - 1].1;
        let comps = path_components_spec(d);
        if comps.len() == 0 {
            (write_spec(prev.0, "mod.rs"@, content), prev.1, prev.2)
        } else {
            (
                prev.0,
                add_source(prev.1, source_path(comps), d, comps.last().doc_comment, content),
                add_mods(prev.2, comps, comps.len() as int),
            )
        }
    }
}

/// The line of `vk.rs` that re-exports a source file: from its module `reexport` where the
/// file has code that is not re-exported. Text that is nothing but blanks holds no tokens
/// and counts as no code.
pub open spec fn reexport_line(d: SingleDestinationView, content: Seq<char>) -> Seq<char> {
    "pub use super::"@ + join(module_names(path_components_spec(d)), "::"@) + (if !blank(content) {
        "::reexport"@
    } else {
        ""@
    }) + "::*;"@
}

/// The text of a source file: its documentation, its code, and its re-exported code, in
/// a module of its own where the file has both kinds of code (blank text counts as none).
pub open spec fn source_text(f: SourceView) -> Seq<char> {
    let reexport = if !blank(f.reexport_content) && !blank(f.content) {
        "pub(crate) mod reexport { "@ + f.reexport_content + " } pub use reexport::*;"@
    } else {
        f.reexport_content
    };
    "#![doc = "@ + str_literal(f.doc_comment) + "] "@ + f.content + " "@ + reexport
}

/// The files after writing the first `j` source files.
#[verifier::opaque]
pub open spec fn write_sources(files: FilesView, s: SourcesView, j: int) -> FilesView
    decreases j,
{
    if j <= 0 {
        files
    } else {
        let prev = write_sources(files, s, j - 1);
        let f = s[j - 1].1;
        let with_line = if !blank(f.reexport_content) {
            write_spec(prev, "vk.rs"@, reexport_line(f.destination, f.content))
        } else {
            prev
        };
        write_spec(with_line, s[j - 1].0, source_text(f))
    }
}

/// `pub mod <name>;` for each module.
pub open spec fn mod_decls_text(children: Seq<Seq<char>>) -> Seq<char>
    decreases children.len(),
{
    if children.len() == 0 {
        Seq::empty()
    } else {
        mod_decls_text(children.drop_last()) + " "@ + ("pub mod "@ + children.last() + ";"@)
    }
}

/// The text of a `mod.rs` file with its modules in the given order.
pub open spec fn mod_text(doc: Option<Seq<char>>, children: Seq<Seq<char>>) -> Seq<char> {
    (match doc {
        Some(d) => "#![doc = "@ + str_literal(d) + "]"@,
        None => Seq::empty(),
    }) + mod_decls_text(children)
}

/// The files after writing the first `j` `mod.rs` files, with their modules in the
/// orders given.
#[verifier::opaque]
pub open spec fn write_mods(files: FilesView, s: ModsView, orders: Seq<Seq<Seq<char>>>, j: int) -> FilesView
    decreases j,
{
    if j <= 0 {
        files
    } else {
        write_spec(write_mods(files, s, orders, j - 1), s[j - 1].0, mod_text(s[j - 1].1.doc_comment, orders[j - 1]))
    }
}

/// Each list gives the modules of its `mod.rs` file, each once.
pub open spec fn orders_fit(s: ModsView, orders: Seq<Seq<Seq<char>>>) -> bool {
    &&& orders.len() == s.len()
    &&& forall|j: int|
        0 <= j < s.len() ==> (#[trigger] orders[j]).no_duplicates() && orders[j].to_set() == s[j].1.child_modules
}

/// The files that a code map is laid out in, the modules of each `mod.rs` in the orders
/// given.
pub open spec fn layout(m: CodeMapView, orders: Seq<Seq<Seq<char>>>) -> FilesView {
    let c = collect(m, m.len() as int);
    write_spec(write_mods(write_sources(c.0, c.1, c.1.len() as int), c.2, orders, c.2.len() as int), "vk.rs"@, vk_rs_tail())
}

/// The `mod.rs` files that a code map's layout has.
pub open spec fn layout_mods(m: CodeMapView) -> ModsView {
    collect(m, m.len() as int).2
}

/// The code maps that can be laid out: every destination has a module path.
pub open spec fn layout_ok(m: CodeMapView) -> bool {
    forall|k: int| 0 <= k < m.len() ==> path_ok(#[trigger] m[k].0)
}

} // verus!

verus! {

pub open spec fn opt_view(s: Option<String>) -> Option<Seq<char>> {
    match s {
        Some(d) => Some(d@),
        None => None,
    }
}

pub open spec fn sources_view(s: Seq<(String, SourceFile)>) -> SourcesView {
    s.map_values(|e: (String, SourceFile)| (e.0@, e.1@))
}

pub open spec fn mods_view(s: Seq<(String, ModFile)>) -> ModsView {
    s.map_values(|e: (String, ModFile)| (e.0@, e.1@))
}

/// The module names of the first `n` components.
fn names_of(comps: &Vec<DestinationPathComponent>, n: usize) -> (r: Vec<String>)
    requires
        n <= comps@.len(),
    ensures
        r@.map_values(|s: String| s@) == module_names(comps@.map_values(|c: DestinationPathComponent| c@)).take(n as int),
{
    let ghost names = module_names(comps@.map_values(|c: DestinationPathComponent| c@));
    let mut r: Vec<String> = Vec::new();
    let mut i: usize = 0;
    while i < n
        invariant
            i <= n <= comps@.len(),
            names == module_names(comps@.map_values(|c: DestinationPathComponent| c@)),
            r@.map_values(|s: String| s@) == names.take(i as int),
        decreases n - i,
    {
        let ghost before = r@.map_values(|s: String| s@);
        r.push(comps[i].module_name.clone());
        assert(names[i as int] == comps@[i as int].module_name@);
        assert(r@.map_values(|s: String| s@) =~= before.push(comps@[i as int].module_name@));
        assert(names.take(i + 1) =~= names.take(i as int).push(names[i as int]));
        i += 1;
    }
    r
}

fn source_path_of(comps: &Vec<DestinationPathComponent>) -> (r: String)
    ensures
        r@ == source_path(comps@.map_values(|c: DestinationPathComponent| c@)),
{
    let names = names_of(comps, comps.len());
    assert(module_names(comps@.map_values(|c: DestinationPathComponent| c@)).take(comps@.len() as int) =~= module_names(
        comps@.map_values(|c: DestinationPathComponent| c@),
    ));
    let mut r = join_strings(&names, "/");
    push_str(&mut r, ".rs");
    r
}

fn mod_path_of(comps: &Vec<DestinationPathComponent>, i: usize) -> (r: String)
    requires
        i <= comps@.len(),
    ensures
        r@ == mod_path(comps@.map_values(|c: DestinationPathComponent| c@), i as int),
{
    let mut names = names_of(comps, i);
    let ghost before = names@.map_values(|s: String| s@);
    names.push("mod.rs".to_owned());
    assert(names@.map_values(|s: String| s@) =~= before.push("mod.rs"@));
    join_strings(&names, "/")
}

/// Adds code to the source file at `path`, making it where missing.
fn add_source_exec(sources: &mut Vec<(String, SourceFile)>, path: String, d: &SingleDestination, doc: &str, content: &str)
    ensures
        sources_view(final(sources)@) == add_source(sources_view(old(sources)@), path@, d@, doc@, content@),
{
    let ghost s0 = sources_view(sources@);
    assert(keys_of(sources@) =~= source_keys(s0));
    proof {
        lemma_key_index(source_keys(s0), path@);
    }
    let i = match find_entry(sources, path.as_str()) {
        Some(i) => i,
        None => {
            let f = SourceFile { destination: d.copy(), doc_comment: doc.to_owned(), reexport_content: String::new(), content: String::new() };
            sources.push((path.clone(), f));
            proof {
                let s1 = sources_view(sources@);
                assert(s1 =~= s0.push((path@, SourceView { destination: d@, doc_comment: doc@, reexport_content: Seq::empty(), content: Seq::empty() })));
                assert(source_keys(s1) =~= source_keys(s0).push(path@));
                lemma_key_index_push(source_keys(s0), path@);
            }
            sources.len() - 1
        },
    };
    let ghost s1 = sources_view(sources@);
    let destination = sources[i].1.destination.copy();
    let doc_comment = sources[i].1.doc_comment.clone();
    let mut reexport_content = sources[i].1.reexport_content.clone();
    let mut own_content = sources[i].1.content.clone();
    if d.reexport {
        push_str(&mut reexport_content, " ");
        push_str(&mut reexport_content, content);
    } else {
        push_str(&mut own_content, " ");
        push_str(&mut own_content, content);
    }
    sources.set(i, (path, SourceFile { destination, doc_comment, reexport_content, content: own_content }));
    assert(sources_view(sources@) =~= add_source(s0, path@, d@, doc@, content@));
}

/// Declares a module in the `mod.rs` at `path`, making it where missing.
fn add_mod_exec(mods: &mut Vec<(String, ModFile)>, path: String, doc: Option<String>, child: String, sort_order: u8)
    ensures
        mods_view(final(mods)@) == add_mod(mods_view(old(mods)@), path@, opt_view(doc), child@),
{
    let ghost s0 = mods_view(mods@);
    let ghost docv = opt_view(doc);
    assert(keys_of(mods@) =~= mod_keys(s0));
    proof {
        lemma_key_index(mod_keys(s0), path@);
    }
    let i = match find_entry(mods, path.as_str()) {
        Some(i) => i,
        None => {
            let f = ModFile { doc_comment: doc, child_modules: new_index_set() };
            mods.push((path.clone(), f));
            proof {
                let s1 = mods_view(mods@);
                assert(s1 =~= s0.push((path@, ModView { doc_comment: docv, child_modules: Set::empty() })));
                assert(mod_keys(s1) =~= mod_keys(s0).push(path@));
                lemma_key_index_push(mod_keys(s0), path@);
            }
            mods.len() - 1
        },
    };
    let ghost s1 = mods_view(mods@);
    let ghost old_entry = s1[i as int];
    let (key, mut file) = mods.remove(i);
    insert_sorted(&mut file.child_modules, child, sort_order);
    mods.insert(i, (key, file));
    assert(mods_view(mods@) =~= add_mod(s0, path@, docv, child@));
}

} // verus!

verus! {

proof fn lemma_add_mods_step(s: ModsView, comps: Seq<ComponentView>, i: int)
    requires
        0 < i,
    ensures
        add_mods(s, comps, i) == add_mod(
            add_mods(s, comps, i - 1),
            mod_path(comps, i - 1),
            if i - 1 > 0 {
                Some(comps[i - 2].doc_comment)
            } else {
                None
            },
            comps[i - 1].module_name,
        ),
{
    reveal_with_fuel(add_mods, 1);
}

proof fn lemma_collect_step(m: CodeMapView, k: int)
    requires
        0 < k,
    ensures
        collect(m, k) == ({
            let prev = collect(m, k - 1);
            let d = m[k - 1].0;
            let content = m[k - 1].1;
            let comps = path_components_spec(d);
            if comps.len() == 0 {
                (write_spec(prev.0, "mod.rs"@, content), prev.1, prev.2)
            } else {
                (
                    prev.0,
                    add_source(prev.1, source_path(comps), d, comps.last().doc_comment, content),
                    add_mods(prev.2, comps, comps.len() as int),
                )
            }
        }),
{
    reveal_with_fuel(collect, 1);
}

proof fn lemma_write_sources_step(files: FilesView, s: SourcesView, j: int)
    requires
        0 < j,
    ensures
        write_sources(files, s, j) == ({
            let prev = write_sources(files, s, j - 1);
            let f = s[j - 1].1;
            let with_line = if !blank(f.reexport_content) {
                write_spec(prev, "vk.rs"@, reexport_line(f.destination, f.content))
            } else {
                prev
            };
            write_spec(with_line, s[j - 1].0, source_text(f))
        }),
{
    reveal_with_fuel(write_sources, 1);
}

proof fn lemma_write_mods_step(files: FilesView, s: ModsView, orders: Seq<Seq<Seq<char>>>, j: int)
    requires
        0 < j,
    ensures
        write_mods(files, s, orders, j) == write_spec(write_mods(files, s, orders, j - 1), s[j - 1].0, mod_text(s[j - 1].1.doc_comment, orders[j - 1])),
{
    reveal_with_fuel(write_mods, 1);
}

/// Declares each module of a path in the `mod.rs` of its parent.
fn add_mods_exec(mods: &mut Vec<(String, ModFile)>, comps: &Vec<DestinationPathComponent>, sort_order: u8)
    ensures
        mods_view(final(mods)@) == add_mods(
            mods_view(old(mods)@),
            comps@.map_values(|c: DestinationPathComponent| c@),
            comps@.len() as int,
        ),
{
    let ghost cv = comps@.map_values(|c: DestinationPathComponent| c@);
    let ghost start = mods_view(mods@);
    proof {
        reveal_with_fuel(add_mods, 1);
    }
    let mut i: usize = 0;
    while i < comps.len()
        invariant
            i <= comps@.len(),
            cv == comps@.map_values(|c: DestinationPathComponent| c@),
            mods_view(mods@) == add_mods(start, cv, i as int),
        decreases comps.len() - i,
    {
        let path = mod_path_of(comps, i);
        let doc = if i > 0 {
            Some(comps[i - 1].doc_comment.clone())
        } else {
            None
        };
        add_mod_exec(mods, path, doc, comps[i].module_name.clone(), sort_order);
        proof {
            lemma_add_mods_step(start, cv, i + 1);
        }
        i += 1;
    }
}

/// `pub mod <name>;` for each module.
fn mod_decls(children: &Vec<String>) -> (r: String)
    ensures
        r@ == mod_decls_text(children@.map_values(|x: String| x@)),
{
    let ghost cv = children@.map_values(|x: String| x@);
    let mut r = String::new();
    let mut i: usize = 0;
    while i < children.len()
        invariant
            i <= children@.len(),
            cv == children@.map_values(|x: String| x@),
            r@ == mod_decls_text(cv.take(i as int)),
        decreases children.len() - i,
    {
        push_str(&mut r, " ");
        push_str(&mut r, "pub mod ");
        push_str(&mut r, children[i].as_str());
        push_str(&mut r, ";");
        assert(cv.take(i + 1).drop_last() =~= cv.take(i as int));
        assert(cv.take(i + 1).last() == children@[i as int]@);
        assert(r@ =~= mod_decls_text(cv.take(i + 1)));
        i += 1;
    }
    assert(cv.take(cv.len() as int) =~= cv);
    r
}

/// Each source file keeps the destination that made it, or is new with `d`.
proof fn lemma_add_source_dests(s: SourcesView, path: Seq<char>, d: SingleDestinationView, doc: Seq<char>, content: Seq<char>)
    ensures
        forall|j: int|
            0 <= j < add_source(s, path, d, doc, content).len() ==> (#[trigger] add_source(s, path, d, doc, content)[j]).1.destination == d || (j
                < s.len() && add_source(s, path, d, doc, content)[j].1.destination == s[j].1.destination),
{
    lemma_key_index(source_keys(s), path);
    let s1 = match key_index(source_keys(s), path) {
        Some(_) => s,
        None => s.push((path, SourceView { destination: d, doc_comment: doc, reexport_content: Seq::empty(), content: Seq::empty() })),
    };
    if key_index(source_keys(s), path) is None {
        assert(source_keys(s1) =~= source_keys(s).push(path));
        crate::vfs::lemma_key_index_push(source_keys(s), path);
    }
    lemma_key_index(source_keys(s1), path);
}

/// Every source file of a layout has a destination with a module path.
proof fn lemma_collect_sources_ok(m: CodeMapView, k: int)
    requires
        layout_ok(m),
        0 <= k <= m.len(),
    ensures
        forall|j: int| 0 <= j < collect(m, k).1.len() ==> path_ok((#[trigger] collect(m, k).1[j]).1.destination),
    decreases k,
{
    if k == 0 {
        reveal_with_fuel(collect, 1);
    } else {
        lemma_collect_sources_ok(m, k - 1);
        lemma_collect_step(m, k);
        let prev = collect(m, k - 1);
        let d = m[k - 1].0;
        let comps = path_components_spec(d);
        assert(path_ok(m[k - 1].0));
        if comps.len() != 0 {
            lemma_add_source_dests(prev.1, source_path(comps), d, comps.last().doc_comment, m[k - 1].1);
        }
    }
}

impl CodeMap {
    /// The files, source files and `mod.rs` files that the destinations make.
    fn collect_files(&self) -> (r: (VirtualRustFs, Vec<(String, SourceFile)>, Vec<(String, ModFile)>))
        requires
            layout_ok(self@),
        ensures
            collect(self@, self@.len() as int) == (r.0@, sources_view(r.1@), mods_view(r.2@)),
    {
        let mut vfs = VirtualRustFs::new();
        vfs.write("mod.rs", "#[doc = \" A re-export of all items\"] pub mod vk;");
        let mut sources: Vec<(String, SourceFile)> = Vec::new();
        let mut mods: Vec<(String, ModFile)> = Vec::new();
        let ghost m = self@;
        proof {
            reveal_with_fuel(collect, 1);
            assert(sources_view(sources@) =~= Seq::<(Seq<char>, SourceView)>::empty());
            assert(mods_view(mods@) =~= Seq::<(Seq<char>, ModView)>::empty());
            assert(vfs@ =~= seq![("mod.rs"@, mod_rs_head())]);
        }
        let mut k: usize = 0;
        while k < self.entries.len()
            invariant
                k <= self.entries@.len(),
                m == self@,
                layout_ok(m),
                collect(m, k as int) == (vfs@, sources_view(sources@), mods_view(mods@)),
            decreases self.entries.len() - k,
        {
            let destination = &self.entries[k].0;
            let content = &self.entries[k].1;
            assert(m[k as int] == (destination@, content@));
            assert(path_ok(m[k as int].0));
            let components = destination.path_components();
            proof {
                lemma_collect_step(m, k + 1);
            }
            if components.len() == 0 {
                vfs.write("mod.rs", content.as_str());
            } else {
                let last = components.len() - 1;
                let path = source_path_of(&components);
                add_source_exec(&mut sources, path, destination, components[last].doc_comment.as_str(), content.as_str());
                let sort_order: u8 = match &destination.location {
                    crate::require::RequireLocation::Core { .. } => 1,
                    crate::require::RequireLocation::Extension { .. } => 2,
                };
                add_mods_exec(&mut mods, &components, sort_order);
            }
            k += 1;
        }
        (vfs, sources, mods)
    }
}

/// The line of `vk.rs` that re-exports a source file: from its module `reexport` where the
/// file has code that is not re-exported. Text that is nothing but blanks holds no tokens
/// and counts as no code.
fn reexport_line_exec(d: &SingleDestination, has_content: bool) -> (r: String)
    requires
        path_ok(d@),
    ensures
        forall|c: Seq<char>| !blank(c) == has_content ==> r@ == reexport_line(d@, c),
{
    let components = d.path_components();
    let mut names: Vec<String> = Vec::new();
    let mut i: usize = 0;
    while i < components.len()
        invariant
            i <= components@.len(),
            names@.map_values(|s: String| s@) == module_names(components@.map_values(|x: DestinationPathComponent| x@)).take(i as int),
        decreases components.len() - i,
    {
        let ghost before = names@.map_values(|s: String| s@);
        names.push(components[i].module_name.clone());
        assert(names@.map_values(|s: String| s@) =~= before.push(components@[i as int].module_name@));
        assert(module_names(components@.map_values(|x: DestinationPathComponent| x@)).take(i + 1) =~= module_names(
            components@.map_values(|x: DestinationPathComponent| x@),
        ).take(i as int).push(components@[i as int].module_name@));
        i += 1;
    }
    assert(module_names(components@.map_values(|x: DestinationPathComponent| x@)).take(components@.len() as int) =~= module_names(
        components@.map_values(|x: DestinationPathComponent| x@),
    ));
    let mut line = "pub use super::".to_owned();
    let joined = join_strings(&names, "::");
    push_str(&mut line, joined.as_str());
    if has_content {
        push_str(&mut line, "::reexport");
    } else {
        push_str(&mut line, "");
    }
    push_str(&mut line, "::*;");
    line
}

/// Writes the source files, with their lines in `vk.rs`.
fn write_source_files(vfs: &mut VirtualRustFs, sources: &Vec<(String, SourceFile)>)
    requires
        forall|j: int| 0 <= j < sources@.len() ==> path_ok((#[trigger] sources_view(sources@)[j]).1.destination),
    ensures
        final(vfs)@ == write_sources(old(vfs)@, sources_view(sources@), sources@.len() as int),
{
    let ghost sv = sources_view(sources@);
    let ghost start = vfs@;
    proof {
        reveal_with_fuel(write_sources, 1);
    }
    let mut j: usize = 0;
    while j < sources.len()
        invariant
            j <= sources@.len(),
            sv == sources_view(sources@),
            forall|i: int| 0 <= i < sources@.len() ==> path_ok((#[trigger] sv[i]).1.destination),
            vfs@ == write_sources(start, sv, j as int),
        decreases sources.len() - j,
    {
        let path = &sources[j].0;
        let file = &sources[j].1;
        assert(sv[j as int] == (path@, file@));
        assert(path_ok(sv[j as int].1.destination));
        let has_reexports = !is_blank(file.reexport_content.as_str());
        let has_content = !is_blank(file.content.as_str());
        let mut reexport_content = file.reexport_content.clone();
        if has_reexports {
            let line = reexport_line_exec(&file.destination, has_content);
            vfs.write("vk.rs", line.as_str());
            if has_content {
                let mut wrapped = "pub(crate) mod reexport { ".to_owned();
                push_str(&mut wrapped, reexport_content.as_str());
                push_str(&mut wrapped, " } pub use reexport::*;");
                reexport_content = wrapped;
            }
        }
        let doc = string_literal(file.doc_comment.as_str());
        let mut text = "#![doc = ".to_owned();
        push_str(&mut text, doc.as_str());
        push_str(&mut text, "] ");
        push_str(&mut text, file.content.as_str());
        push_str(&mut text, " ");
        push_str(&mut text, reexport_content.as_str());
        vfs.write(path.as_str(), text.as_str());
        proof {
            lemma_write_sources_step(start, sv, j + 1);
        }
        j += 1;
    }
}

/// Writes the `mod.rs` files; `orders` gives the order in which each lists its modules.
fn write_mod_files(vfs: &mut VirtualRustFs, mods: &Vec<(String, ModFile)>) -> (orders: Ghost<Seq<Seq<Seq<char>>>>)
    ensures
        orders_fit(mods_view(mods@), orders@),
        final(vfs)@ == write_mods(old(vfs)@, mods_view(mods@), orders@, mods@.len() as int),
{
    let ghost mv = mods_view(mods@);
    let ghost start = vfs@;
    let ghost mut orders: Seq<Seq<Seq<char>>> = Seq::empty();
    proof {
        reveal_with_fuel(write_mods, 1);
    }
    let mut j: usize = 0;
    while j < mods.len()
        invariant
            j <= mods@.len(),
            mv == mods_view(mods@),
            orders.len() == j,
            forall|i: int| 0 <= i < j ==> (#[trigger] orders[i]).no_duplicates() && orders[i].to_set() == mv[i].1.child_modules,
            vfs@ == write_mods(start, mv, orders, j as int),
        decreases mods.len() - j,
    {
        let path = &mods[j].0;
        let file = &mods[j].1;
        assert(mv[j as int] == (path@, file@));
        let children = index_set_list(&file.child_modules);
        let mut text = match &file.doc_comment {
            Some(doc) => {
                let lit = string_literal(doc.as_str());
                let mut t = "#![doc = ".to_owned();
                push_str(&mut t, lit.as_str());
                push_str(&mut t, "]");
                t
            },
            None => String::new(),
        };
        let decls = mod_decls(&children);
        push_str(&mut text, decls.as_str());
        vfs.write(path.as_str(), text.as_str());
        let ghost list = children@.map_values(|x: String| x@);
        proof {
            let new_orders = orders.push(list);
            assert forall|i: int| 0 <= i < j + 1 implies (#[trigger] new_orders[i]).no_duplicates() && new_orders[i].to_set()
                == mv[i].1.child_modules by {
                if i < j {
                    assert(new_orders[i] == orders[i]);
                }
            }
            lemma_write_mods_step(start, mv, new_orders, j + 1);
            lemma_write_mods_prefix(start, mv, orders, new_orders, j as int);
            orders = new_orders;
        }
        j += 1;
    }
    Ghost(orders)
}

impl CodeMap {
    /// The files in which the code of this map stands: a source file for each
    /// destination path, a `mod.rs` in each directory declaring its modules, and `vk.rs`
    /// re-exporting the re-exported code. The modules of a `mod.rs` come in the order
    /// that `IndexSet::insert_sorted_by_key` gives them.
    pub fn write(&self) -> (r: VirtualRustFs)
        requires
            layout_ok(self@),
        ensures
            exists|orders: Seq<Seq<Seq<char>>>| orders_fit(layout_mods(self@), orders) && r@ == layout(self@, orders),
    {
        let (mut vfs, sources, mods) = self.collect_files();
        proof {
            lemma_collect_sources_ok(self@, self@.len() as int);
        }
        write_source_files(&mut vfs, &sources);
        let orders = write_mod_files(&mut vfs, &mods);
        vfs.write(
            "vk.rs",
            "pub use crate::Handle; pub use crate::TaggedStructure; pub use crate::Extends; pub use crate::platform_types::*;",
        );
        assert(orders_fit(layout_mods(self@), orders@));
        assert(vfs@ == layout(self@, orders@));
        vfs
    }
}

/// Writing the first `j` `mod.rs` files depends only on the first `j` orders.
proof fn lemma_write_mods_prefix(files: FilesView, s: ModsView, a: Seq<Seq<Seq<char>>>, b: Seq<Seq<Seq<char>>>, j: int)
    requires
        0 <= j <= a.len(),
        j <= b.len(),
        forall|i: int| 0 <= i < j ==> a[i] == b[i],
    ensures
        write_mods(files, s, a, j) == write_mods(files, s, b, j),
    decreases j,
{
    reveal_with_fuel(write_mods, 1);
    if j > 0 {
        lemma_write_mods_prefix(files, s, a, b, j - 1);
    }
}

} // verus!
