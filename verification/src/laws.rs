//! Properties that hold across the library's functions.
use vstd::prelude::*;
use crate::c_str::{c_str_until_nul, first_nul, lemma_first_nul};
use crate::decimal::{all_digits, digit_value, digits_value, is_digit, parse_usize_spec, unsigned_body};
use crate::decl::{CPrimaryType, primary_type_of, TyView, layout_of, zeroable, array_length, has_valid_length, ArrayLenView, layout_defined, zeroable_defined};
use crate::generator::Context;
use crate::items::Items;
use vstd::layout::{size_of, align_of};
use crate::output::{CodeMapView, DestinationView, SingleDestinationView, dests_unique, extend_spec, insert_code, lemma_dest_index, lemma_extend_keeps_unique, single_dests_spec, dest_index};
use crate::text::{decimal, digit_char};
use crate::to_rust::RustTranslator;
use crate::vfs::{FilesView, key_index, lemma_key_index, write_spec};
use crate::files::{orders_fit, SourcesView, ModsView, SourceView, ModView, collect, layout, layout_mods, source_text, reexport_line, mod_text, write_mods, write_sources, add_source, add_mod, add_mods, source_keys, mod_keys, source_path, mod_path, mod_rs_head, vk_rs_tail, module_names};
use crate::output::ComponentView;
use crate::output::path_components_spec;
use crate::text::has_prefix;
use crate::item::{extend_all, item_codes};
use crate::loader::{TablesView, add_to_table, loader_code, loader_code_fold, tables_after, tables_for_command};
use crate::generator::generated_code;

verus! {

proof fn lemma_decimal_digits(n: nat)
    ensures
        decimal(n).len() > 0,
        all_digits(decimal(n)),
        digits_value(decimal(n)) == n,
    decreases n,
{
    if n < 10 {
        let s = decimal(n);
        assert(s == seq![digit_char(n)]);
        assert(s.drop_last() =~= Seq::<char>::empty());
        assert(digits_value(s.drop_last()) == 0);
        assert(digit_value(digit_char(n)) == n);
        assert(digits_value(s) == digits_value(s.drop_last()) * 10 + digit_value(s.last()));
    } else {
        lemma_decimal_digits(n / 10);
        let s = decimal(n);
        let p = decimal(n / 10);
        assert(s == p.push(digit_char(n % 10)));
        assert(s.drop_last() =~= p);
        assert(digit_value(digit_char(n % 10)) == n % 10);
        assert(digits_value(s) == digits_value(p) * 10 + digit_value(s.last()));
        assert(n == (n / 10) * 10 + n % 10);
        assert forall|i: int| 0 <= i < s.len() implies is_digit(#[trigger] s[i]) by {
            if i < p.len() {
                assert(s[i] == p[i]);
            }
        }
    }
}

/// A number that the library writes in decimal reads back as itself.
pub proof fn law_decimal_reads_back(n: usize)
    ensures
        parse_usize_spec(decimal(n as nat)) == Some(n),
{
    lemma_decimal_digits(n as nat);
    let s = decimal(n as nat);
    assert(is_digit(s[0]));
    assert(unsigned_body(s) == s);
}

/// A type that is zeroable has a size and an alignment.
pub proof fn law_zeroable_has_layout(t: TyView, items: Items, float: (usize, usize), double: (usize, usize))
    requires
        zeroable(t, items),
    ensures
        layout_of(t, items, float, double) is Some,
    decreases t,
{
    if let TyView::Array(inner, len) = t {
        law_zeroable_has_layout(*inner, items, float, double);
        assert(has_valid_length(items, len));
        assert(array_length(items, len) is Some);
    }
}

/// A NUL-terminated string written to the start of an array is read back from it
/// unchanged.
pub proof fn law_c_str_reads_back(target: Seq<u8>, bytes_with_nul: Seq<u8>)
    requires
        bytes_with_nul.len() > 0,
        bytes_with_nul.last() == 0,
        forall|j: int| 0 <= j < bytes_with_nul.len() - 1 ==> bytes_with_nul[j] != 0,
        bytes_with_nul.len() <= target.len(),
    ensures
        c_str_until_nul(bytes_with_nul + target.subrange(bytes_with_nul.len() as int, target.len() as int)) == Some(bytes_with_nul),
{
    let s = bytes_with_nul + target.subrange(bytes_with_nul.len() as int, target.len() as int);
    let n = bytes_with_nul.len() as int;
    lemma_first_nul(s);
    assert(s[n - 1] == 0);
    let k = first_nul(s).unwrap();
    if k < n - 1 {
        assert(s[k] == bytes_with_nul[k]);
    } else if k > n - 1 {
        assert(s[n - 1] != 0);
    }
    assert(s.subrange(0, n) =~= bytes_with_nul);
}

/// The guessed primary place of a destination is its first single destination.
pub proof fn law_primary_is_first_single_dest(d: DestinationView)
    requires
        d.locations.len() > 0,
    ensures
        single_dests_spec(d).len() == d.locations.len(),
        single_dests_spec(d)[0] == (SingleDestinationView { library: d.library, location: d.locations[0], reexport: d.reexport }),
{
}

/// Adding code keeps every destination that a map had, adds the new one, and adds no
/// other.
pub proof fn law_insert_keeps_dests(m: CodeMapView, d: SingleDestinationView, t: Seq<char>)
    ensures
        forall|i: int| 0 <= i < m.len() ==> exists|j: int| 0 <= j < insert_code(m, d, t).len() && #[trigger] m[i].0 == insert_code(m, d, t)[j].0,
        exists|j: int| 0 <= j < insert_code(m, d, t).len() && insert_code(m, d, t)[j].0 == d,
        forall|j: int|
            0 <= j < insert_code(m, d, t).len() ==> (#[trigger] insert_code(m, d, t)[j]).0 == d || exists|i: int| 0 <= i < m.len() && m[i].0 == insert_code(m, d, t)[j].0,
{
    lemma_dest_index(m, d);
    let r = insert_code(m, d, t);
    assert forall|i: int| 0 <= i < m.len() implies exists|j: int| 0 <= j < r.len() && #[trigger] m[i].0 == r[j].0 by {
        assert(r[i].0 == m[i].0);
    }
    match dest_index(m, d) {
        Some(i) => assert(r[i].0 == d),
        None => assert(r[m.len() as int].0 == d),
    }
    assert forall|j: int| 0 <= j < r.len() implies (#[trigger] r[j]).0 == d || exists|i: int| 0 <= i < m.len() && m[i].0 == r[j].0 by {
        if j < m.len() && r[j].0 != d {
            assert(m[j].0 == r[j].0);
        }
    }
}

/// Extending a code map keeps each destination once.
pub proof fn law_extend_keeps_dests_unique(m: CodeMapView, others: CodeMapView)
    requires
        dests_unique(m),
    ensures
        dests_unique(extend_spec(m, others)),
{
    lemma_extend_keeps_unique(m, others);
}

/// Each path stands once in a list of files.
pub open spec fn paths_unique(files: FilesView) -> bool {
    forall|i: int, j: int| 0 <= i < j < files.len() ==> files[i].0 != files[j].0
}

/// Writing to a file keeps each path once.
pub proof fn law_write_keeps_paths_unique(files: FilesView, path: Seq<char>, tokens: Seq<char>)
    requires
        paths_unique(files),
    ensures
        paths_unique(write_spec(files, path, tokens)),
{
    let keys = files.map_values(|e: (Seq<char>, Seq<char>)| e.0);
    lemma_key_index(keys, path);
    let r = write_spec(files, path, tokens);
    assert forall|i: int, j: int| 0 <= i < j < r.len() implies r[i].0 != r[j].0 by {
        if j < files.len() {
            assert(r[i].0 == files[i].0);
            assert(r[j].0 == files[j].0);
        } else {
            assert(keys[i] == files[i].0);
        }
    }
}

proof fn lemma_collect_files_unique(m: CodeMapView, k: int)
    ensures
        paths_unique(collect(m, k).0),
    decreases k,
{
    reveal_with_fuel(collect, 1);
    if k > 0 {
        lemma_collect_files_unique(m, k - 1);
        let prev = collect(m, k - 1);
        if path_components_spec(m[k - 1].0).len() == 0 {
            law_write_keeps_paths_unique(prev.0, "mod.rs"@, m[k - 1].1);
        }
    }
}

proof fn lemma_write_sources_unique(files: FilesView, s: SourcesView, j: int)
    requires
        paths_unique(files),
    ensures
        paths_unique(write_sources(files, s, j)),
    decreases j,
{
    reveal_with_fuel(write_sources, 1);
    if j > 0 {
        lemma_write_sources_unique(files, s, j - 1);
        let prev = write_sources(files, s, j - 1);
        let f = s[j - 1].1;
        if !crate::text::blank(f.reexport_content) {
            let line = reexport_line(f.destination, f.content);
            law_write_keeps_paths_unique(prev, "vk.rs"@, line);
            law_write_keeps_paths_unique(write_spec(prev, "vk.rs"@, line), s[j - 1].0, source_text(f));
        } else {
            law_write_keeps_paths_unique(prev, s[j - 1].0, source_text(f));
        }
    }
}

proof fn lemma_write_mods_unique(files: FilesView, s: ModsView, orders: Seq<Seq<Seq<char>>>, j: int)
    requires
        paths_unique(files),
    ensures
        paths_unique(write_mods(files, s, orders, j)),
    decreases j,
{
    reveal_with_fuel(write_mods, 1);
    if j > 0 {
        lemma_write_mods_unique(files, s, orders, j - 1);
        law_write_keeps_paths_unique(write_mods(files, s, orders, j - 1), s[j - 1].0, mod_text(s[j - 1].1.doc_comment, orders[j - 1]));
    }
}

/// The files that a code map is laid out in each have a path of their own, whatever the
/// order of the modules in each `mod.rs`.
pub proof fn law_layout_paths_unique(m: CodeMapView, orders: Seq<Seq<Seq<char>>>)
    ensures
        paths_unique(layout(m, orders)),
{
    let c = collect(m, m.len() as int);
    lemma_collect_files_unique(m, m.len() as int);
    lemma_write_sources_unique(c.0, c.1, c.1.len() as int);
    let w = write_sources(c.0, c.1, c.1.len() as int);
    lemma_write_mods_unique(w, c.2, orders, c.2.len() as int);
    law_write_keeps_paths_unique(write_mods(w, c.2, orders, c.2.len() as int), "vk.rs"@, crate::files::vk_rs_tail());
}

/// A qualified path is the unqualified one behind `crate::vk::`; a qualified enumerator
/// stands behind the path of its type.
pub proof fn law_qualified_paths(ctx: &Context, name: Seq<char>, owner: Seq<char>, lifetime: Seq<char>)
    ensures
        ctx.type_text(name, true, lifetime) == "crate::vk::"@ + ctx.type_text(name, false, lifetime),
        ctx.constant_text(name, true) == "crate::vk::"@ + ctx.constant_text(name, false),
        ctx.command_text(name, true) == "crate::vk::"@ + ctx.command_text(name, false),
        ctx.cmacro_text(name, true) == "crate::vk::"@ + ctx.cmacro_text(name, false),
        ctx.func_pointer_text(name, true) == "crate::vk::"@ + ctx.func_pointer_text(name, false),
        ctx.enumerator_text(name, owner, true) == ctx.type_text(owner, true, "'_"@) + "::"@ + ctx.enumerator_text(name, owner, false),
{
    reveal_strlit("");
    assert(ctx.type_text(name, true, lifetime) =~= "crate::vk::"@ + ctx.type_text(name, false, lifetime));
    assert(ctx.constant_text(name, true) =~= "crate::vk::"@ + ctx.constant_text(name, false));
    assert(ctx.command_text(name, true) =~= "crate::vk::"@ + ctx.command_text(name, false));
    assert(ctx.cmacro_text(name, true) =~= "crate::vk::"@ + ctx.cmacro_text(name, false));
    assert(ctx.func_pointer_text(name, true) =~= "crate::vk::"@ + ctx.func_pointer_text(name, false));
    assert(ctx.enumerator_text(name, owner, true) =~= ctx.type_text(owner, true, "'_"@) + "::"@ + ctx.enumerator_text(name, owner, false));
}

proof fn lemma_prefix_refl(a: Seq<char>)
    ensures
        has_prefix(a, a),
{
    assert(a.subrange(0, a.len() as int) =~= a);
}

/// A text that begins with another stays so when more is put after it.
proof fn lemma_prefix_trans(a: Seq<char>, b: Seq<char>, c: Seq<char>)
    requires
        has_prefix(a, b),
        has_prefix(b, c),
    ensures
        has_prefix(a, c),
{
    assert(a.subrange(0, c.len() as int) =~= b.subrange(0, c.len() as int));
}

proof fn lemma_insert_prefix(m: CodeMapView, d: SingleDestinationView, t: Seq<char>)
    ensures
        insert_code(m, d, t).len() >= m.len(),
        forall|i: int|
            0 <= i < m.len() ==> (#[trigger] insert_code(m, d, t)[i]).0 == m[i].0 && has_prefix(insert_code(m, d, t)[i].1, m[i].1),
        forall|i: int| 0 <= i < m.len() && m[i].0 != d ==> #[trigger] insert_code(m, d, t)[i] == m[i],
        forall|i: int| m.len() <= i < insert_code(m, d, t).len() ==> (#[trigger] insert_code(m, d, t)[i]).0 == d,
{
    lemma_dest_index(m, d);
    let r = insert_code(m, d, t);
    assert forall|i: int| 0 <= i < m.len() implies (#[trigger] r[i]).0 == m[i].0 && has_prefix(r[i].1, m[i].1) by {
        assert(r[i].1.subrange(0, m[i].1.len() as int) =~= m[i].1);
    }
}

/// Code added to a map keeps what the map held: its destinations stay in their order at
/// the front, and the code of each of them stays at the start of its code. The code of a
/// destination that is not added to stays as it was; every destination after the old
/// ones is one that was added.
pub proof fn law_extend_keeps_prefix(m: CodeMapView, others: CodeMapView)
    ensures
        extend_spec(m, others).len() >= m.len(),
        forall|i: int|
            0 <= i < m.len() ==> (#[trigger] extend_spec(m, others)[i]).0 == m[i].0 && has_prefix(extend_spec(m, others)[i].1, m[i].1),
        forall|i: int|
            0 <= i < m.len() && (forall|j: int| 0 <= j < others.len() ==> others[j].0 != m[i].0) ==> #[trigger] extend_spec(m, others)[i]
                == m[i],
        forall|i: int|
            m.len() <= i < extend_spec(m, others).len() ==> exists|j: int| 0 <= j < others.len() && others[j].0 == (#[trigger] extend_spec(m, others)[i]).0,
    decreases others.len(),
{
    if others.len() > 0 {
        let rest = others.drop_last();
        law_extend_keeps_prefix(m, rest);
        let mid = extend_spec(m, rest);
        let (d, t) = others.last();
        lemma_insert_prefix(mid, d, t);
        let r = extend_spec(m, others);
        assert forall|i: int| 0 <= i < m.len() implies (#[trigger] r[i]).0 == m[i].0 && has_prefix(r[i].1, m[i].1) by {
            assert(r[i].0 == mid[i].0 && has_prefix(r[i].1, mid[i].1));
            lemma_prefix_trans(r[i].1, mid[i].1, m[i].1);
        }
        assert forall|i: int|
            0 <= i < m.len() && (forall|j: int| 0 <= j < others.len() ==> others[j].0 != m[i].0) implies #[trigger] r[i] == m[i] by {
            assert forall|j: int| 0 <= j < rest.len() implies rest[j].0 != m[i].0 by {
                assert(rest[j] == others[j]);
            }
            assert(others[others.len() - 1].0 != m[i].0);
        }
        assert forall|i: int| m.len() <= i < r.len() implies exists|j: int| 0 <= j < others.len() && others[j].0 == (#[trigger] r[i]).0 by {
            if i < mid.len() {
                let j = choose|j: int| 0 <= j < rest.len() && rest[j].0 == mid[i].0;
                assert(others[j] == rest[j]);
            } else {
                assert(others[others.len() - 1].0 == r[i].0);
            }
        }
    } else {
        assert forall|i: int| 0 <= i < m.len() implies has_prefix(m[i].1, m[i].1) by {
            lemma_prefix_refl(m[i].1);
        }
    }
}

/// What one map is to another after code was added to it: its destinations at the front
/// in order, each with its old code at the start, the code of each re-exported one
/// unchanged, and only destinations that are not re-exported after them.
pub open spec fn kept_by_loader(old: CodeMapView, new: CodeMapView) -> bool {
    &&& new.len() >= old.len()
    &&& forall|i: int| 0 <= i < old.len() ==> (#[trigger] new[i]).0 == old[i].0 && has_prefix(new[i].1, old[i].1)
    &&& forall|i: int| 0 <= i < old.len() && old[i].0.reexport ==> #[trigger] new[i] == old[i]
    &&& forall|i: int| old.len() <= i < new.len() ==> !(#[trigger] new[i]).0.reexport
}

proof fn lemma_tables_not_reexported_command(ctx: &Context, m: TablesView, ci: crate::items::CommandItem, j: int)
    requires
        forall|i: int| 0 <= i < m.len() ==> !(#[trigger] m[i]).0.1.reexport,
    ensures
        forall|i: int| 0 <= i < tables_for_command(ctx, m, ci, j).len() ==> !(#[trigger] tables_for_command(ctx, m, ci, j)[i]).0.1.reexport,
    decreases j,
{
    reveal_with_fuel(tables_for_command, 1);
    if j > 0 {
        lemma_tables_not_reexported_command(ctx, m, ci, j - 1);
        let prev = tables_for_command(ctx, m, ci, j - 1);
        let r = tables_for_command(ctx, m, ci, j);
        let rb = crate::loader::item_required_by(ci);
        let key = (
            crate::loader::function_type_of(crate::loader::item_command(ctx, ci)@),
            SingleDestinationView { library: rb.library, location: rb.locations[j - 1], reexport: false },
        );
        crate::loader::lemma_table_index(prev, key);
        assert forall|i: int| 0 <= i < r.len() implies !(#[trigger] r[i]).0.1.reexport by {
            if i < prev.len() {
                assert(r[i].0 == prev[i].0 || r[i].0 == key);
            } else {
                assert(r[i].0 == key);
            }
        }
    }
}

proof fn lemma_tables_not_reexported(ctx: &Context, k: int)
    ensures
        forall|i: int| 0 <= i < tables_after(ctx, k).len() ==> !(#[trigger] tables_after(ctx, k)[i]).0.1.reexport,
    decreases k,
{
    reveal_with_fuel(tables_after, 1);
    if k > 0 {
        lemma_tables_not_reexported(ctx, k - 1);
        let ci = ctx.items.commands@[k - 1].1;
        lemma_tables_not_reexported_command(ctx, tables_after(ctx, k - 1), ci, crate::loader::item_required_by(ci).locations.len() as int);
    }
}

proof fn lemma_loader_fold_keeps(m: CodeMapView, tables: TablesView, k: int)
    requires
        0 <= k <= tables.len(),
        forall|i: int| 0 <= i < tables.len() ==> !(#[trigger] tables[i]).0.1.reexport,
    ensures
        kept_by_loader(m, loader_code_fold(m, tables, k)),
    decreases k,
{
    reveal_with_fuel(loader_code_fold, 1);
    if k > 0 {
        lemma_loader_fold_keeps(m, tables, k - 1);
        let prev = loader_code_fold(m, tables, k - 1);
        let e = tables[k - 1];
        let d = e.0.1;
        let t = crate::loader::table_code_text(e.0.0, e.0.1, e.1.0, e.1.1, e.1.2);
        crate::output::lemma_extend_one(prev, d, t);
        lemma_insert_prefix(prev, d, t);
        let r = loader_code_fold(m, tables, k);
        assert(r == insert_code(prev, d, t));
        assert(!d.reexport);
        assert forall|i: int| 0 <= i < m.len() implies (#[trigger] r[i]).0 == m[i].0 && has_prefix(r[i].1, m[i].1) by {
            lemma_prefix_trans(r[i].1, prev[i].1, m[i].1);
        }
        assert forall|i: int| 0 <= i < m.len() && m[i].0.reexport implies #[trigger] r[i] == m[i] by {
            assert(prev[i] == m[i]);
            assert(prev[i].0 != d);
        }
        assert forall|i: int| m.len() <= i < r.len() implies !(#[trigger] r[i]).0.reexport by {
            if i < prev.len() {
                assert(r[i].0 == prev[i].0);
            }
        }
    } else {
        assert forall|i: int| 0 <= i < m.len() implies has_prefix(m[i].1, m[i].1) by {
            lemma_prefix_refl(m[i].1);
        }
    }
}

/// Adding the function tables keeps the code map's old destinations in order at the
/// front, each with its old code at the start; the code of each re-exported destination
/// is unchanged, and every destination the tables add is not re-exported.
pub proof fn law_loader_keeps_prefix(ctx: &Context, old: CodeMapView)
    ensures
        kept_by_loader(old, loader_code(ctx, old)),
{
    let tables = tables_after(ctx, ctx.items.commands@.len() as int);
    lemma_tables_not_reexported(ctx, ctx.items.commands@.len() as int);
    lemma_loader_fold_keeps(old, tables, tables.len() as int);
}

proof fn lemma_extend_all_keeps(m: CodeMapView, codes: Seq<CodeMapView>, k: int)
    ensures
        extend_all(m, codes, k).len() >= m.len(),
        forall|i: int|
            0 <= i < m.len() ==> (#[trigger] extend_all(m, codes, k)[i]).0 == m[i].0 && has_prefix(extend_all(m, codes, k)[i].1, m[i].1),
    decreases k,
{
    reveal_with_fuel(extend_all, 1);
    if k > 0 {
        lemma_extend_all_keeps(m, codes, k - 1);
        let prev = extend_all(m, codes, k - 1);
        law_extend_keeps_prefix(prev, codes[k - 1]);
        let r = extend_all(m, codes, k);
        assert forall|i: int| 0 <= i < m.len() implies (#[trigger] r[i]).0 == m[i].0 && has_prefix(r[i].1, m[i].1) by {
            lemma_prefix_trans(r[i].1, prev[i].1, m[i].1);
        }
    } else {
        assert forall|i: int| 0 <= i < m.len() implies has_prefix(m[i].1, m[i].1) by {
            lemma_prefix_refl(m[i].1);
        }
    }
}

/// Adding the code of the items keeps the code map's old destinations in order at the
/// front, each with its old code at the start.
pub proof fn law_items_keep_prefix(ctx: &Context, old: CodeMapView)
    ensures
        extend_all(old, item_codes(ctx), item_codes(ctx).len() as int).len() >= old.len(),
        forall|i: int|
            0 <= i < old.len() ==> (#[trigger] extend_all(old, item_codes(ctx), item_codes(ctx).len() as int)[i]).0 == old[i].0 && has_prefix(
                extend_all(old, item_codes(ctx), item_codes(ctx).len() as int)[i].1,
                old[i].1,
            ),
{
    lemma_extend_all_keeps(old, item_codes(ctx), item_codes(ctx).len() as int);
}

/// The code that `generate` lays out is the map that the code of the items and then the
/// function tables build from an empty map, the map that `CodeMap::write` is called on.
pub proof fn law_generate_lays_out_built_map(ctx: &Context, items_done: CodeMapView, tables_done: CodeMapView)
    requires
        items_done == extend_all(Seq::empty(), item_codes(ctx), item_codes(ctx).len() as int),
        tables_done == loader_code(ctx, items_done),
    ensures
        tables_done == generated_code(ctx),
{
}

} // verus!

verus! {

/// The text of the file at a path, where one is written.
pub open spec fn file_text(files: FilesView, path: Seq<char>) -> Option<Seq<char>> {
    match key_index(files.map_values(|e: (Seq<char>, Seq<char>)| e.0), path) {
        Some(i) => Some(files[i].1),
        None => None,
    }
}

/// `more` written after the text of a file, or alone where there is no file yet.
pub open spec fn appended(old: Option<Seq<char>>, more: Seq<char>) -> Seq<char> {
    match old {
        Some(x) => x + " "@ + more,
        None => more,
    }
}

/// Each key stands once in a list of entries.
pub open spec fn keys_distinct<V>(s: Seq<(Seq<char>, V)>) -> bool {
    forall|i: int, j: int| 0 <= i < j < s.len() ==> s[i].0 != s[j].0
}

proof fn lemma_key_index_at(keys: Seq<Seq<char>>, k: Seq<char>, i: int)
    requires
        0 <= i < keys.len(),
        keys[i] == k,
        forall|j: int| 0 <= j < i ==> keys[j] != k,
    ensures
        key_index(keys, k) == Some(i),
{
    lemma_key_index(keys, k);
    match key_index(keys, k) {
        Some(j) => {
            if j < i {
                assert(keys[j] != k);
            } else if j > i {
                assert(keys[i] != k);
            }
        },
        None => {
            assert(keys[i] != k);
        },
    }
}

proof fn lemma_key_index_absent(keys: Seq<Seq<char>>, k: Seq<char>)
    requires
        forall|j: int| 0 <= j < keys.len() ==> keys[j] != k,
    ensures
        key_index(keys, k) is None,
{
    lemma_key_index(keys, k);
    if let Some(j) = key_index(keys, k) {
        assert(keys[j] != k);
    }
}

/// Writing to one file leaves every other file as it was, and puts the code after the
/// text of the file written to.
pub proof fn law_write_text(files: FilesView, q: Seq<char>, t: Seq<char>, p: Seq<char>)
    ensures
        file_text(write_spec(files, q, t), p) == if p == q {
            Some(appended(file_text(files, p), t))
        } else {
            file_text(files, p)
        },
{
    let keys = files.map_values(|e: (Seq<char>, Seq<char>)| e.0);
    let r = write_spec(files, q, t);
    let rkeys = r.map_values(|e: (Seq<char>, Seq<char>)| e.0);
    lemma_key_index(keys, q);
    lemma_key_index(keys, p);
    match key_index(keys, q) {
        Some(i) => {
            assert(rkeys =~= keys);
            if p == q {
                assert(r[i].1 == files[i].1 + " "@ + t);
            } else {
                if let Some(k) = key_index(keys, p) {
                    assert(k != i);
                    assert(r[k] == files[k]);
                }
            }
        },
        None => {
            assert(rkeys =~= keys.push(q));
            if p == q {
                lemma_key_index_at(rkeys, q, keys.len() as int);
            } else {
                match key_index(keys, p) {
                    Some(k) => {
                        assert forall|j: int| 0 <= j < k implies rkeys[j] != p by {
                            assert(rkeys[j] == keys[j]);
                        }
                        lemma_key_index_at(rkeys, p, k);
                        assert(r[k] == files[k]);
                    },
                    None => {
                        assert forall|j: int| 0 <= j < rkeys.len() implies rkeys[j] != p by {
                            if j < keys.len() {
                                assert(rkeys[j] == keys[j]);
                            }
                        }
                        lemma_key_index_absent(rkeys, p);
                    },
                }
            }
        },
    }
}

proof fn lemma_write_sources_other(files: FilesView, s: SourcesView, j: int, p: Seq<char>)
    requires
        0 <= j <= s.len(),
        p != "vk.rs"@,
        forall|i: int| 0 <= i < j ==> s[i].0 != p,
    ensures
        file_text(write_sources(files, s, j), p) == file_text(files, p),
    decreases j,
{
    reveal_with_fuel(write_sources, 1);
    if j > 0 {
        lemma_write_sources_other(files, s, j - 1, p);
        let prev = write_sources(files, s, j - 1);
        let f = s[j - 1].1;
        if !crate::text::blank(f.reexport_content) {
            let line = reexport_line(f.destination, f.content);
            law_write_text(prev, "vk.rs"@, line, p);
            law_write_text(write_spec(prev, "vk.rs"@, line), s[j - 1].0, source_text(f), p);
        } else {
            law_write_text(prev, s[j - 1].0, source_text(f), p);
        }
    }
}

proof fn lemma_write_sources_at(files: FilesView, s: SourcesView, j: int, p: Seq<char>, i: int)
    requires
        0 <= i < j <= s.len(),
        keys_distinct(s),
        s[i].0 == p,
        p != "vk.rs"@,
    ensures
        file_text(write_sources(files, s, j), p) == Some(appended(file_text(files, p), source_text(s[i].1))),
    decreases j,
{
    reveal_with_fuel(write_sources, 1);
    let prev = write_sources(files, s, j - 1);
    let f = s[j - 1].1;
    if j - 1 == i {
        assert forall|k: int| 0 <= k < i implies s[k].0 != p by {}
        lemma_write_sources_other(files, s, i, p);
    } else {
        lemma_write_sources_at(files, s, j - 1, p, i);
        assert(s[j - 1].0 != p);
    }
    if !crate::text::blank(f.reexport_content) {
        let line = reexport_line(f.destination, f.content);
        law_write_text(prev, "vk.rs"@, line, p);
        law_write_text(write_spec(prev, "vk.rs"@, line), s[j - 1].0, source_text(f), p);
    } else {
        law_write_text(prev, s[j - 1].0, source_text(f), p);
    }
}

proof fn lemma_write_mods_other(files: FilesView, s: ModsView, orders: Seq<Seq<Seq<char>>>, j: int, p: Seq<char>)
    requires
        0 <= j <= s.len(),
        forall|i: int| 0 <= i < j ==> s[i].0 != p,
    ensures
        file_text(write_mods(files, s, orders, j), p) == file_text(files, p),
    decreases j,
{
    reveal_with_fuel(write_mods, 1);
    if j > 0 {
        lemma_write_mods_other(files, s, orders, j - 1, p);
        law_write_text(write_mods(files, s, orders, j - 1), s[j - 1].0, mod_text(s[j - 1].1.doc_comment, orders[j - 1]), p);
    }
}

proof fn lemma_write_mods_at(files: FilesView, s: ModsView, orders: Seq<Seq<Seq<char>>>, j: int, p: Seq<char>, i: int)
    requires
        0 <= i < j <= s.len(),
        keys_distinct(s),
        s[i].0 == p,
    ensures
        file_text(write_mods(files, s, orders, j), p) == Some(appended(file_text(files, p), mod_text(s[i].1.doc_comment, orders[i]))),
    decreases j,
{
    reveal_with_fuel(write_mods, 1);
    if j - 1 == i {
        assert forall|k: int| 0 <= k < i implies s[k].0 != p by {}
        lemma_write_mods_other(files, s, orders, i, p);
    } else {
        lemma_write_mods_at(files, s, orders, j - 1, p, i);
        assert(s[j - 1].0 != p);
    }
    law_write_text(write_mods(files, s, orders, j - 1), s[j - 1].0, mod_text(s[j - 1].1.doc_comment, orders[j - 1]), p);
}

/// The path of the source file of a destination.
pub open spec fn dest_source_path(d: SingleDestinationView) -> Seq<char> {
    source_path(path_components_spec(d))
}

/// The code of the first `k` entries of a map whose destinations have the source path
/// `path` and the re-export flag `reexport`, in order, each after a space.
pub open spec fn gathered(m: CodeMapView, path: Seq<char>, reexport: bool, k: int) -> Seq<char>
    decreases k,
{
    if k <= 0 {
        Seq::empty()
    } else {
        let d = m[k - 1].0;
        gathered(m, path, reexport, k - 1) + if dest_source_path(d) == path && d.reexport == reexport {
            " "@ + m[k - 1].1
        } else {
            Seq::empty()
        }
    }
}

/// The first of the first `k` entries whose destination has the source path `path`.
pub open spec fn first_at_path(m: CodeMapView, path: Seq<char>, k: int) -> Option<int>
    decreases k,
{
    if k <= 0 {
        None
    } else {
        match first_at_path(m, path, k - 1) {
            Some(i) => Some(i),
            None => if dest_source_path(m[k - 1].0) == path {
                Some(k - 1)
            } else {
                None
            },
        }
    }
}

/// The source file that the first `k` entries of a map gather at a path: the destination
/// and documentation of the first of them, the code that is re-exported and the code
/// that is not.
pub open spec fn gathered_source(m: CodeMapView, path: Seq<char>, k: int) -> SourceView {
    let d = m[first_at_path(m, path, k).unwrap()].0;
    SourceView {
        destination: d,
        doc_comment: path_components_spec(d).last().doc_comment,
        reexport_content: gathered(m, path, true, k),
        content: gathered(m, path, false, k),
    }
}

/// The source files that the first `k` entries of a map gather: one per path, each as
/// gathered, and one for every path some entry has.
pub open spec fn sources_gathered(m: CodeMapView, s: SourcesView, k: int) -> bool {
    &&& keys_distinct(s)
    &&& forall|i: int| 0 <= i < s.len() ==> first_at_path(m, (#[trigger] s[i]).0, k) is Some && s[i].1 == gathered_source(m, s[i].0, k)
    &&& forall|p: Seq<char>| #[trigger] first_at_path(m, p, k) is Some ==> exists|i: int| 0 <= i < s.len() && s[i].0 == p
}

proof fn lemma_nothing_gathered(m: CodeMapView, p: Seq<char>, reexport: bool, k: int)
    requires
        first_at_path(m, p, k) is None,
    ensures
        gathered(m, p, reexport, k) == Seq::<char>::empty(),
    decreases k,
{
    if k > 0 {
        lemma_nothing_gathered(m, p, reexport, k - 1);
        assert(gathered(m, p, reexport, k) =~= Seq::<char>::empty());
    }
}

proof fn lemma_first_at_path_range(m: CodeMapView, p: Seq<char>, k: int)
    ensures
        first_at_path(m, p, k) matches Some(i) ==> 0 <= i < k && dest_source_path(m[i].0) == p,
    decreases k,
{
    if k > 0 {
        lemma_first_at_path_range(m, p, k - 1);
    }
}

/// Every destination has at least one module.
proof fn lemma_components_nonempty(d: SingleDestinationView)
    ensures
        path_components_spec(d).len() > 0,
{
}

proof fn lemma_collect_sources(m: CodeMapView, k: int)
    requires
        0 <= k <= m.len(),
    ensures
        collect(m, k).0 == seq![("mod.rs"@, mod_rs_head())],
        sources_gathered(m, collect(m, k).1, k),
    decreases k,
{
    reveal_with_fuel(collect, 1);
    if k > 0 {
        lemma_collect_sources(m, k - 1);
        let prev = collect(m, k - 1);
        let s = prev.1;
        let d = m[k - 1].0;
        let t = m[k - 1].1;
        let comps = path_components_spec(d);
        lemma_components_nonempty(d);
        let q = source_path(comps);
        let doc = comps.last().doc_comment;
        let r = add_source(s, q, d, doc, t);
        assert(collect(m, k).1 == r);
        lemma_key_index(source_keys(s), q);
        let s1 = match key_index(source_keys(s), q) {
            Some(_) => s,
            None => s.push((q, SourceView { destination: d, doc_comment: doc, reexport_content: Seq::empty(), content: Seq::empty() })),
        };
        assert(keys_distinct(s1)) by {
            if key_index(source_keys(s), q) is None {
                assert forall|a: int, b: int| 0 <= a < b < s1.len() implies s1[a].0 != s1[b].0 by {
                    if b == s.len() {
                        assert(source_keys(s)[a] == s[a].0);
                    }
                }
            }
        }
        let keys1 = source_keys(s1);
        let idx = choose|idx: int| 0 <= idx < s1.len() && s1[idx].0 == q;
        assert(0 <= idx < s1.len() && s1[idx].0 == q) by {
            match key_index(source_keys(s), q) {
                Some(j) => {
                    assert(source_keys(s)[j] == s[j].0);
                },
                None => {
                    assert(s1[s.len() as int].0 == q);
                },
            }
        }
        assert forall|j: int| 0 <= j < idx implies keys1[j] != q by {
            assert(keys1[j] == s1[j].0);
            assert(keys1[idx] == s1[idx].0);
        }
        lemma_key_index_at(keys1, q, idx);
        assert(r.len() == s1.len());
        assert forall|i: int| 0 <= i < r.len() implies r[i].0 == s1[i].0 && (i != idx ==> r[i] == s1[i]) by {}
        // distinct keys
        assert(keys_distinct(r)) by {
            assert forall|a: int, b: int| 0 <= a < b < r.len() implies r[a].0 != r[b].0 by {
                assert(r[a].0 == s1[a].0 && r[b].0 == s1[b].0);
            }
        }
        lemma_first_at_path_range(m, q, k - 1);
        if key_index(source_keys(s), q) is None {
            assert forall|i: int| 0 <= i < s.len() implies s[i].0 != q by {
                assert(source_keys(s)[i] == s[i].0);
            }
            assert(first_at_path(m, q, k - 1) is None);
            lemma_nothing_gathered(m, q, true, k - 1);
            lemma_nothing_gathered(m, q, false, k - 1);
            assert(idx == s.len());
        }
        assert forall|i: int| 0 <= i < r.len() implies first_at_path(m, (#[trigger] r[i]).0, k) is Some && r[i].1 == gathered_source(
            m,
            r[i].0,
            k,
        ) by {
            let p = r[i].0;
            if i == idx {
                assert(p == q);
                assert(first_at_path(m, q, k) is Some);
                if key_index(source_keys(s), q) is None {
                    assert(first_at_path(m, q, k) == Some(k - 1));
                    assert(r[i].1.reexport_content =~= gathered(m, q, true, k));
                    assert(r[i].1.content =~= gathered(m, q, false, k));
                } else {
                    assert(s1[i] == s[i]);
                    assert(r[i].1.reexport_content =~= gathered(m, q, true, k));
                    assert(r[i].1.content =~= gathered(m, q, false, k));
                }
            } else {
                assert(r[i] == s[i]);
                assert(p != q);
                assert(gathered(m, p, true, k) =~= gathered(m, p, true, k - 1));
                assert(gathered(m, p, false, k) =~= gathered(m, p, false, k - 1));
            }
        }
        assert forall|p: Seq<char>| #[trigger] first_at_path(m, p, k) is Some implies exists|i: int| 0 <= i < r.len() && r[i].0 == p by {
            if p == q {
                assert(r[idx].0 == q);
            } else {
                assert(first_at_path(m, p, k - 1) is Some);
                let i = choose|i: int| 0 <= i < s.len() && s[i].0 == p;
                assert(r[i].0 == s1[i].0);
            }
        }
    }
}

/// Some `mod.rs` of a list is at `path` and declares the module `child`.
pub open spec fn declares(s: ModsView, path: Seq<char>, child: Seq<char>) -> bool {
    exists|r: int| 0 <= r < s.len() && s[r].0 == path && s[r].1.child_modules.contains(child)
}

/// `path` is the `mod.rs` that declares a module of the path of one of the first `k`
/// entries of a map.
pub open spec fn mod_path_of_entry(m: CodeMapView, k: int, path: Seq<char>) -> bool {
    exists|e: int, i: int|
        0 <= e < k && 0 <= i < path_components_spec(m[e].0).len() && path == #[trigger] mod_path(path_components_spec(m[e].0), i)
}

/// The `mod.rs` files that the first `k` entries of a map gather: each path once; the
/// top one alone without documentation; each module of each entry's path declared in
/// the `mod.rs` of its parent; and no `mod.rs` but those.
pub open spec fn mods_gathered(m: CodeMapView, s: ModsView, k: int) -> bool {
    &&& keys_distinct(s)
    &&& forall|r: int| 0 <= r < s.len() ==> ((#[trigger] s[r]).1.doc_comment is None <==> s[r].0 == "mod.rs"@)
    &&& forall|e: int, i: int|
        0 <= e < k && 0 <= i < path_components_spec(m[e].0).len() ==> declares(
            s,
            #[trigger] mod_path(path_components_spec(m[e].0), i),
            path_components_spec(m[e].0)[i].module_name,
        )
    &&& forall|r: int| 0 <= r < s.len() ==> mod_path_of_entry(m, k, (#[trigger] s[r]).0)
}

/// `b` holds the files of `a` in the same order, with the same documentation and at least
/// the same modules.
pub open spec fn mods_grow(a: ModsView, b: ModsView) -> bool {
    &&& b.len() >= a.len()
    &&& forall|j: int|
        0 <= j < a.len() ==> (#[trigger] b[j]).0 == a[j].0 && b[j].1.doc_comment == a[j].1.doc_comment && a[j].1.child_modules.subset_of(
            b[j].1.child_modules,
        )
}

proof fn lemma_mods_grow_trans(a: ModsView, b: ModsView, c: ModsView)
    requires
        mods_grow(a, b),
        mods_grow(b, c),
    ensures
        mods_grow(a, c),
{
    assert forall|j: int| 0 <= j < a.len() implies (#[trigger] c[j]).0 == a[j].0 && c[j].1.doc_comment == a[j].1.doc_comment
        && a[j].1.child_modules.subset_of(c[j].1.child_modules) by {
        assert(b[j].0 == a[j].0);
    }
}

proof fn lemma_declares_grow(a: ModsView, b: ModsView, path: Seq<char>, child: Seq<char>)
    requires
        mods_grow(a, b),
        declares(a, path, child),
    ensures
        declares(b, path, child),
{
    let r = choose|r: int| 0 <= r < a.len() && a[r].0 == path && a[r].1.child_modules.contains(child);
    assert(b[r].0 == a[r].0);
}

/// The `mod.rs` of the first module of a path is the top one, and no other is.
proof fn lemma_mod_path_root(comps: Seq<ComponentView>, t: int)
    requires
        0 <= t < comps.len(),
    ensures
        mod_path(comps, t) == "mod.rs"@ <==> t == 0,
{
    reveal_strlit("mod.rs");
    reveal_strlit("/");
    let list = module_names(comps).take(t).push("mod.rs"@);
    if t == 0 {
        assert(list =~= seq!["mod.rs"@]);
    } else {
        assert(list.len() >= 2);
        assert(list.last() == "mod.rs"@);
        assert(crate::text::join(list, "/"@) == crate::text::join(list.drop_last(), "/"@) + "/"@ + list.last());
        assert(mod_path(comps, t).len() >= 7);
    }
}

proof fn lemma_add_mod(s: ModsView, path: Seq<char>, doc: Option<Seq<char>>, child: Seq<char>)
    requires
        keys_distinct(s),
        forall|r: int| 0 <= r < s.len() ==> ((#[trigger] s[r]).1.doc_comment is None <==> s[r].0 == "mod.rs"@),
        doc is None <==> path == "mod.rs"@,
    ensures
        keys_distinct(add_mod(s, path, doc, child)),
        forall|r: int|
            0 <= r < add_mod(s, path, doc, child).len() ==> ((#[trigger] add_mod(s, path, doc, child)[r]).1.doc_comment is None
                <==> add_mod(s, path, doc, child)[r].0 == "mod.rs"@),
        mods_grow(s, add_mod(s, path, doc, child)),
        forall|r: int| s.len() <= r < add_mod(s, path, doc, child).len() ==> (#[trigger] add_mod(s, path, doc, child)[r]).0 == path,
        declares(add_mod(s, path, doc, child), path, child),
{
    lemma_key_index(mod_keys(s), path);
    let s1 = match key_index(mod_keys(s), path) {
        Some(_) => s,
        None => s.push((path, ModView { doc_comment: doc, child_modules: Set::empty() })),
    };
    if key_index(mod_keys(s), path) is None {
        assert forall|i: int| 0 <= i < s.len() implies s[i].0 != path by {
            assert(mod_keys(s)[i] == s[i].0);
        }
    }
    let idx = choose|idx: int| 0 <= idx < s1.len() && s1[idx].0 == path;
    assert(0 <= idx < s1.len() && s1[idx].0 == path) by {
        match key_index(mod_keys(s), path) {
            Some(j) => {
                assert(mod_keys(s)[j] == s[j].0);
            },
            None => {
                assert(s1[s.len() as int].0 == path);
            },
        }
    }
    assert(keys_distinct(s1));
    let keys1 = mod_keys(s1);
    assert forall|j: int| 0 <= j < idx implies keys1[j] != path by {
        assert(keys1[j] == s1[j].0);
        assert(keys1[idx] == s1[idx].0);
    }
    lemma_key_index_at(keys1, path, idx);
    let r = add_mod(s, path, doc, child);
    assert(r == s1.update(idx, (path, ModView { child_modules: s1[idx].1.child_modules.insert(child), ..s1[idx].1 })));
    assert(r[idx].1.child_modules.contains(child));
    assert forall|a: int, b: int| 0 <= a < b < r.len() implies r[a].0 != r[b].0 by {
        assert(r[a].0 == s1[a].0 && r[b].0 == s1[b].0);
    }
    assert forall|j: int| 0 <= j < s.len() implies (#[trigger] r[j]).0 == s[j].0 && r[j].1.doc_comment == s[j].1.doc_comment
        && s[j].1.child_modules.subset_of(r[j].1.child_modules) by {
        assert(s1[j] == s[j]);
    }
}

proof fn lemma_add_mods(s: ModsView, comps: Seq<ComponentView>, i: int)
    requires
        0 <= i <= comps.len(),
        keys_distinct(s),
        forall|r: int| 0 <= r < s.len() ==> ((#[trigger] s[r]).1.doc_comment is None <==> s[r].0 == "mod.rs"@),
    ensures
        keys_distinct(add_mods(s, comps, i)),
        forall|r: int|
            0 <= r < add_mods(s, comps, i).len() ==> ((#[trigger] add_mods(s, comps, i)[r]).1.doc_comment is None <==> add_mods(
                s,
                comps,
                i,
            )[r].0 == "mod.rs"@),
        mods_grow(s, add_mods(s, comps, i)),
        forall|r: int|
            s.len() <= r < add_mods(s, comps, i).len() ==> exists|t: int| 0 <= t < i && (#[trigger] add_mods(s, comps, i)[r]).0 == mod_path(comps, t),
        forall|t: int| 0 <= t < i ==> declares(add_mods(s, comps, i), #[trigger] mod_path(comps, t), comps[t].module_name),
    decreases i,
{
    reveal_with_fuel(add_mods, 1);
    if i > 0 {
        lemma_add_mods(s, comps, i - 1);
        let prev = add_mods(s, comps, i - 1);
        let path = mod_path(comps, i - 1);
        let doc = if i - 1 > 0 {
            Some(comps[i - 2].doc_comment)
        } else {
            None
        };
        lemma_mod_path_root(comps, i - 1);
        lemma_add_mod(prev, path, doc, comps[i - 1].module_name);
        let r = add_mods(s, comps, i);
        assert(r == add_mod(prev, path, doc, comps[i - 1].module_name));
        lemma_mods_grow_trans(s, prev, r);
        assert forall|j: int| s.len() <= j < r.len() implies exists|t: int| 0 <= t < i && (#[trigger] r[j]).0 == mod_path(comps, t) by {
            if j < prev.len() {
                let t = choose|t: int| 0 <= t < i - 1 && prev[j].0 == mod_path(comps, t);
                assert(r[j].0 == prev[j].0);
            } else {
                assert(r[j].0 == mod_path(comps, i - 1));
            }
        }
        assert forall|t: int| 0 <= t < i implies declares(r, #[trigger] mod_path(comps, t), comps[t].module_name) by {
            if t < i - 1 {
                lemma_declares_grow(prev, r, mod_path(comps, t), comps[t].module_name);
            }
        }
    } else {
        assert(add_mods(s, comps, 0) == s);
    }
}

proof fn lemma_collect_mods(m: CodeMapView, k: int)
    requires
        0 <= k <= m.len(),
    ensures
        mods_gathered(m, collect(m, k).2, k),
    decreases k,
{
    reveal_with_fuel(collect, 1);
    if k > 0 {
        lemma_collect_mods(m, k - 1);
        let s = collect(m, k - 1).2;
        let d = m[k - 1].0;
        let comps = path_components_spec(d);
        lemma_components_nonempty(d);
        lemma_add_mods(s, comps, comps.len() as int);
        let r = collect(m, k).2;
        assert(r == add_mods(s, comps, comps.len() as int));
        assert forall|e: int, i: int|
            0 <= e < k && 0 <= i < path_components_spec(m[e].0).len() implies declares(
            r,
            #[trigger] mod_path(path_components_spec(m[e].0), i),
            path_components_spec(m[e].0)[i].module_name,
        ) by {
            if e < k - 1 {
                lemma_declares_grow(s, r, mod_path(path_components_spec(m[e].0), i), path_components_spec(m[e].0)[i].module_name);
            }
        }
        assert forall|j: int| 0 <= j < r.len() implies mod_path_of_entry(m, k, (#[trigger] r[j]).0) by {
            if j < s.len() {
                assert(r[j].0 == s[j].0);
                assert(mod_path_of_entry(m, k - 1, s[j].0));
                let (e, i) = choose|e: int, i: int|
                    0 <= e < k - 1 && 0 <= i < path_components_spec(m[e].0).len() && s[j].0 == #[trigger] mod_path(path_components_spec(m[e].0), i);
                assert(mod_path(path_components_spec(m[e].0), i) == r[j].0);
            } else {
                let t = choose|t: int| 0 <= t < comps.len() && r[j].0 == mod_path(comps, t);
                assert(mod_path(path_components_spec(m[k - 1].0), t) == r[j].0);
            }
        }
    } else {
        assert(collect(m, 0).2 == Seq::<(Seq<char>, ModView)>::empty());
    }
}

proof fn lemma_first_at_path_some(m: CodeMapView, p: Seq<char>, k: int, n: int)
    requires
        0 <= k < n,
        dest_source_path(m[k].0) == p,
    ensures
        first_at_path(m, p, n) is Some,
    decreases n,
{
    if n - 1 > k {
        lemma_first_at_path_some(m, p, k, n - 1);
    }
}

/// The files that `collect` starts from: the top `mod.rs` alone.
proof fn lemma_start_files(p: Seq<char>)
    ensures
        file_text(seq![("mod.rs"@, mod_rs_head())], p) == if p == "mod.rs"@ {
            Some(mod_rs_head())
        } else {
            None
        },
{
    let f = seq![("mod.rs"@, mod_rs_head())];
    let keys = f.map_values(|e: (Seq<char>, Seq<char>)| e.0);
    assert(keys =~= seq!["mod.rs"@]);
    if p == "mod.rs"@ {
        lemma_key_index_at(keys, p, 0);
    } else {
        lemma_key_index_absent(keys, p);
    }
}

/// The source files of a layout are at the paths of the entries' destinations.
proof fn lemma_source_keys_are_paths(m: CodeMapView, p: Seq<char>)
    requires
        forall|e: int| 0 <= e < m.len() ==> dest_source_path(m[e].0) != p,
    ensures
        forall|i: int| 0 <= i < collect(m, m.len() as int).1.len() ==> (#[trigger] collect(m, m.len() as int).1[i]).0 != p,
{
    let n = m.len() as int;
    lemma_collect_sources(m, n);
    let s = collect(m, n).1;
    assert forall|i: int| 0 <= i < s.len() implies (#[trigger] s[i]).0 != p by {
        lemma_first_at_path_range(m, s[i].0, n);
        let e = first_at_path(m, s[i].0, n).unwrap();
        assert(dest_source_path(m[e].0) == s[i].0);
    }
}

/// The file of the source path of each destination holds the code gathered there: its
/// documentation, the code that is not re-exported, then the re-exported code, this in a
/// module `reexport` of its own where both kinds are there (`source_text` of
/// `gathered_source`). A path that is also that of a `mod.rs` or of `vk.rs` is left out.
pub proof fn law_source_file_text(m: CodeMapView, orders: Seq<Seq<Seq<char>>>, k: int)
    requires
        0 <= k < m.len(),
        dest_source_path(m[k].0) != "vk.rs"@,
        dest_source_path(m[k].0) != "mod.rs"@,
        forall|r: int| 0 <= r < layout_mods(m).len() ==> layout_mods(m)[r].0 != dest_source_path(m[k].0),
    ensures
        file_text(layout(m, orders), dest_source_path(m[k].0)) == Some(
            source_text(gathered_source(m, dest_source_path(m[k].0), m.len() as int)),
        ),
{
    let n = m.len() as int;
    let p = dest_source_path(m[k].0);
    let c = collect(m, n);
    lemma_collect_sources(m, n);
    lemma_first_at_path_some(m, p, k, n);
    let i = choose|i: int| 0 <= i < c.1.len() && c.1[i].0 == p;
    assert(c.1[i].1 == gathered_source(m, p, n));
    lemma_start_files(p);
    lemma_write_sources_at(c.0, c.1, c.1.len() as int, p, i);
    let ws = write_sources(c.0, c.1, c.1.len() as int);
    assert forall|r: int| 0 <= r < c.2.len() implies c.2[r].0 != p by {
        assert(layout_mods(m)[r] == c.2[r]);
    }
    lemma_write_mods_other(ws, c.2, orders, c.2.len() as int, p);
    law_write_text(write_mods(ws, c.2, orders, c.2.len() as int), "vk.rs"@, vk_rs_tail(), p);
}

/// The `mod.rs` files of a layout: each path once; the top one alone without
/// documentation; each module of each destination's path declared in the `mod.rs` of its
/// parent, and no `mod.rs` but those. Each holds its documentation line, where it has
/// one, and declares its modules in the order given for it, each once; the top one has
/// the line that declares `vk` before. A path that is also a source path or `vk.rs` is
/// left out of the text.
pub proof fn law_mod_files(m: CodeMapView, orders: Seq<Seq<Seq<char>>>)
    requires
        orders_fit(layout_mods(m), orders),
    ensures
        mods_gathered(m, layout_mods(m), m.len() as int),
        forall|r: int|
            0 <= r < layout_mods(m).len() ==> (#[trigger] orders[r]).no_duplicates() && orders[r].to_set() == layout_mods(m)[r].1.child_modules,
        forall|r: int|
            0 <= r < layout_mods(m).len() && (#[trigger] layout_mods(m)[r]).0 != "vk.rs"@ && (forall|e: int|
                0 <= e < m.len() ==> dest_source_path(m[e].0) != layout_mods(m)[r].0) ==> file_text(layout(m, orders), layout_mods(m)[r].0) == Some(
                if layout_mods(m)[r].0 == "mod.rs"@ {
                    mod_rs_head() + " "@ + mod_text(layout_mods(m)[r].1.doc_comment, orders[r])
                } else {
                    mod_text(layout_mods(m)[r].1.doc_comment, orders[r])
                },
            ),
{
    let n = m.len() as int;
    let c = collect(m, n);
    lemma_collect_sources(m, n);
    lemma_collect_mods(m, n);
    let ws = write_sources(c.0, c.1, c.1.len() as int);
    assert forall|r: int|
        0 <= r < layout_mods(m).len() && (#[trigger] layout_mods(m)[r]).0 != "vk.rs"@ && (forall|e: int|
            0 <= e < m.len() ==> dest_source_path(m[e].0) != layout_mods(m)[r].0) implies file_text(layout(m, orders), layout_mods(m)[r].0)
        == Some(
        if layout_mods(m)[r].0 == "mod.rs"@ {
            mod_rs_head() + " "@ + mod_text(layout_mods(m)[r].1.doc_comment, orders[r])
        } else {
            mod_text(layout_mods(m)[r].1.doc_comment, orders[r])
        },
    ) by {
        let p = c.2[r].0;
        lemma_source_keys_are_paths(m, p);
        lemma_start_files(p);
        lemma_write_sources_other(c.0, c.1, c.1.len() as int, p);
        lemma_write_mods_at(ws, c.2, orders, c.2.len() as int, p, r);
        law_write_text(write_mods(ws, c.2, orders, c.2.len() as int), "vk.rs"@, vk_rs_tail(), p);
    }
}

/// The lines that `vk.rs` gathers from the first `j` source files: the re-export line of
/// each one with re-exported code, in order.
pub open spec fn vk_lines(s: SourcesView, j: int) -> Option<Seq<char>>
    decreases j,
{
    if j <= 0 {
        None
    } else {
        let f = s[j - 1].1;
        if !crate::text::blank(f.reexport_content) {
            Some(appended(vk_lines(s, j - 1), reexport_line(f.destination, f.content)))
        } else {
            vk_lines(s, j - 1)
        }
    }
}

proof fn lemma_write_sources_vk(files: FilesView, s: SourcesView, j: int)
    requires
        0 <= j <= s.len(),
        file_text(files, "vk.rs"@) is None,
        forall|i: int| 0 <= i < j ==> (#[trigger] s[i]).0 != "vk.rs"@,
    ensures
        file_text(write_sources(files, s, j), "vk.rs"@) == vk_lines(s, j),
    decreases j,
{
    reveal_with_fuel(write_sources, 1);
    if j > 0 {
        lemma_write_sources_vk(files, s, j - 1);
        let prev = write_sources(files, s, j - 1);
        let f = s[j - 1].1;
        assert(s[j - 1].0 != "vk.rs"@);
        if !crate::text::blank(f.reexport_content) {
            let line = reexport_line(f.destination, f.content);
            law_write_text(prev, "vk.rs"@, line, "vk.rs"@);
            law_write_text(write_spec(prev, "vk.rs"@, line), s[j - 1].0, source_text(f), "vk.rs"@);
        } else {
            law_write_text(prev, s[j - 1].0, source_text(f), "vk.rs"@);
        }
    }
}

/// The top `mod.rs` begins with the line that declares `vk`; `vk.rs` holds the re-export
/// line of each source file with re-exported code, in the order of the files, then the
/// re-exports of the runtime's traits. Maps with a destination whose source path is
/// `mod.rs` or `vk.rs`, or with a `mod.rs` at `vk.rs`, are left out.
pub proof fn law_root_files(m: CodeMapView, orders: Seq<Seq<Seq<char>>>)
    requires
        forall|e: int| 0 <= e < m.len() ==> dest_source_path(m[e].0) != "mod.rs"@ && dest_source_path(m[e].0) != "vk.rs"@,
        forall|r: int| 0 <= r < layout_mods(m).len() ==> layout_mods(m)[r].0 != "vk.rs"@,
    ensures
        file_text(layout(m, orders), "mod.rs"@) matches Some(t) && has_prefix(t, mod_rs_head()),
        file_text(layout(m, orders), "vk.rs"@) == Some(
            appended(vk_lines(collect(m, m.len() as int).1, collect(m, m.len() as int).1.len() as int), vk_rs_tail()),
        ),
{
    reveal_strlit("mod.rs");
    reveal_strlit("vk.rs");
    let n = m.len() as int;
    let c = collect(m, n);
    lemma_collect_sources(m, n);
    lemma_collect_mods(m, n);
    let ws = write_sources(c.0, c.1, c.1.len() as int);
    let wm = write_mods(ws, c.2, orders, c.2.len() as int);
    assert("vk.rs"@ != "mod.rs"@) by {
        assert("vk.rs"@.len() != "mod.rs"@.len());
    }
    assert forall|r: int| 0 <= r < c.2.len() implies c.2[r].0 != "vk.rs"@ by {
        assert(layout_mods(m)[r] == c.2[r]);
    }
    // vk.rs
    lemma_source_keys_are_paths(m, "vk.rs"@);
    lemma_start_files("vk.rs"@);
    lemma_write_sources_vk(c.0, c.1, c.1.len() as int);
    lemma_write_mods_other(ws, c.2, orders, c.2.len() as int, "vk.rs"@);
    law_write_text(wm, "vk.rs"@, vk_rs_tail(), "vk.rs"@);
    // mod.rs
    lemma_source_keys_are_paths(m, "mod.rs"@);
    lemma_start_files("mod.rs"@);
    lemma_write_sources_other(c.0, c.1, c.1.len() as int, "mod.rs"@);
    law_write_text(wm, "vk.rs"@, vk_rs_tail(), "mod.rs"@);
    if exists|r: int| 0 <= r < c.2.len() && c.2[r].0 == "mod.rs"@ {
        let r = choose|r: int| 0 <= r < c.2.len() && c.2[r].0 == "mod.rs"@;
        lemma_write_mods_at(ws, c.2, orders, c.2.len() as int, "mod.rs"@, r);
        let t = mod_rs_head() + " "@ + mod_text(c.2[r].1.doc_comment, orders[r as int]);
        assert(t.subrange(0, mod_rs_head().len() as int) =~= mod_rs_head());
    } else {
        lemma_write_mods_other(ws, c.2, orders, c.2.len() as int, "mod.rs"@);
        lemma_prefix_refl(mod_rs_head());
    }
}

proof fn lemma_blank_concat(a: Seq<char>, b: Seq<char>)
    ensures
        crate::text::blank(a + b) <==> crate::text::blank(a) && crate::text::blank(b),
{
    let c = a + b;
    if crate::text::blank(a) && crate::text::blank(b) {
        assert forall|i: int| 0 <= i < c.len() implies crate::text::is_space(#[trigger] c[i]) by {
            if i < a.len() {
                assert(c[i] == a[i]);
            } else {
                assert(c[i] == b[i - a.len()]);
            }
        }
    }
    if crate::text::blank(c) {
        assert forall|i: int| 0 <= i < a.len() implies crate::text::is_space(#[trigger] a[i]) by {
            assert(c[i] == a[i]);
        }
        assert forall|i: int| 0 <= i < b.len() implies crate::text::is_space(#[trigger] b[i]) by {
            assert(c[i + a.len()] == b[i]);
        }
    }
}

/// The code gathered at a path, of one kind, holds no tokens exactly when the code of
/// each entry of that path and kind holds none; so a source file has re-exported code,
/// and a line in `vk.rs`, exactly when some entry re-exported there has code.
pub proof fn law_gathered_blank(m: CodeMapView, path: Seq<char>, reexport: bool, k: int)
    requires
        0 <= k <= m.len(),
    ensures
        crate::text::blank(gathered(m, path, reexport, k)) <==> forall|e: int|
            0 <= e < k && dest_source_path(m[e].0) == path && m[e].0.reexport == reexport ==> crate::text::blank(#[trigger] m[e].1),
    decreases k,
{
    reveal_strlit(" ");
    if k > 0 {
        law_gathered_blank(m, path, reexport, k - 1);
        let d = m[k - 1].0;
        let piece = if dest_source_path(d) == path && d.reexport == reexport {
            " "@ + m[k - 1].1
        } else {
            Seq::<char>::empty()
        };
        lemma_blank_concat(gathered(m, path, reexport, k - 1), piece);
        lemma_blank_concat(" "@, m[k - 1].1);
        assert(crate::text::blank(" "@)) by {
            assert(" "@[0] == ' ');
        }
        assert(crate::text::blank(Seq::<char>::empty()));
    }
}

/// The size of each array in a type, its element's size times its length, fits in
/// `usize`.
pub open spec fn sizes_fit(t: TyView, items: Items, float: (usize, usize), double: (usize, usize)) -> bool
    decreases t,
{
    match t {
        TyView::Array(inner, len) => {
            &&& sizes_fit(*inner, items, float, double)
            &&& (layout_of(*inner, items, float, double) matches Some((_, s)) ==> s * array_length(items, len).unwrap() <= usize::MAX)
        },
        _ => true,
    }
}

/// A zeroable type, whose array lengths `bytemuck_is_zeroable` can read, is one that
/// `get_alignment_and_size` takes: it gives its layout without panicking, unless a size
/// overflows `usize`.
pub proof fn law_zeroable_layout_defined(t: TyView, items: Items, float: (usize, usize), double: (usize, usize))
    requires
        zeroable_defined(t, items),
        zeroable(t, items),
        sizes_fit(t, items, float, double),
    ensures
        layout_defined(t, items, float, double),
        layout_of(t, items, float, double) is Some,
    decreases t,
{
    law_zeroable_has_layout(t, items, float, double);
    if let TyView::Array(inner, len) = t {
        law_zeroable_layout_defined(*inner, items, float, double);
        assert(has_valid_length(items, len));
        assert(array_length(items, len) is Some);
    }
}

/// The `mod.rs` of a deeper level of a path has a longer path.
proof fn lemma_mod_path_grows(comps: Seq<ComponentView>, t: int)
    requires
        0 <= t < comps.len(),
    ensures
        mod_path(comps, t + 1).len() > mod_path(comps, t).len(),
{
    reveal_strlit("/");
    let names = module_names(comps);
    let a = names.take(t).push("mod.rs"@);
    let b = names.take(t + 1).push("mod.rs"@);
    assert(b.drop_last() =~= names.take(t + 1));
    assert(crate::text::join(b, "/"@) == crate::text::join(names.take(t + 1), "/"@) + "/"@ + "mod.rs"@);
    if t == 0 {
        assert(a =~= seq!["mod.rs"@]);
        assert(names.take(1) =~= seq![names[0]]);
        assert(crate::text::join(names.take(1), "/"@) == names[0]);
    } else {
        assert(a.drop_last() =~= names.take(t));
        assert(crate::text::join(a, "/"@) == crate::text::join(names.take(t), "/"@) + "/"@ + "mod.rs"@);
        assert(names.take(t + 1).drop_last() =~= names.take(t));
        assert(names.take(t + 1).last() == names[t]);
        assert(crate::text::join(names.take(t + 1), "/"@) == crate::text::join(names.take(t), "/"@) + "/"@ + names[t]);
    }
}

proof fn lemma_mod_paths_distinct(comps: Seq<ComponentView>, t1: int, t2: int)
    requires
        0 <= t1 < t2 <= comps.len(),
    ensures
        mod_path(comps, t1).len() < mod_path(comps, t2).len(),
    decreases t2 - t1,
{
    lemma_mod_path_grows(comps, t2 - 1);
    if t1 < t2 - 1 {
        lemma_mod_paths_distinct(comps, t1, t2 - 1);
    }
}

/// The documentation that `collect` gives the `mod.rs` of level `t` of a path.
pub open spec fn level_doc(comps: Seq<ComponentView>, t: int) -> Option<Seq<char>> {
    if t > 0 {
        Some(comps[t - 1].doc_comment)
    } else {
        None
    }
}

proof fn lemma_first_add_mods(comps: Seq<ComponentView>, i: int)
    requires
        0 <= i <= comps.len(),
    ensures
        add_mods(Seq::empty(), comps, i).len() == i,
        forall|t: int| 0 <= t < i ==> (#[trigger] add_mods(Seq::empty(), comps, i)[t]).0 == mod_path(comps, t)
            && add_mods(Seq::empty(), comps, i)[t].1.doc_comment == level_doc(comps, t),
    decreases i,
{
    reveal_with_fuel(add_mods, 1);
    if i > 0 {
        lemma_first_add_mods(comps, i - 1);
        let prev = add_mods(Seq::empty(), comps, i - 1);
        let path = mod_path(comps, i - 1);
        assert forall|t: int| 0 <= t < i - 1 implies prev[t].0 != path by {
            lemma_mod_paths_distinct(comps, t, i - 1);
        }
        assert forall|j: int| 0 <= j < prev.len() implies mod_keys(prev)[j] != path by {
            assert(mod_keys(prev)[j] == prev[j].0);
        }
        lemma_key_index_absent(mod_keys(prev), path);
        let s1 = prev.push((path, ModView { doc_comment: level_doc(comps, i - 1), child_modules: Set::empty() }));
        let keys1 = mod_keys(s1);
        assert forall|j: int| 0 <= j < i - 1 implies keys1[j] != path by {
            assert(keys1[j] == s1[j].0);
        }
        lemma_key_index_at(keys1, path, i - 1);
        let r = add_mods(Seq::empty(), comps, i);
        assert forall|t: int| 0 <= t < i implies (#[trigger] r[t]).0 == mod_path(comps, t) && r[t].1.doc_comment == level_doc(comps, t) by {
            if t < i - 1 {
                assert(r[t] == prev[t]);
            }
        }
    }
}

proof fn lemma_collect_mods_grow(m: CodeMapView, k: int)
    requires
        1 <= k <= m.len(),
    ensures
        mods_grow(collect(m, 1).2, collect(m, k).2),
    decreases k,
{
    if k > 1 {
        lemma_collect_mods_grow(m, k - 1);
        lemma_collect_mods(m, k - 1);
        reveal_with_fuel(collect, 1);
        let s = collect(m, k - 1).2;
        let comps = path_components_spec(m[k - 1].0);
        lemma_add_mods(s, comps, comps.len() as int);
        lemma_mods_grow_trans(collect(m, 1).2, s, collect(m, k).2);
    } else {
        assert forall|j: int| 0 <= j < collect(m, 1).2.len() implies collect(m, 1).2[j].1.child_modules.subset_of(
            collect(m, 1).2[j].1.child_modules,
        ) by {}
    }
}

/// The `mod.rs` of each level of the path of the first destination of a map are the
/// first `mod.rs` files, in level order, each with the documentation of the module above
/// it and the top one with none: the documentation that destination gives them. (A later
/// destination that shares a `mod.rs`, such as another extension with the same tag spelt
/// otherwise, finds the documentation already set.)
pub proof fn law_first_entry_mod_docs(m: CodeMapView)
    requires
        m.len() > 0,
    ensures
        layout_mods(m).len() >= path_components_spec(m[0].0).len(),
        forall|t: int|
            0 <= t < path_components_spec(m[0].0).len() ==> (#[trigger] layout_mods(m)[t]).0 == mod_path(path_components_spec(m[0].0), t)
                && layout_mods(m)[t].1.doc_comment == level_doc(path_components_spec(m[0].0), t),
{
    let comps = path_components_spec(m[0].0);
    reveal_with_fuel(collect, 2);
    assert(collect(m, 0).2 == Seq::<(Seq<char>, ModView)>::empty());
    assert(collect(m, 1).2 == add_mods(Seq::empty(), comps, comps.len() as int));
    lemma_first_add_mods(comps, comps.len() as int);
    lemma_collect_mods_grow(m, m.len() as int);
    let first = collect(m, 1).2;
    assert forall|t: int| 0 <= t < comps.len() implies (#[trigger] layout_mods(m)[t]).0 == mod_path(comps, t)
        && layout_mods(m)[t].1.doc_comment == level_doc(comps, t) by {
        assert(first[t].0 == mod_path(comps, t));
    }
}

} // verus!

verus! {

/// The C spelling of a fixed-width integer type: `int`, or `uint` where `unsigned`, then
/// the width in bits, then `_t`.
pub open spec fn fixed_width_name(unsigned: bool, width: Seq<char>) -> Seq<char> {
    (if unsigned {
        "uint"@
    } else {
        "int"@
    }) + width + "_t"@
}

/// The fixed-width integer types of C are the four widths, signed and unsigned.
proof fn lemma_fixed_width_cases(unsigned: bool, w: Seq<char>, p: CPrimaryType)
    requires
        primary_type_of(fixed_width_name(unsigned, w)) == Some(p),
    ensures
        w == "8"@ || w == "16"@ || w == "32"@ || w == "64"@,
        w == "8"@ ==> p == (if unsigned { CPrimaryType::UInt8 } else { CPrimaryType::Int8 }),
        w == "16"@ ==> p == (if unsigned { CPrimaryType::UInt16 } else { CPrimaryType::Int16 }),
        w == "32"@ ==> p == (if unsigned { CPrimaryType::UInt32 } else { CPrimaryType::Int32 }),
        w == "64"@ ==> p == (if unsigned { CPrimaryType::UInt64 } else { CPrimaryType::Int64 }),
{
    reveal_strlit("void");
    reveal_strlit("char");
    reveal_strlit("int");
    reveal_strlit("float");
    reveal_strlit("double");
    reveal_strlit("int8_t");
    reveal_strlit("uint8_t");
    reveal_strlit("int16_t");
    reveal_strlit("uint16_t");
    reveal_strlit("int32_t");
    reveal_strlit("uint32_t");
    reveal_strlit("int64_t");
    reveal_strlit("uint64_t");
    reveal_strlit("size_t");
    reveal_strlit("uint");
    reveal_strlit("_t");
    reveal_strlit("8");
    reveal_strlit("16");
    reveal_strlit("32");
    reveal_strlit("64");
    let head = if unsigned {
        "uint"@
    } else {
        "int"@
    };
    let s = fixed_width_name(unsigned, w);
    let h = head.len() as int;
    assert(s.len() == h + w.len() + 2);
    assert forall|j: int| 0 <= j < h implies s[j] == head[j] by {}
    assert forall|j: int| 0 <= j < w.len() implies s[h + j] == w[j] by {}
    assert(s[s.len() - 2] == '_' && s[s.len() - 1] == 't');
    assert(s[0] == head[0]);
    if w.len() == 1 {
        assert(w =~= seq![s[h]]);
    } else if w.len() == 2 {
        assert(w =~= seq![s[h], s[h + 1]]);
    }
    if unsigned {
        assert(s[0] == 'u' && s[1] == 'i' && s[2] == 'n' && s[3] == 't');
        if s == "uint8_t"@ {
            assert(w =~= "8"@);
        } else if s == "uint16_t"@ {
            assert(w =~= "16"@);
        } else if s == "uint32_t"@ {
            assert(w =~= "32"@);
        } else if s == "uint64_t"@ {
            assert(w =~= "64"@);
        } else {
            assert(s != "void"@ && s != "char"@ && s != "float"@ && s != "double"@ && s != "size_t"@ && s != "int"@);
            assert(s != "int8_t"@ && s != "int16_t"@ && s != "int32_t"@ && s != "int64_t"@);
            assert(false);
        }
    } else {
        assert(s[0] == 'i' && s[1] == 'n' && s[2] == 't');
        if s == "int8_t"@ {
            assert(w =~= "8"@);
        } else if s == "int16_t"@ {
            assert(w =~= "16"@);
        } else if s == "int32_t"@ {
            assert(w =~= "32"@);
        } else if s == "int64_t"@ {
            assert(w =~= "64"@);
        } else {
            assert(s != "void"@ && s != "char"@ && s != "float"@ && s != "double"@ && s != "size_t"@);
            assert(s != "int"@);
            assert(s != "uint8_t"@ && s != "uint16_t"@ && s != "uint32_t"@ && s != "uint64_t"@);
            assert(false);
        }
    }
}

/// Each fixed-width integer type of C is written as the Rust integer of the same width and
/// signedness: `int<N>_t` as `i<N>`, `uint<N>_t` as `u<N>`.
pub proof fn law_fixed_width_rust_type(unsigned: bool, width: Seq<char>, p: CPrimaryType)
    requires
        primary_type_of(fixed_width_name(unsigned, width)) == Some(p),
    ensures
        crate::to_rust::primary_text(p) == (if unsigned {
            "u"@
        } else {
            "i"@
        }) + width,
{
    lemma_fixed_width_cases(unsigned, width, p);
    reveal_strlit("u");
    reveal_strlit("i");
    reveal_strlit("8");
    reveal_strlit("16");
    reveal_strlit("32");
    reveal_strlit("64");
    reveal_strlit("i8");
    reveal_strlit("u8");
    reveal_strlit("i16");
    reveal_strlit("u16");
    reveal_strlit("i32");
    reveal_strlit("u32");
    reveal_strlit("i64");
    reveal_strlit("u64");
    let want = (if unsigned {
        "u"@
    } else {
        "i"@
    }) + width;
    assert(crate::to_rust::primary_text(p) =~= want);
}

/// The layout of the Rust integer type of a given name: its size and alignment.
pub open spec fn rust_int_layout(name: Seq<char>) -> Option<(int, int)> {
    if name == "i8"@ {
        Some((size_of::<i8>() as int, align_of::<i8>() as int))
    } else if name == "u8"@ {
        Some((size_of::<u8>() as int, align_of::<u8>() as int))
    } else if name == "i16"@ {
        Some((size_of::<i16>() as int, align_of::<i16>() as int))
    } else if name == "u16"@ {
        Some((size_of::<u16>() as int, align_of::<u16>() as int))
    } else if name == "i32"@ {
        Some((size_of::<i32>() as int, align_of::<i32>() as int))
    } else if name == "u32"@ {
        Some((size_of::<u32>() as int, align_of::<u32>() as int))
    } else if name == "i64"@ {
        Some((size_of::<i64>() as int, align_of::<i64>() as int))
    } else if name == "u64"@ {
        Some((size_of::<u64>() as int, align_of::<u64>() as int))
    } else if name == "usize"@ {
        Some((size_of::<usize>() as int, align_of::<usize>() as int))
    } else {
        None
    }
}

/// A primary type that is written as a Rust integer type is laid out as that Rust type:
/// its size and alignment are those of the type it is written as.
pub proof fn law_integer_layout_is_rust_layout(p: CPrimaryType, items: Items, float: (usize, usize), double: (usize, usize))
    requires
        rust_int_layout(crate::to_rust::primary_text(p)) is Some,
    ensures
        layout_of(TyView::CPrimary(p), items, float, double) == rust_int_layout(crate::to_rust::primary_text(p)),
{
    reveal_strlit("i8");
    reveal_strlit("u8");
    reveal_strlit("i16");
    reveal_strlit("u16");
    reveal_strlit("i32");
    reveal_strlit("u32");
    reveal_strlit("i64");
    reveal_strlit("u64");
    reveal_strlit("usize");
    reveal_strlit("core::ffi::c_void");
    reveal_strlit("core::ffi::c_char");
    reveal_strlit("core::ffi::c_int");
    reveal_strlit("core::ffi::c_float");
    reveal_strlit("core::ffi::c_double");
    let t = crate::to_rust::primary_text(p);
    match p {
        CPrimaryType::Void | CPrimaryType::Char | CPrimaryType::Int | CPrimaryType::Float | CPrimaryType::Double => {
            assert(t.len() > 5);
            assert(t != "i8"@ && t != "u8"@ && t != "i16"@ && t != "u16"@ && t != "i32"@ && t != "u32"@ && t != "i64"@ && t != "u64"@
                && t != "usize"@);
        },
        CPrimaryType::Int8 => {
            assert("i8"@[0] == 'i' && "i8"@[1] == '8' && "u8"@[0] == 'u' && "u8"@[1] == '8' && "i16"@[0] == 'i' && "i16"@[1] == '1' && "u16"@[0] == 'u' && "u16"@[1] == '1' && "i32"@[0] == 'i' && "i32"@[1] == '3' && "u32"@[0] == 'u' && "u32"@[1] == '3' && "i64"@[0] == 'i' && "i64"@[1] == '6' && "u64"@[0] == 'u' && "u64"@[1] == '6');
            assert(t[0] == 'i' && t[1] == '8');
            assert(t == "i8"@);
        },
        CPrimaryType::UInt8 => {
            assert("i8"@[0] == 'i' && "i8"@[1] == '8' && "u8"@[0] == 'u' && "u8"@[1] == '8' && "i16"@[0] == 'i' && "i16"@[1] == '1' && "u16"@[0] == 'u' && "u16"@[1] == '1' && "i32"@[0] == 'i' && "i32"@[1] == '3' && "u32"@[0] == 'u' && "u32"@[1] == '3' && "i64"@[0] == 'i' && "i64"@[1] == '6' && "u64"@[0] == 'u' && "u64"@[1] == '6');
            assert(t[0] == 'u' && t[1] == '8');
            assert(t != "i8"@ && t == "u8"@);
        },
        CPrimaryType::Int16 => {
            assert("i8"@[0] == 'i' && "i8"@[1] == '8' && "u8"@[0] == 'u' && "u8"@[1] == '8' && "i16"@[0] == 'i' && "i16"@[1] == '1' && "u16"@[0] == 'u' && "u16"@[1] == '1' && "i32"@[0] == 'i' && "i32"@[1] == '3' && "u32"@[0] == 'u' && "u32"@[1] == '3' && "i64"@[0] == 'i' && "i64"@[1] == '6' && "u64"@[0] == 'u' && "u64"@[1] == '6');
            assert(t[0] == 'i' && t[1] == '1');
            assert(t != "i8"@ && t != "u8"@ && t == "i16"@);
        },
        CPrimaryType::UInt16 => {
            assert("i8"@[0] == 'i' && "i8"@[1] == '8' && "u8"@[0] == 'u' && "u8"@[1] == '8' && "i16"@[0] == 'i' && "i16"@[1] == '1' && "u16"@[0] == 'u' && "u16"@[1] == '1' && "i32"@[0] == 'i' && "i32"@[1] == '3' && "u32"@[0] == 'u' && "u32"@[1] == '3' && "i64"@[0] == 'i' && "i64"@[1] == '6' && "u64"@[0] == 'u' && "u64"@[1] == '6');
            assert(t[0] == 'u' && t[1] == '1');
            assert(t != "i8"@ && t != "u8"@ && t != "i16"@ && t == "u16"@);
        },
        CPrimaryType::Int32 => {
            assert("i8"@[0] == 'i' && "i8"@[1] == '8' && "u8"@[0] == 'u' && "u8"@[1] == '8' && "i16"@[0] == 'i' && "i16"@[1] == '1' && "u16"@[0] == 'u' && "u16"@[1] == '1' && "i32"@[0] == 'i' && "i32"@[1] == '3' && "u32"@[0] == 'u' && "u32"@[1] == '3' && "i64"@[0] == 'i' && "i64"@[1] == '6' && "u64"@[0] == 'u' && "u64"@[1] == '6');
            assert(t[0] == 'i' && t[1] == '3');
            assert(t != "i8"@ && t != "u8"@ && t != "i16"@ && t != "u16"@ && t == "i32"@);
        },
        CPrimaryType::UInt32 => {
            assert("i8"@[0] == 'i' && "i8"@[1] == '8' && "u8"@[0] == 'u' && "u8"@[1] == '8' && "i16"@[0] == 'i' && "i16"@[1] == '1' && "u16"@[0] == 'u' && "u16"@[1] == '1' && "i32"@[0] == 'i' && "i32"@[1] == '3' && "u32"@[0] == 'u' && "u32"@[1] == '3' && "i64"@[0] == 'i' && "i64"@[1] == '6' && "u64"@[0] == 'u' && "u64"@[1] == '6');
            assert(t[0] == 'u' && t[1] == '3');
            assert(t != "i8"@ && t != "u8"@ && t != "i16"@ && t != "u16"@ && t != "i32"@ && t == "u32"@);
        },
        CPrimaryType::Int64 => {
            assert("i8"@[0] == 'i' && "i8"@[1] == '8' && "u8"@[0] == 'u' && "u8"@[1] == '8' && "i16"@[0] == 'i' && "i16"@[1] == '1' && "u16"@[0] == 'u' && "u16"@[1] == '1' && "i32"@[0] == 'i' && "i32"@[1] == '3' && "u32"@[0] == 'u' && "u32"@[1] == '3' && "i64"@[0] == 'i' && "i64"@[1] == '6' && "u64"@[0] == 'u' && "u64"@[1] == '6');
            assert(t[0] == 'i' && t[1] == '6');
            assert(t != "i8"@ && t != "u8"@ && t != "i16"@ && t != "u16"@ && t != "i32"@ && t != "u32"@ && t == "i64"@);
        },
        CPrimaryType::UInt64 => {
            assert("i8"@[0] == 'i' && "i8"@[1] == '8' && "u8"@[0] == 'u' && "u8"@[1] == '8' && "i16"@[0] == 'i' && "i16"@[1] == '1' && "u16"@[0] == 'u' && "u16"@[1] == '1' && "i32"@[0] == 'i' && "i32"@[1] == '3' && "u32"@[0] == 'u' && "u32"@[1] == '3' && "i64"@[0] == 'i' && "i64"@[1] == '6' && "u64"@[0] == 'u' && "u64"@[1] == '6');
            assert(t[0] == 'u' && t[1] == '6');
            assert(t != "i8"@ && t != "u8"@ && t != "i16"@ && t != "u16"@ && t != "i32"@ && t != "u32"@ && t != "i64"@ && t == "u64"@);
        },
        CPrimaryType::Size => assert(t.len() == 5 && t == "usize"@),
    }
}

/// A fixed-width integer type of C takes as many bytes as its width in bits over eight,
/// and is laid out as the Rust integer of that width and signedness.
pub proof fn law_fixed_width_layout(
    unsigned: bool,
    width: Seq<char>,
    p: CPrimaryType,
    items: Items,
    float: (usize, usize),
    double: (usize, usize),
)
    requires
        primary_type_of(fixed_width_name(unsigned, width)) == Some(p),
    ensures
        layout_of(TyView::CPrimary(p), items, float, double) matches Some((size, _)) && size * 8 == digits_value(width),
        layout_of(TyView::CPrimary(p), items, float, double) == rust_int_layout(
            (if unsigned {
                "u"@
            } else {
                "i"@
            }) + width,
        ),
{
    broadcast use vstd::layout::layout_of_primitives;
    lemma_fixed_width_cases(unsigned, width, p);
    law_fixed_width_rust_type(unsigned, width, p);
    reveal_strlit("8");
    reveal_strlit("16");
    reveal_strlit("32");
    reveal_strlit("64");
    reveal_with_fuel(digits_value, 3);
    assert(size_of::<i8>() == 1 && size_of::<u16>() == 2 && size_of::<i32>() == 4 && size_of::<u64>() == 8);
    assert(size_of::<u8>() == 1 && size_of::<i16>() == 2 && size_of::<u32>() == 4 && size_of::<i64>() == 8);
    if width == "8"@ {
        assert(digits_value("8"@) == 8);
    } else if width == "16"@ {
        assert("16"@.drop_last() =~= "1"@) by { reveal_strlit("1"); }
        reveal_strlit("1");
        assert(digits_value("16"@) == 16);
    } else if width == "32"@ {
        assert("32"@.drop_last() =~= "3"@) by { reveal_strlit("3"); }
        reveal_strlit("3");
        assert(digits_value("32"@) == 32);
    } else {
        assert("64"@.drop_last() =~= "6"@) by { reveal_strlit("6"); }
        reveal_strlit("6");
        assert(digits_value("64"@) == 64);
    }
    law_integer_layout_is_rust_layout(p, items, float, double);
}

/// A numeric constant is declared with the Rust type that the type translator gives its
/// own C type, and a string constant as a reference to a C string; the value is the text
/// of its expression.
pub proof fn law_constant_declares_its_type(ctx: &Context, c: crate::items::Constant, lifetime: Seq<char>)
    ensures
        c.ty matches crate::items::ConstantType::Integer(p) ==> crate::item::constant_code_text(ctx, c) == "pub const "@ + ctx.constant_text(
            c.name@,
            false,
        ) + ": "@ + crate::to_rust::ty_text(ctx, TyView::CPrimary(p), lifetime) + " = "@ + crate::to_rust::cexpr_text(ctx, c.value@) + ";"@,
        c.ty is String ==> crate::item::constant_code_text(ctx, c) == "pub const "@ + ctx.constant_text(c.name@, false) + ": & "@
            + ctx.rust_type_text(crate::decl::RustType::CStr) + " = "@ + crate::to_rust::cexpr_text(ctx, c.value@) + ";"@,
{
    reveal_strlit("& core::ffi::CStr");
    reveal_strlit("& ");
    reveal_strlit("core::ffi::CStr");
    reveal_strlit(": ");
    reveal_strlit(": & ");
    if c.ty is String {
        assert(": "@ + "& core::ffi::CStr"@ =~= ": & "@ + "core::ffi::CStr"@);
        assert("& core::ffi::CStr"@ =~= "& "@ + "core::ffi::CStr"@);
        assert(crate::item::constant_code_text(ctx, c) =~= "pub const "@ + ctx.constant_text(c.name@, false) + ": & "@ + ctx.rust_type_text(
            crate::decl::RustType::CStr,
        ) + " = "@ + crate::to_rust::cexpr_text(ctx, c.value@) + ";"@);
    }
}

/// A constant of a fixed-width C integer type is declared with the Rust integer of the same
/// width and signedness: a `uint64_t` constant is a `u64`, an `int32_t` one an `i32`.
pub proof fn law_fixed_width_constant(ctx: &Context, c: crate::items::Constant, unsigned: bool, width: Seq<char>, p: CPrimaryType)
    requires
        primary_type_of(fixed_width_name(unsigned, width)) == Some(p),
        c.ty == crate::items::ConstantType::Integer(p),
    ensures
        crate::item::constant_code_text(ctx, c) == "pub const "@ + ctx.constant_text(c.name@, false) + ": "@ + ((if unsigned {
            "u"@
        } else {
            "i"@
        }) + width) + " = "@ + crate::to_rust::cexpr_text(ctx, c.value@) + ";"@,
{
    law_fixed_width_rust_type(unsigned, width, p);
    law_constant_declares_its_type(ctx, c, "'_"@);
}

/// A bit given by an expression is the constant of that expression's value, written as an
/// enum value given by the same expression is; only a bit given by its position is `1`
/// shifted left by the position.
pub proof fn law_bit_values(ctx: &Context, bits: Seq<char>, owner: Seq<char>, e: Vec<crate::xml::CExprItem>, pos: u8)
    ensures
        crate::item::bit_value_text(ctx, bits, crate::items::BitValue::Expr(e)) == "Self("@ + crate::to_rust::cexpr_text(ctx, e@) + ")"@,
        crate::item::bit_value_text(ctx, bits, crate::items::BitValue::Expr(e)) == crate::item::enum_value_text(
            ctx,
            owner,
            crate::items::EnumValue::Expr(e),
        ),
        crate::item::bit_value_text(ctx, bits, crate::items::BitValue::BitPos(pos)) == "Self(1 << "@ + decimal(pos as nat) + ")"@,
{
}

/// Whether `t` ends `s`.
pub open spec fn has_suffix(s: Seq<char>, t: Seq<char>) -> bool {
    t.len() <= s.len() && s.subrange(s.len() - t.len(), s.len() as int) == t
}

/// The loader of a table field declares a stand-in function under the field's name that
/// panics with "unable to load" and the command's name, looks the command up by its name
/// as a C string, and yields the stand-in exactly when the lookup gives a null pointer,
/// the pointer found otherwise.
pub proof fn law_loader_uses_found_pointer(ctx: &Context, name: Seq<char>, c: crate::function::CommandView)
    ensures
        has_prefix(
            crate::loader::loader_piece(ctx, name, c),
            crate::loader::field_name_text(name) + ": unsafe { unsafe extern \"system\" fn "@ + crate::loader::field_name_text(name) + "("@,
        ),
        has_suffix(
            crate::loader::loader_piece(ctx, name, c),
            " { panic!("@ + crate::ident::str_literal("unable to load "@ + name) + ") } let val = _f("@ + crate::ident::c_str_literal(name)
                + "); if val.is_null() { "@ + crate::loader::field_name_text(name) + " } else { ::core::mem::transmute(val) } },"@,
        ),
{
    let field = crate::loader::field_name_text(name);
    let head = field + ": unsafe { unsafe extern \"system\" fn "@ + field + "("@;
    let mid = crate::loader::params_text(ctx, c.params) + ") "@ + crate::loader::ret_text(ctx, c.return_type);
    let tail = " { panic!("@ + crate::ident::str_literal("unable to load "@ + name) + ") } let val = _f("@ + crate::ident::c_str_literal(name)
        + "); if val.is_null() { "@ + field + " } else { ::core::mem::transmute(val) } },"@;
    let piece = crate::loader::loader_piece(ctx, name, c);
    assert(piece =~= head + mid + tail);
    assert(piece.subrange(0, head.len() as int) =~= head);
    assert(piece.subrange(piece.len() - tail.len(), piece.len() as int) =~= tail);
}

/// The C types that are not fixed-width integers are written as the `core::ffi` type of
/// their C name (`void` as `core::ffi::c_void`, `double` as `core::ffi::c_double`), and
/// `size_t` as `usize`.
pub proof fn law_other_primary_rust_types(name: Seq<char>, p: CPrimaryType)
    requires
        primary_type_of(name) == Some(p),
        !has_suffix(name, "_t"@),
    ensures
        crate::to_rust::primary_text(p) == "core::ffi::c_"@ + name,
{
    reveal_strlit("_t");
    reveal_strlit("void");
    reveal_strlit("char");
    reveal_strlit("int");
    reveal_strlit("float");
    reveal_strlit("double");
    reveal_strlit("core::ffi::c_");
    reveal_strlit("core::ffi::c_void");
    reveal_strlit("core::ffi::c_char");
    reveal_strlit("core::ffi::c_int");
    reveal_strlit("core::ffi::c_float");
    reveal_strlit("core::ffi::c_double");
    reveal_strlit("int8_t");
    reveal_strlit("uint8_t");
    reveal_strlit("int16_t");
    reveal_strlit("uint16_t");
    reveal_strlit("int32_t");
    reveal_strlit("uint32_t");
    reveal_strlit("int64_t");
    reveal_strlit("uint64_t");
    reveal_strlit("size_t");
    if name.len() >= 2 && name[name.len() - 2] == '_' && name[name.len() - 1] == 't' {
        assert(name.subrange(name.len() - 2, name.len() as int) =~= "_t"@);
    }
    assert(crate::to_rust::primary_text(p) =~= "core::ffi::c_"@ + name);
}

/// The C name of each primary type is recognised as that type.
proof fn lemma_primary_names()
    ensures
        primary_type_of("void"@) == Some(CPrimaryType::Void),
        primary_type_of("char"@) == Some(CPrimaryType::Char),
        primary_type_of("int"@) == Some(CPrimaryType::Int),
        primary_type_of("float"@) == Some(CPrimaryType::Float),
        primary_type_of("double"@) == Some(CPrimaryType::Double),
        primary_type_of("int8_t"@) == Some(CPrimaryType::Int8),
        primary_type_of("uint8_t"@) == Some(CPrimaryType::UInt8),
        primary_type_of("int16_t"@) == Some(CPrimaryType::Int16),
        primary_type_of("uint16_t"@) == Some(CPrimaryType::UInt16),
        primary_type_of("int32_t"@) == Some(CPrimaryType::Int32),
        primary_type_of("uint32_t"@) == Some(CPrimaryType::UInt32),
        primary_type_of("int64_t"@) == Some(CPrimaryType::Int64),
        primary_type_of("uint64_t"@) == Some(CPrimaryType::UInt64),
        primary_type_of("size_t"@) == Some(CPrimaryType::Size),
{
    reveal_strlit("void");
    reveal_strlit("char");
    reveal_strlit("int");
    reveal_strlit("float");
    reveal_strlit("double");
    reveal_strlit("int8_t");
    reveal_strlit("uint8_t");
    reveal_strlit("int16_t");
    reveal_strlit("uint16_t");
    reveal_strlit("int32_t");
    reveal_strlit("uint32_t");
    reveal_strlit("int64_t");
    reveal_strlit("uint64_t");
    reveal_strlit("size_t");
    assert("char"@[0] != "void"@[0]);
    assert("int"@.len() != "void"@.len());
    assert("int"@.len() != "char"@.len());
    assert("float"@.len() != "void"@.len());
    assert("float"@.len() != "char"@.len());
    assert("float"@.len() != "int"@.len());
    assert("double"@.len() != "void"@.len());
    assert("double"@.len() != "char"@.len());
    assert("double"@.len() != "int"@.len());
    assert("double"@.len() != "float"@.len());
    assert("int8_t"@.len() != "void"@.len());
    assert("int8_t"@.len() != "char"@.len());
    assert("int8_t"@.len() != "int"@.len());
    assert("int8_t"@.len() != "float"@.len());
    assert("int8_t"@[0] != "double"@[0]);
    assert("uint8_t"@.len() != "void"@.len());
    assert("uint8_t"@.len() != "char"@.len());
    assert("uint8_t"@.len() != "int"@.len());
    assert("uint8_t"@.len() != "float"@.len());
    assert("uint8_t"@.len() != "double"@.len());
    assert("uint8_t"@.len() != "int8_t"@.len());
    assert("int16_t"@.len() != "void"@.len());
    assert("int16_t"@.len() != "char"@.len());
    assert("int16_t"@.len() != "int"@.len());
    assert("int16_t"@.len() != "float"@.len());
    assert("int16_t"@.len() != "double"@.len());
    assert("int16_t"@.len() != "int8_t"@.len());
    assert("int16_t"@[0] != "uint8_t"@[0]);
    assert("uint16_t"@.len() != "void"@.len());
    assert("uint16_t"@.len() != "char"@.len());
    assert("uint16_t"@.len() != "int"@.len());
    assert("uint16_t"@.len() != "float"@.len());
    assert("uint16_t"@.len() != "double"@.len());
    assert("uint16_t"@.len() != "int8_t"@.len());
    assert("uint16_t"@.len() != "uint8_t"@.len());
    assert("uint16_t"@.len() != "int16_t"@.len());
    assert("int32_t"@.len() != "void"@.len());
    assert("int32_t"@.len() != "char"@.len());
    assert("int32_t"@.len() != "int"@.len());
    assert("int32_t"@.len() != "float"@.len());
    assert("int32_t"@.len() != "double"@.len());
    assert("int32_t"@.len() != "int8_t"@.len());
    assert("int32_t"@[0] != "uint8_t"@[0]);
    assert("int32_t"@[3] != "int16_t"@[3]);
    assert("int32_t"@.len() != "uint16_t"@.len());
    assert("uint32_t"@.len() != "void"@.len());
    assert("uint32_t"@.len() != "char"@.len());
    assert("uint32_t"@.len() != "int"@.len());
    assert("uint32_t"@.len() != "float"@.len());
    assert("uint32_t"@.len() != "double"@.len());
    assert("uint32_t"@.len() != "int8_t"@.len());
    assert("uint32_t"@.len() != "uint8_t"@.len());
    assert("uint32_t"@.len() != "int16_t"@.len());
    assert("uint32_t"@[4] != "uint16_t"@[4]);
    assert("uint32_t"@.len() != "int32_t"@.len());
    assert("int64_t"@.len() != "void"@.len());
    assert("int64_t"@.len() != "char"@.len());
    assert("int64_t"@.len() != "int"@.len());
    assert("int64_t"@.len() != "float"@.len());
    assert("int64_t"@.len() != "double"@.len());
    assert("int64_t"@.len() != "int8_t"@.len());
    assert("int64_t"@[0] != "uint8_t"@[0]);
    assert("int64_t"@[3] != "int16_t"@[3]);
    assert("int64_t"@.len() != "uint16_t"@.len());
    assert("int64_t"@[3] != "int32_t"@[3]);
    assert("int64_t"@.len() != "uint32_t"@.len());
    assert("uint64_t"@.len() != "void"@.len());
    assert("uint64_t"@.len() != "char"@.len());
    assert("uint64_t"@.len() != "int"@.len());
    assert("uint64_t"@.len() != "float"@.len());
    assert("uint64_t"@.len() != "double"@.len());
    assert("uint64_t"@.len() != "int8_t"@.len());
    assert("uint64_t"@.len() != "uint8_t"@.len());
    assert("uint64_t"@.len() != "int16_t"@.len());
    assert("uint64_t"@[4] != "uint16_t"@[4]);
    assert("uint64_t"@.len() != "int32_t"@.len());
    assert("uint64_t"@[4] != "uint32_t"@[4]);
    assert("uint64_t"@.len() != "int64_t"@.len());
    assert("size_t"@.len() != "void"@.len());
    assert("size_t"@.len() != "char"@.len());
    assert("size_t"@.len() != "int"@.len());
    assert("size_t"@.len() != "float"@.len());
    assert("size_t"@[0] != "double"@[0]);
    assert("size_t"@[0] != "int8_t"@[0]);
    assert("size_t"@.len() != "uint8_t"@.len());
    assert("size_t"@.len() != "int16_t"@.len());
    assert("size_t"@.len() != "uint16_t"@.len());
    assert("size_t"@.len() != "int32_t"@.len());
    assert("size_t"@.len() != "uint32_t"@.len());
    assert("size_t"@.len() != "int64_t"@.len());
    assert("size_t"@.len() != "uint64_t"@.len());
}

/// `size_t` is written as `usize` and laid out as it.
pub proof fn law_size_t(p: CPrimaryType, items: Items, float: (usize, usize), double: (usize, usize))
    requires
        primary_type_of("size_t"@) == Some(p),
    ensures
        crate::to_rust::primary_text(p) == "usize"@,
        layout_of(TyView::CPrimary(p), items, float, double) == rust_int_layout("usize"@),
{
    lemma_primary_names();
    law_integer_layout_is_rust_layout(p, items, float, double);
}

/// `int` is laid out as `uint32_t`; `float` and `double` as the layouts given for them;
/// `void` and `char` have no layout. A primary type has a layout exactly when it is
/// zeroable.
pub proof fn law_other_primary_layouts(p: CPrimaryType, q: CPrimaryType, items: Items, float: (usize, usize), double: (usize, usize))
    requires
        primary_type_of("uint32_t"@) == Some(q),
    ensures
        primary_type_of("int"@) matches Some(i) && layout_of(TyView::CPrimary(i), items, float, double) == layout_of(
            TyView::CPrimary(q),
            items,
            float,
            double,
        ),
        primary_type_of("float"@) matches Some(f) && layout_of(TyView::CPrimary(f), items, float, double) == Some(
            (float.0 as int, float.1 as int),
        ),
        primary_type_of("double"@) matches Some(d) && layout_of(TyView::CPrimary(d), items, float, double) == Some(
            (double.0 as int, double.1 as int),
        ),
        primary_type_of("void"@) matches Some(v) && layout_of(TyView::CPrimary(v), items, float, double) is None,
        primary_type_of("char"@) matches Some(c) && layout_of(TyView::CPrimary(c), items, float, double) is None,
        layout_of(TyView::CPrimary(p), items, float, double) is Some <==> zeroable(TyView::CPrimary(p), items),
{
    lemma_primary_names();
}

} // verus!
