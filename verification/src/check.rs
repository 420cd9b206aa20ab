//! Deciding, before generating, whether the code of an analysis can be generated: every
//! name it holds can be written as Rust, and every destination has a module path.
use vstd::prelude::*;
use crate::decl::{ArrayLen, Ty};
use crate::generator::{Context, check_escape_ident};
use crate::ident::{parse_ident, to_shouty_snek_case};
use crate::item::{bit_value_ok, bitmask_code_ok, enum_code_ok, enum_value_ok, items_code_ok, primary_dest};
use crate::items::{BitMask, BitValue, Enum, EnumValue};
use crate::names::{ConstantName, EnumeratorName, RegistryName, TypeName};
use crate::output::{Destination, SingleDestination, path_ok};
use crate::require::{RequiredBy, find_key, lemma_index_of_key};
use crate::to_rust::{RustTranslator, array_len_ok, cexpr_ok, ty_ok};
use crate::xml::CExprItem;
use crate::files::{layout, layout_mods, layout_ok, orders_fit};
use crate::function::Command;
use crate::generator::{generated_code, trim_p_pps};
use crate::ident::{check_format_ident, to_snek_case, to_upper_camel_case};
use crate::items::CommandItem;
use crate::loader::{command_entry_ok, command_of_item, item_required_by, item_resolves, loader_code_ok};
use crate::names::CommandName;
use crate::output::CodeMap;
use crate::text::{push_str, str_eq};
use crate::vfs::VirtualRustFs;

verus! {

impl Context {
    fn check_constant(&self, name: &ConstantName) -> (r: bool)
        ensures
            r == self.constant_ok(name@),
    {
        let trimmed = name.prefix_trimmed();
        parse_ident(trimmed.as_str()).is_some()
    }

    fn check_array_len(&self, len: &ArrayLen) -> (r: bool)
        ensures
            r == array_len_ok(self, len@),
    {
        match len {
            ArrayLen::Constant(n) => self.check_constant(n),
            ArrayLen::Literal(_) => true,
        }
    }

    /// Whether every name in a type can be written as Rust.
    pub fn check_ty(&self, t: &Ty) -> (r: bool)
        ensures
            r == ty_ok(self, t@),
        decreases t,
    {
        match t {
            Ty::SpecType(name) => self.check_type(name, true),
            Ty::SpecFuncPointer(name) => parse_ident(name.original()).is_some(),
            Ty::CPrimary(_) => true,
            Ty::Platform(raw) => parse_ident(raw.as_str()).is_some(),
            Ty::Ptr(inner, _) => self.check_ty(inner),
            Ty::Ref(inner, _) => self.check_ty(inner),
            Ty::Slice(inner, _, len) => {
                let a = self.check_ty(inner);
                let b = match len {
                    Some(l) => self.check_array_len(l),
                    None => true,
                };
                a && b
            },
            Ty::Array(inner, len) => {
                let a = self.check_ty(inner);
                let b = self.check_array_len(len);
                a && b
            },
            Ty::RustType(_) => true,
        }
    }

    /// Whether an enumerator can be written as Rust, behind its type's path where
    /// `qualified`.
    pub fn check_enumerator(&self, name: &EnumeratorName, owner: &TypeName, qualified: bool) -> (r: bool)
        ensures
            r == self.enumerator_ok(name@, owner@, qualified),
    {
        proof {
            lemma_index_of_key(self.items.types@, owner@);
        }
        match find_key(&self.items.types, owner.original()) {
            None => false,
            Some(i) => {
                let stripped = name.stripped(owner, self.items.types[i].1.library);
                let shouty = to_shouty_snek_case(stripped.as_str());
                let a = check_escape_ident(shouty.as_str());
                let b = !qualified || self.check_type(owner, true);
                a && b
            },
        }
    }

    /// Whether a C constant expression can be written as Rust.
    pub fn check_cexpr(&self, items: &Vec<CExprItem>) -> (r: bool)
        ensures
            r == cexpr_ok(self, items@),
    {
        CExprItem::try_to_rust(items, self).is_some()
    }
}


/// The primary place of an item that has places.
fn primary_of(rb: &RequiredBy) -> (r: SingleDestination)
    requires
        rb@.locations.len() > 0,
    ensures
        r@ == primary_dest(rb@),
{
    Destination::new(rb.copy()).guess_primary()
}

/// Whether an item has a place, and its primary place a module path.
fn check_primary(rb: &RequiredBy) -> (r: bool)
    ensures
        r == (rb@.locations.len() > 0 && path_ok(primary_dest(rb@))),
{
    if rb.locations.len() == 0 {
        return false;
    }
    primary_of(rb).check_path()
}

fn check_enum_value(ctx: &Context, owner: &TypeName, v: &EnumValue) -> (r: bool)
    ensures
        r == enum_value_ok(ctx, owner@, *v),
{
    match v {
        EnumValue::Variant(_) => true,
        EnumValue::Expr(e) => ctx.check_cexpr(e),
        EnumValue::Alias(a) => ctx.check_enumerator(a, owner, false),
    }
}

fn check_bit_value(ctx: &Context, bits: &TypeName, v: &BitValue) -> (r: bool)
    ensures
        r == bit_value_ok(ctx, bits@, *v),
{
    match v {
        BitValue::BitPos(_) => true,
        BitValue::Expr(e) => ctx.check_cexpr(e),
        BitValue::Alias(a) => ctx.check_enumerator(a, bits, false),
    }
}

impl Enum {
    /// Whether the code of this enum can be made.
    pub fn check(&self, ctx: &Context) -> (r: bool)
        ensures
            r == enum_code_ok(ctx, *self),
    {
        if !check_primary(&self.required_by) || !ctx.check_type(&self.name, true) {
            return false;
        }
        let mut i: usize = 0;
        while i < self.items.len()
            invariant
                i <= self.items@.len(),
                forall|j: int|
                    0 <= j < i ==> {
                        let it = #[trigger] self.items@[j];
                        &&& it.1.required_by@.locations.len() > 0
                        &&& path_ok(primary_dest(it.1.required_by@))
                        &&& ctx.enumerator_ok(it.0@, self.name@, false)
                        &&& enum_value_ok(ctx, self.name@, it.1.value)
                    },
            decreases self.items.len() - i,
        {
            let it = &self.items[i];
            if !check_primary(&it.1.required_by) || !ctx.check_enumerator(&it.0, &self.name, false) || !check_enum_value(
                ctx,
                &self.name,
                &it.1.value,
            ) {
                return false;
            }
            i += 1;
        }
        true
    }
}

impl BitMask {
    /// Whether the code of this bitmask can be made.
    pub fn check(&self, ctx: &Context) -> (r: bool)
        ensures
            r == bitmask_code_ok(ctx, *self),
    {
        if self.required_by.locations.len() == 0 || !ctx.check_type(&self.name, false) {
            return false;
        }
        match &self.bits_name {
            None => true,
            Some(bits) => {
                if !ctx.check_type(bits, false) {
                    return false;
                }
                let mut i: usize = 0;
                while i < self.items.len()
                    invariant
                        i <= self.items@.len(),
                        self.bits_name == Some(*bits),
                        forall|j: int|
                            0 <= j < i ==> {
                                let it = #[trigger] self.items@[j];
                                &&& it.1.required_by@.locations.len() > 0
                                &&& path_ok(primary_dest(it.1.required_by@))
                                &&& ctx.enumerator_ok(it.0@, bits@, false)
                                &&& bit_value_ok(ctx, bits@, it.1.value)
                            },
                    decreases self.items.len() - i,
                {
                    let it = &self.items[i];
                    if !check_primary(&it.1.required_by) || !ctx.check_enumerator(&it.0, bits, false) || !check_bit_value(
                        ctx,
                        bits,
                        &it.1.value,
                    ) {
                        return false;
                    }
                    i += 1;
                }
                true
            },
        }
    }
}

/// Whether the code of every item can be made.
pub fn check_items(ctx: &Context) -> (r: bool)
    ensures
        r == items_code_ok(ctx),
{
    let mut i: usize = 0;
    while i < ctx.items.base_types.len()
        invariant
            i <= ctx.items.base_types@.len(),
            forall|j: int|
                0 <= j < i ==> {
                    let b = #[trigger] ctx.items.base_types@[j];
                    b.required_by@.locations.len() > 0 && ctx.type_ok(b.name@) && ty_ok(ctx, b.ty@)
                },
        decreases ctx.items.base_types.len() - i,
    {
        let b = &ctx.items.base_types[i];
        if b.required_by.locations.len() == 0 || !ctx.check_type(&b.name, true) || !ctx.check_ty(&b.ty) {
            return false;
        }
        i += 1;
    }
    let mut i: usize = 0;
    while i < ctx.items.constants.len()
        invariant
            i <= ctx.items.constants@.len(),
            forall|j: int|
                0 <= j < i ==> {
                    let c = (#[trigger] ctx.items.constants@[j]).1;
                    c.required_by@.locations.len() > 0 && ctx.constant_ok(c.name@) && cexpr_ok(ctx, c.value@)
                },
        decreases ctx.items.constants.len() - i,
    {
        let c = &ctx.items.constants[i].1;
        if c.required_by.locations.len() == 0 || !ctx.check_constant(&c.name) || !ctx.check_cexpr(&c.value) {
            return false;
        }
        i += 1;
    }
    let mut i: usize = 0;
    while i < ctx.items.cmacros.len()
        invariant
            i <= ctx.items.cmacros@.len(),
            forall|j: int|
                0 <= j < i ==> {
                    let c = (#[trigger] ctx.items.cmacros@[j]).1;
                    c.required_by@.locations.len() > 0 && ctx.cmacro_ok(c.name@) && cexpr_ok(ctx, c.cexpr@)
                },
        decreases ctx.items.cmacros.len() - i,
    {
        let c = &ctx.items.cmacros[i].1;
        if c.required_by.locations.len() == 0 || !ctx.check_cmacro(&c.name) || !ctx.check_cexpr(&c.cexpr) {
            return false;
        }
        i += 1;
    }
    let mut i: usize = 0;
    while i < ctx.items.enums.len()
        invariant
            i <= ctx.items.enums@.len(),
            forall|j: int| 0 <= j < i ==> enum_code_ok(ctx, #[trigger] ctx.items.enums@[j]),
        decreases ctx.items.enums.len() - i,
    {
        if !ctx.items.enums[i].check(ctx) {
            return false;
        }
        i += 1;
    }
    let mut i: usize = 0;
    while i < ctx.items.bitmasks.len()
        invariant
            i <= ctx.items.bitmasks@.len(),
            forall|j: int| 0 <= j < i ==> bitmask_code_ok(ctx, #[trigger] ctx.items.bitmasks@[j]),
        decreases ctx.items.bitmasks.len() - i,
    {
        if !ctx.items.bitmasks[i].check(ctx) {
            return false;
        }
        i += 1;
    }
    true
}


/// Whether a string holds no NUL character.
fn check_no_nul(s: &str) -> (r: bool)
    ensures
        r == forall|i: int| 0 <= i < s@.len() ==> s@[i] != '\0',
{
    let n = s.unicode_len();
    let mut i: usize = 0;
    while i < n
        invariant
            i <= n,
            n == s@.len(),
            forall|j: int| 0 <= j < i ==> s@[j] != '\0',
        decreases n - i,
    {
        if s.get_char(i) == '\0' {
            return false;
        }
        i += 1;
    }
    true
}

/// Whether the table entry of a command, under the name `name`, can be made.
fn check_command_entry(ctx: &Context, name: &CommandName, command: &Command) -> (r: bool)
    ensures
        r == command_entry_ok(ctx, name@, command@),
{
    let own = command.name.original();
    if !(str_eq(own, "vkGetInstanceProcAddr") || str_eq(own, "vkGetDeviceProcAddr") || command.params.len() > 0) {
        return false;
    }
    let trimmed = name.prefix_trimmed();
    let field = to_snek_case(trimmed.as_str());
    if !check_format_ident(field.as_str()) {
        return false;
    }
    let mut pfn = "PFN_".to_owned();
    push_str(&mut pfn, name.original());
    if parse_ident(pfn.as_str()).is_none() {
        return false;
    }
    if !check_no_nul(name.original()) {
        return false;
    }
    let ret_ok = match &command.return_type {
        Some(t) => ctx.check_ty(t),
        None => true,
    };
    if !ret_ok {
        return false;
    }
    let mut i: usize = 0;
    while i < command.params.len()
        invariant
            i <= command.params@.len(),
            forall|j: int|
                0 <= j < i ==> {
                    let p = #[trigger] command@.params[j];
                    &&& ty_ok(ctx, p.decl.ty)
                    &&& p.struct_impls_traits.len() > 0 ==> crate::ident::format_ident_ok(crate::loader::param_trait_text(name@, p))
                    &&& forall|k: int| 0 <= k < p.struct_impls_traits.len() ==> ty_ok(ctx, #[trigger] p.struct_impls_traits[k])
                },
        decreases command.params.len() - i,
    {
        let p = &command.params[i];
        assert(command@.params[i as int] == p@);
        if !ctx.check_ty(&p.decl.ty) {
            return false;
        }
        if p.struct_impls_traits.len() > 0 {
            let snake = to_snek_case(p.decl.name.original());
            let param_ident = trim_p_pps(snake.as_str());
            let camel = to_upper_camel_case(param_ident.as_str());
            let mut tn = name.prefix_trimmed();
            push_str(&mut tn, "Param");
            push_str(&mut tn, camel.as_str());
            if !check_format_ident(tn.as_str()) {
                return false;
            }
        }
        let mut k: usize = 0;
        while k < p.struct_impls_traits.len()
            invariant
                k <= p.struct_impls_traits@.len(),
                0 <= i < command@.params.len(),
                command@.params[i as int] == p@,
                forall|m: int| 0 <= m < k ==> ty_ok(ctx, #[trigger] p@.struct_impls_traits[m]),
            decreases p.struct_impls_traits.len() - k,
        {
            assert(p@.struct_impls_traits[k as int] == p.struct_impls_traits@[k as int]@);
            if !ctx.check_ty(&p.struct_impls_traits[k]) {
                return false;
            }
            k += 1;
        }
        i += 1;
    }
    true
}

/// Whether the function tables of all commands can be made: every alias names a command,
/// and the entry of every command with a place can be made.
pub fn check_loader(ctx: &Context) -> (r: bool)
    ensures
        r == loader_code_ok(ctx),
{
    let mut k: usize = 0;
    while k < ctx.items.commands.len()
        invariant
            k <= ctx.items.commands@.len(),
            forall|j: int|
                0 <= j < k ==> {
                    let ci = #[trigger] ctx.items.commands@[j].1;
                    &&& item_resolves(ctx, ci)
                    &&& item_required_by(ci).locations.len() > 0 ==> command_entry_ok(
                        ctx,
                        crate::loader::item_name(ci),
                        crate::loader::item_command(ctx, ci)@,
                    )
                },
        decreases ctx.items.commands.len() - k,
    {
        let ci = &ctx.items.commands[k].1;
        let resolves = match ci {
            CommandItem::Command(_) => true,
            CommandItem::Alias(alias) => {
                proof {
                    lemma_index_of_key(ctx.items.commands@, alias.alias@);
                }
                match find_key(&ctx.items.commands, alias.alias.original()) {
                    None => false,
                    Some(i) => match &ctx.items.commands[i].1 {
                        CommandItem::Command(_) => true,
                        CommandItem::Alias(_) => false,
                    },
                }
            },
        };
        if !resolves {
            return false;
        }
        let (name, required_by, command) = command_of_item(ctx, ci);
        if required_by.locations.len() > 0 && !check_command_entry(ctx, name, command) {
            return false;
        }
        k += 1;
    }
    true
}

/// Whether every destination of a code map has a module path.
pub fn check_layout(m: &CodeMap) -> (r: bool)
    ensures
        r == layout_ok(m@),
{
    let mut i: usize = 0;
    while i < m.entries.len()
        invariant
            i <= m.entries@.len(),
            forall|j: int| 0 <= j < i ==> path_ok(#[trigger] m@[j].0),
        decreases m.entries.len() - i,
    {
        assert(m@[i as int].0 == m.entries@[i as int].0@);
        if !m.entries[i].0.check_path() {
            return false;
        }
        i += 1;
    }
    true
}

/// Generates the code of everything the analysis keeps and lays it out as files, where
/// that can be done; `None` where a name cannot be written as Rust or a destination has
/// no module path, the inputs on which `generate` would panic.
pub fn try_generate(ctx: &Context) -> (r: Option<VirtualRustFs>)
    ensures
        r is Some <==> (items_code_ok(ctx) && loader_code_ok(ctx) && layout_ok(generated_code(ctx))),
        r matches Some(fs) ==> exists|orders: Seq<Seq<Seq<char>>>|
            orders_fit(layout_mods(generated_code(ctx)), orders) && fs@ == layout(generated_code(ctx), orders),
{
    if !check_items(ctx) || !check_loader(ctx) {
        return None;
    }
    let mut codemap = CodeMap::empty();
    crate::item::generate_code(ctx, &mut codemap);
    crate::loader::generate_code(ctx, &mut codemap);
    assert(codemap@ == generated_code(ctx));
    if !check_layout(&codemap) {
        return None;
    }
    Some(codemap.write())
}

} // verus!
