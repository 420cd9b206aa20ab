//! Function tables: which table each command goes to, and the names of the tables and
//! their loaders.
use vstd::prelude::*;
use crate::decl::{Ty, TyView};
use crate::function::{Command, CommandView};
use crate::output::{SingleDestination, SingleDestinationView, version_text};
use crate::require::{LocationView, RequireLocation};
use crate::text::{push_str, str_eq, u32_to_string};
use crate::names::{CommandName, RegistryName, command_trimmed};
use crate::to_rust::Lifetime;
use crate::function::CommandParam;
use crate::generator::trim_p_pps;
use crate::ident::{c_string_literal, format_ident, parse_ident, string_literal, to_snek_case, to_upper_camel_case};
use crate::text::join_strings;
use crate::function::CommandParamView;
use crate::generator::{Context, trim_p_pps_spec};
use crate::ident::{c_str_literal, format_ident_ok, snake_case, str_literal, syn_ident, upper_camel_case};
use crate::item::placeholder;
use crate::items::CommandItem;
use crate::output::{CodeMap, CodeMapView, Destination, extend_spec, single_dests_spec};
use crate::require::{RequiredBy, find_key, lemma_index_of_key};
use crate::require::{RequiredByView, lookup};
use crate::text::join;
use crate::to_rust::{RustTranslator, ty_ok, ty_text};

verus! {

/// The kind of function table that a command belongs to.
#[derive(Debug, Clone, Copy, PartialEq, Eq, Hash, Structural)]
pub enum FunctionType {
    Static,
    Entry,
    Instance,
    Device,
}

/// The table of a command: by name for the two loader commands, otherwise by the type
/// of its first parameter (device-level handles, instance-level handles, anything else).
pub open spec fn function_type_of(c: CommandView) -> FunctionType {
    if c.name == "vkGetInstanceProcAddr"@ {
        FunctionType::Static
    } else if c.name == "vkGetDeviceProcAddr"@ {
        FunctionType::Instance
    } else {
        match c.params[0].decl.ty {
            TyView::SpecType(n) => if n == "VkDevice"@ || n == "VkCommandBuffer"@ || n == "VkQueue"@ {
                FunctionType::Device
            } else if n == "VkInstance"@ || n == "VkPhysicalDevice"@ {
                FunctionType::Instance
            } else {
                FunctionType::Entry
            },
            _ => FunctionType::Entry,
        }
    }
}

/// The commands that `of_command` takes without panicking: all but the two loader
/// commands have a parameter.
pub open spec fn of_command_ok(c: CommandView) -> bool {
    c.name == "vkGetInstanceProcAddr"@ || c.name == "vkGetDeviceProcAddr"@ || c.params.len() > 0
}

/// The name of the table of a kind at a destination (`table` true) or of its loader.
pub open spec fn table_name_spec(t: FunctionType, d: SingleDestinationView, table: bool) -> Seq<char> {
    let base = match t {
        FunctionType::Static => "Static"@,
        FunctionType::Entry => "Entry"@,
        FunctionType::Instance => "Instance"@,
        FunctionType::Device => "Device"@,
    };
    let with_fn = if table {
        base + "Fn"@
    } else {
        base
    };
    match t {
        FunctionType::Static => with_fn,
        _ => match d.location {
            LocationView::Core { major, minor } => with_fn + "V"@ + version_text(major, minor, "_"@),
            LocationView::Extension { .. } => with_fn,
        },
    }
}

impl FunctionType {
    pub fn of_command(command: &Command) -> (r: FunctionType)
        requires
            of_command_ok(command@),
        ensures
            r == function_type_of(command@),
    {
        let name = command.name.original();
        if str_eq(name, "vkGetInstanceProcAddr") {
            return FunctionType::Static;
        } else if str_eq(name, "vkGetDeviceProcAddr") {
            return FunctionType::Instance;
        }
        let first_param = &command.params[0];
        assert(command@.params[0] == first_param@);
        match &first_param.decl.ty {
            Ty::SpecType(n) => {
                let n = n.original();
                if str_eq(n, "VkDevice") || str_eq(n, "VkCommandBuffer") || str_eq(n, "VkQueue") {
                    FunctionType::Device
                } else if str_eq(n, "VkInstance") || str_eq(n, "VkPhysicalDevice") {
                    FunctionType::Instance
                } else {
                    FunctionType::Entry
                }
            },
            _ => FunctionType::Entry,
        }
    }

    fn name_at(self, dest: &SingleDestination, table: bool) -> (r: String)
        ensures
            r@ == table_name_spec(self, dest@, table),
    {
        let mut r = String::new();
        match self {
            FunctionType::Static => push_str(&mut r, "Static"),
            FunctionType::Entry => push_str(&mut r, "Entry"),
            FunctionType::Instance => push_str(&mut r, "Instance"),
            FunctionType::Device => push_str(&mut r, "Device"),
        }
        if table {
            push_str(&mut r, "Fn");
        }
        match self {
            FunctionType::Static => {},
            _ => match &dest.location {
                RequireLocation::Core { major, minor } => {
                    push_str(&mut r, "V");
                    let a = u32_to_string(*major);
                    push_str(&mut r, a.as_str());
                    push_str(&mut r, "_");
                    let b = u32_to_string(*minor);
                    push_str(&mut r, b.as_str());
                },
                RequireLocation::Extension { .. } => {},
            },
        }
        r
    }

    /// The name of the function table of this kind at a destination.
    pub fn table_name(self, dest: &SingleDestination) -> (r: String)
        ensures
            r@ == table_name_spec(self, dest@, true),
    {
        self.name_at(dest, true)
    }

    /// The name of the loader of this kind at a destination.
    pub fn loader_name(self, dest: &SingleDestination) -> (r: String)
        ensures
            r@ == table_name_spec(self, dest@, false),
    {
        self.name_at(dest, false)
    }
}

} // verus!

verus! {

/// The name of a command's field in its function table.
pub open spec fn field_name_text(name: Seq<char>) -> Seq<char> {
    snake_case(command_trimmed(name))
}

/// `pub <field>: <PFN type>,`
pub open spec fn field_piece(ctx: &Context, name: Seq<char>) -> Seq<char> {
    "pub "@ + field_name_text(name) + ": "@ + ctx.command_text(name, true) + ","@
}

/// `_: <type>` for each parameter, `, ` between.
pub open spec fn params_text(ctx: &Context, params: Seq<CommandParamView>) -> Seq<char> {
    join(params.map_values(|p: CommandParamView| "_: "@ + ty_text(ctx, p.decl.ty, placeholder())), ", "@)
}

pub open spec fn ret_text(ctx: &Context, t: Option<TyView>) -> Seq<char> {
    match t {
        Some(t) => "-> "@ + ty_text(ctx, t, placeholder()),
        None => ""@,
    }
}

/// The loader of one field: the function that the loader returns for the command, or a
/// stand-in that panics where the command cannot be found.
pub open spec fn loader_piece(ctx: &Context, name: Seq<char>, c: CommandView) -> Seq<char> {
    let field = field_name_text(name);
    field + ": unsafe { unsafe extern \"system\" fn "@ + field + "("@ + params_text(ctx, c.params) + ") "@ + ret_text(ctx, c.return_type)
        + " { panic!("@ + str_literal("unable to load "@ + name) + ") } let val = _f("@ + c_str_literal(name)
        + "); if val.is_null() { "@ + field + " } else { ::core::mem::transmute(val) } },"@
}

/// The name of the parameter's trait: the command, `Param`, the parameter in camel case.
pub open spec fn param_ident_text(p: CommandParamView) -> Seq<char> {
    trim_p_pps_spec(snake_case(p.decl.name))
}

pub open spec fn param_trait_text(name: Seq<char>, p: CommandParamView) -> Seq<char> {
    command_trimmed(name) + "Param"@ + upper_camel_case(param_ident_text(p))
}

/// The trait of a parameter through which structures are passed, and its impls.
pub open spec fn param_traits_text(ctx: &Context, name: Seq<char>, p: CommandParamView) -> Seq<char> {
    if p.struct_impls_traits.len() == 0 {
        Seq::empty()
    } else {
        let tn = param_trait_text(name, p);
        let doc = "Implemented for all types that can be passed as argument to `"@ + param_ident_text(p) + "` in [`"@ + syn_ident(
            "PFN_"@ + name,
        ).unwrap() + "`]"@;
        " "@ + ("#[doc = "@ + str_literal(doc) + "] pub unsafe trait "@ + tn + " {}"@) + struct_impls_text(ctx, tn, p.struct_impls_traits)
    }
}

/// `unsafe impl <trait> for <type> {}` for each type.
pub open spec fn struct_impls_text(ctx: &Context, tn: Seq<char>, tys: Seq<TyView>) -> Seq<char>
    decreases tys.len(),
{
    if tys.len() == 0 {
        Seq::empty()
    } else {
        struct_impls_text(ctx, tn, tys.drop_last()) + " "@ + ("unsafe impl "@ + tn + " for "@ + ty_text(ctx, tys.last(), placeholder()) + " {}"@)
    }
}

/// The traits of all parameters of a command.
pub open spec fn command_traits_text(ctx: &Context, name: Seq<char>, params: Seq<CommandParamView>) -> Seq<char>
    decreases params.len(),
{
    if params.len() == 0 {
        Seq::empty()
    } else {
        command_traits_text(ctx, name, params.drop_last()) + param_traits_text(ctx, name, params.last())
    }
}

/// The commands whose table entries can be made.
pub open spec fn command_entry_ok(ctx: &Context, name: Seq<char>, c: CommandView) -> bool {
    &&& of_command_ok(c)
    &&& format_ident_ok(field_name_text(name))
    &&& ctx.command_ok(name)
    &&& forall|i: int| 0 <= i < name.len() ==> name[i] != '\0'
    &&& c.return_type matches Some(t) ==> ty_ok(ctx, t)
    &&& forall|i: int|
        0 <= i < c.params.len() ==> {
            let p = #[trigger] c.params[i];
            &&& ty_ok(ctx, p.decl.ty)
            &&& p.struct_impls_traits.len() > 0 ==> format_ident_ok(param_trait_text(name, p))
            &&& forall|j: int| 0 <= j < p.struct_impls_traits.len() ==> ty_ok(ctx, #[trigger] p.struct_impls_traits[j])
        }
}

/// The fields, loaders and traits that the tables have gathered, by kind and place.
pub type TablesView = Seq<((FunctionType, SingleDestinationView), (Seq<char>, Seq<char>, Seq<char>))>;

pub open spec fn table_index(m: TablesView, key: (FunctionType, SingleDestinationView)) -> Option<int>
    decreases m.len(),
{
    if m.len() == 0 {
        None
    } else if m[0].0 == key {
        Some(0)
    } else {
        match table_index(m.drop_first(), key) {
            Some(i) => Some(i + 1),
            None => None,
        }
    }
}

/// A command's pieces added to the table of a kind at a place, made where missing.
pub open spec fn add_to_table(
    m: TablesView,
    key: (FunctionType, SingleDestinationView),
    field: Seq<char>,
    loader: Seq<char>,
    traits: Seq<char>,
) -> TablesView {
    match table_index(m, key) {
        Some(i) => m.update(i, (key, (m[i].1.0 + " "@ + field, m[i].1.1 + " "@ + loader, m[i].1.2 + traits))),
        None => m.push((key, (" "@ + field, " "@ + loader, traits))),
    }
}

/// The command that a command item stands for: itself, or the command an alias names.
pub open spec fn item_command(ctx: &Context, ci: CommandItem) -> Command {
    match ci {
        CommandItem::Command(c) => c,
        CommandItem::Alias(a) => match lookup(ctx.items.commands@, a.alias@).unwrap() {
            CommandItem::Command(c) => c,
            CommandItem::Alias(_) => arbitrary(),
        },
    }
}

pub open spec fn item_name(ci: CommandItem) -> Seq<char> {
    match ci {
        CommandItem::Command(c) => c.name@,
        CommandItem::Alias(a) => a.name@,
    }
}

pub open spec fn item_required_by(ci: CommandItem) -> RequiredByView {
    match ci {
        CommandItem::Command(c) => c.required_by@,
        CommandItem::Alias(a) => a.required_by@,
    }
}

/// An alias names a command (not another alias) that the analysis keeps.
pub open spec fn item_resolves(ctx: &Context, ci: CommandItem) -> bool {
    match ci {
        CommandItem::Command(_) => true,
        CommandItem::Alias(a) => lookup(ctx.items.commands@, a.alias@) matches Some(t) && t is Command,
    }
}

/// The tables after the first `j` places of one command.
#[verifier::opaque]
pub open spec fn tables_for_command(ctx: &Context, m: TablesView, ci: CommandItem, j: int) -> TablesView
    decreases j,
{
    if j <= 0 {
        m
    } else {
        let name = item_name(ci);
        let c = item_command(ctx, ci)@;
        let rb = item_required_by(ci);
        let key = (function_type_of(c), SingleDestinationView { library: rb.library, location: rb.locations[j - 1], reexport: false });
        add_to_table(
            tables_for_command(ctx, m, ci, j - 1),
            key,
            field_piece(ctx, name),
            loader_piece(ctx, name, c),
            command_traits_text(ctx, name, c.params),
        )
    }
}

/// The tables after the first `k` command items.
#[verifier::opaque]
pub open spec fn tables_after(ctx: &Context, k: int) -> TablesView
    decreases k,
{
    if k <= 0 {
        Seq::empty()
    } else {
        let ci = ctx.items.commands@[k - 1].1;
        tables_for_command(ctx, tables_after(ctx, k - 1), ci, item_required_by(ci).locations.len() as int)
    }
}

/// The command items whose tables can be made.
pub open spec fn loader_code_ok(ctx: &Context) -> bool {
    forall|k: int|
        0 <= k < ctx.items.commands@.len() ==> {
            let ci = #[trigger] ctx.items.commands@[k].1;
            &&& item_resolves(ctx, ci)
            &&& item_required_by(ci).locations.len() > 0 ==> command_entry_ok(ctx, item_name(ci), item_command(ctx, ci)@)
        }
}

/// The loader struct of a table of instance or device level.
pub open spec fn loader_struct_text(t: FunctionType, loader: Seq<char>, table: Seq<char>) -> Seq<char> {
    match t {
        FunctionType::Instance => " #[derive(Clone)] pub struct "@ + loader + " { pub(crate) fp: "@ + table
            + ", pub(crate) handle: crate::vk::Instance, } impl "@ + loader
            + " { pub fn load(entry: &crate::Entry, instance: &crate::Instance) -> Self { let handle = instance.handle; let fp = "@ + table
            + "::load(|name| unsafe { core::mem::transmute(entry.get_instance_proc_addr(handle, name.as_ptr())) }); Self { handle, fp } } #[inline] pub fn fp(&self) -> &"@
            + table + " { &self.fp } #[inline] pub fn instance(&self) -> crate::vk::Instance { self.handle } }"@,
        FunctionType::Device => " #[derive(Clone)] pub struct "@ + loader + " { pub(crate) fp: "@ + table
            + ", pub(crate) handle: crate::vk::Device, } impl "@ + loader
            + " { pub fn load(instance: &crate::Instance, device: &crate::Device) -> Self { let handle = device.handle; let fp = "@ + table
            + "::load(|name| unsafe { core::mem::transmute(instance.get_device_proc_addr(handle, name.as_ptr())) }); Self { handle, fp } } #[inline] pub fn fp(&self) -> &"@
            + table + " { &self.fp } #[inline] pub fn device(&self) -> crate::vk::Device { self.handle } }"@,
        _ => Seq::empty(),
    }
}

/// The code of one function table: the struct of its fields, how it is loaded, its
/// loader where it has one, and the traits of its parameters.
pub open spec fn table_code_text(t: FunctionType, d: SingleDestinationView, fields: Seq<char>, loaders: Seq<char>, traits: Seq<char>) -> Seq<char> {
    let tn = table_name_spec(t, d, true);
    "#[derive(Clone)] pub struct "@ + tn + " { "@ + fields + " } unsafe impl Send for "@ + tn + " {} unsafe impl Sync for "@ + tn + " {} impl "@
        + tn
        + " { pub fn load<F: FnMut(&::core::ffi::CStr) -> *const ::core::ffi::c_void>(mut f: F) -> Self { Self::load_erased(&mut f) } fn load_erased(_f: &mut dyn FnMut(&::core::ffi::CStr) -> *const ::core::ffi::c_void) -> Self { Self { "@
        + loaders + " } } }"@ + loader_struct_text(t, table_name_spec(t, d, false), tn) + " "@ + traits
}

/// The code map after the code of the first `k` tables.
#[verifier::opaque]
pub open spec fn loader_code_fold(m: CodeMapView, tables: TablesView, k: int) -> CodeMapView
    decreases k,
{
    if k <= 0 {
        m
    } else {
        let e = tables[k - 1];
        extend_spec(loader_code_fold(m, tables, k - 1), seq![(e.0.1, table_code_text(e.0.0, e.0.1, e.1.0, e.1.1, e.1.2))])
    }
}

/// The code map with the code of all function tables added.
pub open spec fn loader_code(ctx: &Context, m: CodeMapView) -> CodeMapView {
    let tables = tables_after(ctx, ctx.items.commands@.len() as int);
    loader_code_fold(m, tables, tables.len() as int)
}

} // verus!

verus! {

/// A function table being gathered: its fields, their loaders, and the traits of
/// parameters.
pub struct Table {
    pub fields: String,
    pub loaders: String,
    pub trait_impls: String,
}

/// The tables by kind and place, in the order they were first made.
pub struct Tables {
    pub entries: Vec<((FunctionType, SingleDestination), Table)>,
}

impl View for Tables {
    type V = TablesView;

    open spec fn view(&self) -> TablesView {
        self.entries@.map_values(
            |e: ((FunctionType, SingleDestination), Table)| ((e.0.0, e.0.1@), (e.1.fields@, e.1.loaders@, e.1.trait_impls@)),
        )
    }
}

pub(crate) proof fn lemma_table_index(m: TablesView, key: (FunctionType, SingleDestinationView))
    ensures
        table_index(m, key) matches Some(i) ==> 0 <= i < m.len() && m[i].0 == key && forall|j: int| 0 <= j < i ==> (#[trigger] m[j]).0 != key,
        table_index(m, key) is None ==> forall|j: int| 0 <= j < m.len() ==> (#[trigger] m[j]).0 != key,
    decreases m.len(),
{
    if m.len() > 0 && m[0].0 != key {
        let rest = m.drop_first();
        lemma_table_index(rest, key);
        match table_index(rest, key) {
            Some(i) => {
                assert(m[i + 1] == rest[i]);
                assert forall|j: int| 0 <= j < i + 1 implies (#[trigger] m[j]).0 != key by {
                    if j > 0 {
                        assert(m[j] == rest[j - 1]);
                    }
                }
            },
            None => {
                assert forall|j: int| 0 <= j < m.len() implies (#[trigger] m[j]).0 != key by {
                    if j > 0 {
                        assert(m[j] == rest[j - 1]);
                    }
                }
            },
        }
    }
}

impl Tables {
    fn find(&self, t: FunctionType, dest: &SingleDestination) -> (r: Option<usize>)
        ensures
            match r {
                Some(i) => table_index(self@, (t, dest@)) == Some(i as int),
                None => table_index(self@, (t, dest@)) is None,
            },
    {
        proof {
            lemma_table_index(self@, (t, dest@));
        }
        let mut i: usize = 0;
        while i < self.entries.len()
            invariant
                i <= self.entries.len(),
                forall|j: int| 0 <= j < i ==> (#[trigger] self@[j]).0 != (t, dest@),
                table_index(self@, (t, dest@)) matches Some(k) ==> 0 <= k < self@.len() && self@[k].0 == (t, dest@) && forall|j: int|
                    0 <= j < k ==> (#[trigger] self@[j]).0 != (t, dest@),
                table_index(self@, (t, dest@)) is None ==> forall|j: int| 0 <= j < self@.len() ==> (#[trigger] self@[j]).0 != (t, dest@),
            decreases self.entries.len() - i,
        {
            assert(self@[i as int].0 == (self.entries@[i as int].0.0, self.entries@[i as int].0.1@));
            if self.entries[i].0.0 == t && self.entries[i].0.1.same(dest) {
                return Some(i);
            }
            i += 1;
        }
        None
    }

    /// Adds a command's pieces to the table of a kind at a place, making it where missing.
    fn add(&mut self, t: FunctionType, dest: SingleDestination, field: &str, loader: &str, traits: &str)
        ensures
            final(self)@ == add_to_table(old(self)@, (t, dest@), field@, loader@, traits@),
    {
        proof {
            lemma_table_index(self@, (t, dest@));
        }
        let ghost before = self@;
        match self.find(t, &dest) {
            Some(i) => {
                let mut fields = self.entries[i].1.fields.clone();
                push_str(&mut fields, " ");
                push_str(&mut fields, field);
                let mut loaders = self.entries[i].1.loaders.clone();
                push_str(&mut loaders, " ");
                push_str(&mut loaders, loader);
                let mut trait_impls = self.entries[i].1.trait_impls.clone();
                push_str(&mut trait_impls, traits);
                self.entries.set(i, ((t, dest), Table { fields, loaders, trait_impls }));
                assert(self@ =~= add_to_table(before, (t, dest@), field@, loader@, traits@));
            },
            None => {
                let mut fields = " ".to_owned();
                push_str(&mut fields, field);
                let mut loaders = " ".to_owned();
                push_str(&mut loaders, loader);
                let trait_impls = traits.to_owned();
                self.entries.push(((t, dest), Table { fields, loaders, trait_impls }));
                assert(self@ =~= add_to_table(before, (t, dest@), field@, loader@, traits@));
            },
        }
    }
}

fn field_name(name: &CommandName) -> (r: String)
    requires
        format_ident_ok(field_name_text(name@)),
    ensures
        r@ == field_name_text(name@),
{
    let trimmed = name.prefix_trimmed();
    let snake = to_snek_case(trimmed.as_str());
    format_ident(snake.as_str())
}

fn params_to_rust(ctx: &Context, command: &Command) -> (r: String)
    requires
        forall|i: int| 0 <= i < command@.params.len() ==> ty_ok(ctx, (#[trigger] command@.params[i]).decl.ty),
    ensures
        r@ == params_text(ctx, command@.params),
{
    let mut parts: Vec<String> = Vec::new();
    let mut i: usize = 0;
    let ph = Lifetime::placeholder();
    while i < command.params.len()
        invariant
            i <= command.params.len(),
            parts@.len() == i,
            ph@ == placeholder(),
            forall|j: int| 0 <= j < command@.params.len() ==> ty_ok(ctx, (#[trigger] command@.params[j]).decl.ty),
            forall|j: int| 0 <= j < i ==> (#[trigger] parts@[j])@ == "_: "@ + ty_text(ctx, command@.params[j].decl.ty, placeholder()),
        decreases command.params.len() - i,
    {
        assert(command@.params[i as int] == command.params@[i as int]@);
        let ty = command.params[i].decl.ty.to_rust(ctx, &ph);
        let mut part = "_: ".to_owned();
        push_str(&mut part, ty.as_str());
        parts.push(part);
        i += 1;
    }
    assert(parts@.map_values(|s: String| s@) =~= command@.params.map_values(
        |p: CommandParamView| "_: "@ + ty_text(ctx, p.decl.ty, placeholder()),
    ));
    join_strings(&parts, ", ")
}

fn loader_to_rust(ctx: &Context, name: &CommandName, command: &Command) -> (r: String)
    requires
        command_entry_ok(ctx, name@, command@),
    ensures
        r@ == loader_piece(ctx, name@, command@),
{
    let field = field_name(name);
    let params = params_to_rust(ctx, command);
    let ph = Lifetime::placeholder();
    let ret = match &command.return_type {
        Some(ty) => {
            let mut r = "-> ".to_owned();
            let t = ty.to_rust(ctx, &ph);
            push_str(&mut r, t.as_str());
            r
        },
        None => "".to_owned(),
    };
    let mut msg = "unable to load ".to_owned();
    push_str(&mut msg, name.original());
    let panic_msg = string_literal(msg.as_str());
    let cstr = c_string_literal(name.original());
    let mut r = field.clone();
    push_str(&mut r, ": unsafe { unsafe extern \"system\" fn ");
    push_str(&mut r, field.as_str());
    push_str(&mut r, "(");
    push_str(&mut r, params.as_str());
    push_str(&mut r, ") ");
    push_str(&mut r, ret.as_str());
    push_str(&mut r, " { panic!(");
    push_str(&mut r, panic_msg.as_str());
    push_str(&mut r, ") } let val = _f(");
    push_str(&mut r, cstr.as_str());
    push_str(&mut r, "); if val.is_null() { ");
    push_str(&mut r, field.as_str());
    push_str(&mut r, " } else { ::core::mem::transmute(val) } },");
    r
}

fn struct_impls_to_rust(ctx: &Context, tn: &str, tys: &Vec<Ty>) -> (r: String)
    requires
        forall|j: int| 0 <= j < tys@.len() ==> ty_ok(ctx, (#[trigger] tys@[j])@),
    ensures
        r@ == struct_impls_text(ctx, tn@, tys@.map_values(|t: Ty| t@)),
{
    let ghost views = tys@.map_values(|t: Ty| t@);
    let ph = Lifetime::placeholder();
    let mut r = String::new();
    let mut j: usize = 0;
    while j < tys.len()
        invariant
            j <= tys.len(),
            ph@ == placeholder(),
            views == tys@.map_values(|t: Ty| t@),
            forall|k: int| 0 <= k < tys@.len() ==> ty_ok(ctx, (#[trigger] tys@[k])@),
            r@ == struct_impls_text(ctx, tn@, views.take(j as int)),
        decreases tys.len() - j,
    {
        let ty = tys[j].to_rust(ctx, &ph);
        push_str(&mut r, " ");
        push_str(&mut r, "unsafe impl ");
        push_str(&mut r, tn);
        push_str(&mut r, " for ");
        push_str(&mut r, ty.as_str());
        push_str(&mut r, " {}");
        assert(views.take(j + 1).drop_last() =~= views.take(j as int));
        assert(views.take(j + 1).last() == tys@[j as int]@);
        assert(r@ =~= struct_impls_text(ctx, tn@, views.take(j + 1)));
        j += 1;
    }
    assert(views.take(tys@.len() as int) =~= views);
    r
}

fn param_traits_to_rust(ctx: &Context, name: &CommandName, param: &CommandParam) -> (r: String)
    requires
        ctx.command_ok(name@),
        param@.struct_impls_traits.len() > 0 ==> format_ident_ok(param_trait_text(name@, param@)),
        forall|j: int| 0 <= j < param@.struct_impls_traits.len() ==> ty_ok(ctx, #[trigger] param@.struct_impls_traits[j]),
    ensures
        r@ == param_traits_text(ctx, name@, param@),
{
    if param.struct_impls_traits.len() == 0 {
        return String::new();
    }
    let snake = to_snek_case(param.decl.name.original());
    let param_ident = trim_p_pps(snake.as_str());
    let camel = to_upper_camel_case(param_ident.as_str());
    let mut tn_source = name.prefix_trimmed();
    push_str(&mut tn_source, "Param");
    push_str(&mut tn_source, camel.as_str());
    let tn = format_ident(tn_source.as_str());
    let mut pfn = "PFN_".to_owned();
    push_str(&mut pfn, name.original());
    let command_name_ident = parse_ident(pfn.as_str()).unwrap();
    let mut doc = "Implemented for all types that can be passed as argument to `".to_owned();
    push_str(&mut doc, param_ident.as_str());
    push_str(&mut doc, "` in [`");
    push_str(&mut doc, command_name_ident.as_str());
    push_str(&mut doc, "`]");
    let doc = string_literal(doc.as_str());
    let mut r = " ".to_owned();
    push_str(&mut r, "#[doc = ");
    push_str(&mut r, doc.as_str());
    push_str(&mut r, "] pub unsafe trait ");
    push_str(&mut r, tn.as_str());
    push_str(&mut r, " {}");
    assert(forall|j: int| 0 <= j < param.struct_impls_traits@.len() ==> ty_ok(ctx, (#[trigger] param.struct_impls_traits@[j])@)) by {
        assert forall|j: int| 0 <= j < param.struct_impls_traits@.len() implies ty_ok(ctx, (#[trigger] param.struct_impls_traits@[j])@) by {
            assert(param@.struct_impls_traits[j] == param.struct_impls_traits@[j]@);
        }
    }
    let impls = struct_impls_to_rust(ctx, tn.as_str(), &param.struct_impls_traits);
    push_str(&mut r, impls.as_str());
    r
}

fn command_traits_to_rust(ctx: &Context, name: &CommandName, command: &Command) -> (r: String)
    requires
        command_entry_ok(ctx, name@, command@),
    ensures
        r@ == command_traits_text(ctx, name@, command@.params),
{
    let ghost views = command@.params;
    let mut r = String::new();
    let mut i: usize = 0;
    while i < command.params.len()
        invariant
            i <= command.params.len(),
            views == command@.params,
            command_entry_ok(ctx, name@, command@),
            r@ == command_traits_text(ctx, name@, views.take(i as int)),
        decreases command.params.len() - i,
    {
        assert(views[i as int] == command.params@[i as int]@);
        let t = param_traits_to_rust(ctx, name, &command.params[i]);
        push_str(&mut r, t.as_str());
        assert(views.take(i + 1).drop_last() =~= views.take(i as int));
        assert(views.take(i + 1).last() == views[i as int]);
        i += 1;
    }
    assert(views.take(views.len() as int) =~= views);
    r
}

} // verus!

verus! {

proof fn lemma_tables_for_command_step(ctx: &Context, m: TablesView, ci: CommandItem, j: int)
    requires
        0 < j,
    ensures
        tables_for_command(ctx, m, ci, j) == ({
            let name = item_name(ci);
            let c = item_command(ctx, ci)@;
            let rb = item_required_by(ci);
            let key = (function_type_of(c), SingleDestinationView { library: rb.library, location: rb.locations[j - 1], reexport: false });
            add_to_table(
                tables_for_command(ctx, m, ci, j - 1),
                key,
                field_piece(ctx, name),
                loader_piece(ctx, name, c),
                command_traits_text(ctx, name, c.params),
            )
        }),
{
    reveal_with_fuel(tables_for_command, 1);
}

proof fn lemma_tables_after_step(ctx: &Context, k: int)
    requires
        0 < k,
    ensures
        tables_after(ctx, k) == ({
            let ci = ctx.items.commands@[k - 1].1;
            tables_for_command(ctx, tables_after(ctx, k - 1), ci, item_required_by(ci).locations.len() as int)
        }),
{
    reveal_with_fuel(tables_after, 1);
}

proof fn lemma_loader_code_fold_step(m: CodeMapView, tables: TablesView, k: int)
    requires
        0 < k,
    ensures
        loader_code_fold(m, tables, k) == ({
            let e = tables[k - 1];
            extend_spec(loader_code_fold(m, tables, k - 1), seq![(e.0.1, table_code_text(e.0.0, e.0.1, e.1.0, e.1.1, e.1.2))])
        }),
{
    reveal_with_fuel(loader_code_fold, 1);
}

/// The name, places and command of a command item.
pub(crate) fn command_of_item<'a>(ctx: &'a Context, ci: &'a CommandItem) -> (r: (&'a CommandName, &'a RequiredBy, &'a Command))
    requires
        item_resolves(ctx, *ci),
    ensures
        r.0@ == item_name(*ci),
        r.1@ == item_required_by(*ci),
        *r.2 == item_command(ctx, *ci),
{
    match ci {
        CommandItem::Alias(alias) => {
            proof {
                lemma_index_of_key(ctx.items.commands@, alias.alias@);
            }
            let i = find_key(&ctx.items.commands, alias.alias.original()).unwrap();
            match &ctx.items.commands[i].1 {
                CommandItem::Command(command) => (&alias.name, &alias.required_by, command),
                CommandItem::Alias(_) => vstd::pervasive::unreached(),
            }
        },
        CommandItem::Command(command) => (&command.name, &command.required_by, command),
    }
}

/// The code of a function table.
fn table_code(t: FunctionType, dest: &SingleDestination, table: &Table) -> (r: String)
    ensures
        r@ == table_code_text(t, dest@, table.fields@, table.loaders@, table.trait_impls@),
{
    let tn = t.table_name(dest);
    let tn = tn.as_str();
    let mut code = "#[derive(Clone)] pub struct ".to_owned();
    push_str(&mut code, tn);
    push_str(&mut code, " { ");
    push_str(&mut code, table.fields.as_str());
    push_str(&mut code, " } unsafe impl Send for ");
    push_str(&mut code, tn);
    push_str(&mut code, " {} unsafe impl Sync for ");
    push_str(&mut code, tn);
    push_str(&mut code, " {} impl ");
    push_str(&mut code, tn);
    push_str(
        &mut code,
        " { pub fn load<F: FnMut(&::core::ffi::CStr) -> *const ::core::ffi::c_void>(mut f: F) -> Self { Self::load_erased(&mut f) } fn load_erased(_f: &mut dyn FnMut(&::core::ffi::CStr) -> *const ::core::ffi::c_void) -> Self { Self { ",
    );
    push_str(&mut code, table.loaders.as_str());
    push_str(&mut code, " } } }");
    let ln = t.loader_name(dest);
    let ln = ln.as_str();
    match t {
        FunctionType::Instance => {
            push_str(&mut code, " #[derive(Clone)] pub struct ");
            push_str(&mut code, ln);
            push_str(&mut code, " { pub(crate) fp: ");
            push_str(&mut code, tn);
            push_str(&mut code, ", pub(crate) handle: crate::vk::Instance, } impl ");
            push_str(&mut code, ln);
            push_str(&mut code, " { pub fn load(entry: &crate::Entry, instance: &crate::Instance) -> Self { let handle = instance.handle; let fp = ");
            push_str(&mut code, tn);
            push_str(
                &mut code,
                "::load(|name| unsafe { core::mem::transmute(entry.get_instance_proc_addr(handle, name.as_ptr())) }); Self { handle, fp } } #[inline] pub fn fp(&self) -> &",
            );
            push_str(&mut code, tn);
            push_str(&mut code, " { &self.fp } #[inline] pub fn instance(&self) -> crate::vk::Instance { self.handle } }");
        },
        FunctionType::Device => {
            push_str(&mut code, " #[derive(Clone)] pub struct ");
            push_str(&mut code, ln);
            push_str(&mut code, " { pub(crate) fp: ");
            push_str(&mut code, tn);
            push_str(&mut code, ", pub(crate) handle: crate::vk::Device, } impl ");
            push_str(&mut code, ln);
            push_str(&mut code, " { pub fn load(instance: &crate::Instance, device: &crate::Device) -> Self { let handle = device.handle; let fp = ");
            push_str(&mut code, tn);
            push_str(
                &mut code,
                "::load(|name| unsafe { core::mem::transmute(instance.get_device_proc_addr(handle, name.as_ptr())) }); Self { handle, fp } } #[inline] pub fn fp(&self) -> &",
            );
            push_str(&mut code, tn);
            push_str(&mut code, " { &self.fp } #[inline] pub fn device(&self) -> crate::vk::Device { self.handle } }");
        },
        _ => {},
    }
    push_str(&mut code, " ");
    push_str(&mut code, table.trait_impls.as_str());
    code
}

/// The tables that the commands fill.
fn gather_tables(ctx: &Context) -> (r: Tables)
    requires
        loader_code_ok(ctx),
    ensures
        r@ == tables_after(ctx, ctx.items.commands@.len() as int),
{
    let mut tables = Tables { entries: Vec::new() };
    proof {
        reveal_with_fuel(tables_after, 1);
        assert(tables@ =~= tables_after(ctx, 0));
    }
    let mut k: usize = 0;
    while k < ctx.items.commands.len()
        invariant
            k <= ctx.items.commands@.len(),
            loader_code_ok(ctx),
            tables@ == tables_after(ctx, k as int),
        decreases ctx.items.commands.len() - k,
    {
        let ci = &ctx.items.commands[k].1;
        assert(ctx.items.commands@[k as int].1 == *ci);
        let (name, required_by, command) = command_of_item(ctx, ci);
        let mut dest = Destination::new(required_by.copy());
        dest.reexport = false;
        let singles = dest.single_dests();
        let ghost start = tables@;
        proof {
            reveal_with_fuel(tables_for_command, 1);
            assert(singles@.map_values(|s: SingleDestination| s@).len() == singles@.len());
            assert(single_dests_spec(dest@).len() == dest@.locations.len());
        }
        if singles.len() > 0 {
            let field_ident = field_name(name);
            let command_ty = ctx.command_to_rust(name, true);
            let mut field = "pub ".to_owned();
            push_str(&mut field, field_ident.as_str());
            push_str(&mut field, ": ");
            push_str(&mut field, command_ty.as_str());
            push_str(&mut field, ",");
            let loader = loader_to_rust(ctx, name, command);
            let traits = command_traits_to_rust(ctx, name, command);
            let mut j: usize = 0;
            while j < singles.len()
                invariant
                    j <= singles.len(),
                    singles@.map_values(|s: SingleDestination| s@) == single_dests_spec(dest@),
                    singles@.len() == dest@.locations.len(),
                    dest@.library == item_required_by(*ci).library,
                    dest@.locations == item_required_by(*ci).locations,
                    dest@.reexport == false,
                    *command == item_command(ctx, *ci),
                    name@ == item_name(*ci),
                    of_command_ok(command@),
                    field@ == field_piece(ctx, name@),
                    loader@ == loader_piece(ctx, name@, command@),
                    traits@ == command_traits_text(ctx, name@, command@.params),
                    tables@ == tables_for_command(ctx, start, *ci, j as int),
                decreases singles.len() - j,
            {
                let function_type = FunctionType::of_command(command);
                assert(singles@[j as int]@ == single_dests_spec(dest@)[j as int]);
                tables.add(function_type, singles[j].copy(), field.as_str(), loader.as_str(), traits.as_str());
                proof {
                    lemma_tables_for_command_step(ctx, start, *ci, j + 1);
                    let rb = item_required_by(*ci);
                    assert(j < dest@.locations.len());
                    assert(single_dests_spec(dest@)[j as int] == (SingleDestinationView { library: dest@.library, location: dest@.locations[j as int], reexport: dest@.reexport }));
                    assert(function_type == function_type_of(item_command(ctx, *ci)@));
                    assert(singles@[j as int]@ == (SingleDestinationView { library: rb.library, location: rb.locations[j as int], reexport: false }));
                    assert(field@ == field_piece(ctx, item_name(*ci)));
                    assert(loader@ == loader_piece(ctx, item_name(*ci), item_command(ctx, *ci)@));
                }
                j += 1;
            }
        }
        assert(tables@ == tables_for_command(ctx, start, *ci, item_required_by(*ci).locations.len() as int));
        proof {
            lemma_tables_after_step(ctx, k + 1);
        }
        k += 1;
    }
    tables
}

/// Adds the function tables of all commands, and their loaders, to the code map.
pub fn generate_code(ctx: &Context, codemap: &mut CodeMap)
    requires
        loader_code_ok(ctx),
    ensures
        final(codemap)@ == loader_code(ctx, old(codemap)@),
{
    let tables = gather_tables(ctx);
    let ghost tv = tables@;
    proof {
        reveal_with_fuel(loader_code_fold, 1);
    }
    let mut k: usize = 0;
    while k < tables.entries.len()
        invariant
            k <= tables.entries.len(),
            tables@ == tv,
            tv == tables_after(ctx, ctx.items.commands@.len() as int),
            codemap@ == loader_code_fold(old(codemap)@, tv, k as int),
        decreases tables.entries.len() - k,
    {
        let function_type = tables.entries[k].0.0;
        let dest = &tables.entries[k].0.1;
        let table = &tables.entries[k].1;
        assert(tv[k as int] == ((function_type, dest@), (table.fields@, table.loaders@, table.trait_impls@)));
        let code = table_code(function_type, dest, table);
        codemap.extend(CodeMap::new(dest.copy(), code));
        proof {
            lemma_loader_code_fold_step(old(codemap)@, tv, k + 1);
        }
        k += 1;
    }
}

} // verus!
