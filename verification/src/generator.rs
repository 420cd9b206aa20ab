//! Text that the generator writes: documentation links, identifiers, parameter names.
use vstd::prelude::*;
use crate::decl::RustType;
use crate::ident::{check_ident, format_ident, ident_ok, parse_ident, shouty_snake_case, snake_case, syn_ident, to_shouty_snek_case, to_snek_case};
use crate::items::{Items, TypeItem};
use crate::names::{
    CMacroName, CommandName, ConstantName, EnumeratorName, FuncPointerName, RegistryName, TypeName, VariableName, constant_trimmed,
    enumerator_stripped, type_trimmed,
};
use crate::require::{find_key, lemma_index_of_key, lookup};
use crate::to_rust::{Lifetime, RustTranslator};
use crate::files::{layout, layout_mods, layout_ok, orders_fit};
use crate::item::{extend_all, item_codes, items_code_ok};
use crate::loader::{loader_code, loader_code_ok};
use crate::output::{CodeMap, CodeMapView};
use crate::vfs::VirtualRustFs;
use crate::text::{ascii_lowercase_spec, has_prefix, push_str, replace, replace_all, str_eq, strip_prefix, to_ascii_lowercase};

verus! {

/// Whether a name gets a link to its manual page: it begins with `vk` in any case.
pub open spec fn has_refpage(target: Seq<char>) -> bool {
    &&& target.len() >= 2
    &&& (target[0] == 'v' || target[0] == 'V')
    &&& (target[1] == 'k' || target[1] == 'K')
}

/// The documentation line of an item: a link to its manual page (struck through where
/// the name has none), a middle dot, and the description.
pub open spec fn refpage_doc_spec(target: Seq<char>, description: Seq<char>) -> Seq<char> {
    let refpage = if has_refpage(target) {
        "[Vulkan Manual Page](https://docs.vulkan.org/refpages/latest/refpages/source/"@ + target + ".html)"@
    } else {
        "<s>Vulkan Manual Page</s>"@
    };
    refpage + " \u{b7} "@ + description
}

pub fn refpage_doc(target: &str, description: &str) -> (r: String)
    ensures
        r@ == refpage_doc_spec(target@, description@),
{
    let n = target.unicode_len();
    let valid = n >= 2 && {
        let a = target.get_char(0);
        let b = target.get_char(1);
        (a == 'v' || a == 'V') && (b == 'k' || b == 'K')
    };
    let mut r = String::new();
    if valid {
        push_str(&mut r, "[Vulkan Manual Page](https://docs.vulkan.org/refpages/latest/refpages/source/");
        push_str(&mut r, target);
        push_str(&mut r, ".html)");
    } else {
        push_str(&mut r, "<s>Vulkan Manual Page</s>");
    }
    push_str(&mut r, " \u{b7} ");
    push_str(&mut r, description);
    r
}

/// The identifier that `escape_ident` makes of a name: the name as `syn` reads it, or
/// the name behind an underscore where `syn` reads no identifier.
pub open spec fn escape_ident_spec(name: Seq<char>) -> Seq<char> {
    match syn_ident(name) {
        Some(t) => t,
        None => "_"@ + name,
    }
}

/// The names that `escape_ident` takes without panicking.
pub open spec fn escape_ident_ok(name: Seq<char>) -> bool {
    syn_ident(name) is Some || ident_ok("_"@ + name)
}

/// Whether `escape_ident` takes `name` without panicking.
pub fn check_escape_ident(name: &str) -> (r: bool)
    ensures
        r == escape_ident_ok(name@),
{
    match parse_ident(name) {
        Some(_) => true,
        None => {
            let mut s = String::new();
            push_str(&mut s, "_");
            push_str(&mut s, name);
            check_ident(s.as_str())
        },
    }
}

/// Prepends an underscore in case the name is not a valid identifier.
pub fn escape_ident(name: &str) -> (r: String)
    requires
        escape_ident_ok(name@),
    ensures
        r@ == escape_ident_spec(name@),
{
    match parse_ident(name) {
        Some(t) => t,
        None => {
            let mut s = String::new();
            push_str(&mut s, "_");
            push_str(&mut s, name);
            proof {
                reveal_strlit("r#");
                reveal_strlit("_");
                assert(!has_prefix(s@, "r#"@)) by {
                    assert(s@[0] == '_');
                    if has_prefix(s@, "r#"@) {
                        assert(s@.subrange(0, 2)[0] == 'r');
                    }
                }
            }
            format_ident(s.as_str())
        },
    }
}

/// `s` with every leading copy of `p` removed (`str::trim_start_matches`).
pub open spec fn trim_start_all(s: Seq<char>, p: Seq<char>) -> Seq<char>
    decreases s.len(),
{
    if p.len() > 0 && has_prefix(s, p) {
        trim_start_all(s.subrange(p.len() as int, s.len() as int), p)
    } else {
        s
    }
}

fn trim_start_matches<'a>(s: &'a str, p: &str) -> (r: &'a str)
    requires
        p@.len() > 0,
    ensures
        r@ == trim_start_all(s@, p@),
{
    let mut cur: &str = s;
    loop
        invariant
            p@.len() > 0,
            trim_start_all(cur@, p@) == trim_start_all(s@, p@),
        decreases cur@.len(),
    {
        match strip_prefix(cur, p) {
            Some(rest) => {
                cur = rest;
            },
            None => {
                return cur;
            },
        }
    }
}

/// The name of a parameter without its pointer prefixes `p_` and `pp_`; two names that
/// stay arrays of pointers get `_ptrs` appended.
pub open spec fn trim_p_pps_spec(name: Seq<char>) -> Seq<char> {
    let trimmed = trim_start_all(trim_start_all(name, "p_"@), "pp_"@);
    if name == "pp_usage_counts"@ || name == "pp_geometries"@ {
        trimmed + "_ptrs"@
    } else {
        trimmed
    }
}

pub fn trim_p_pps(name: &str) -> (r: String)
    ensures
        r@ == trim_p_pps_spec(name@),
{
    proof {
        reveal_strlit("p_");
        reveal_strlit("pp_");
    }
    let trimmed = trim_start_matches(trim_start_matches(name, "p_"), "pp_");
    let mut r = trimmed.to_owned();
    if str_eq(name, "pp_usage_counts") || str_eq(name, "pp_geometries") {
        push_str(&mut r, "_ptrs");
    }
    r
}

} // verus!

verus! {

/// The generator's view of the analysis: it turns names into Rust paths.
pub struct Context {
    pub items: Items,
}

/// `crate::vk::` where a path is qualified.
pub open spec fn vk_path(qualified: bool) -> Seq<char> {
    if qualified {
        "crate::vk::"@
    } else {
        ""@
    }
}

fn push_vk_path(s: &mut String, qualified: bool)
    ensures
        final(s)@ == old(s)@ + vk_path(qualified),
{
    if qualified {
        push_str(s, "crate::vk::");
    } else {
        push_str(s, "");
    }
}

impl Context {
    /// What the analysis knows of a type, where it knows the type.
    pub open spec fn type_item(&self, name: Seq<char>) -> Option<TypeItem> {
        lookup(self.items.types@, name)
    }

    /// The identifier of a type, `FlagBits` spelt `Flags` where `flags` holds.
    pub open spec fn type_ident_source(&self, name: Seq<char>, flags: bool) -> Seq<char> {
        let trimmed = type_trimmed(name, self.type_item(name).unwrap().library);
        if flags {
            replace_all(trimmed, "FlagBits"@, "Flags"@)
        } else {
            trimmed
        }
    }

    pub open spec fn type_text_with(&self, name: Seq<char>, qualified: bool, lifetime: Seq<char>, flags: bool) -> Seq<char> {
        vk_path(qualified) + syn_ident(self.type_ident_source(name, flags)).unwrap() + if self.type_item(name).unwrap().has_lifetime {
            "<"@ + lifetime + ">"@
        } else {
            ""@
        }
    }

    pub open spec fn type_ok_with(&self, name: Seq<char>, flags: bool) -> bool {
        self.type_item(name) is Some && syn_ident(self.type_ident_source(name, flags)) is Some
    }

    fn type_to_rust_with(&self, name: &TypeName, qualified: bool, lifetime: &Lifetime, flags: bool) -> (r: String)
        requires
            self.type_ok_with(name@, flags),
        ensures
            r@ == self.type_text_with(name@, qualified, lifetime@, flags),
    {
        proof {
            lemma_index_of_key(self.items.types@, name@);
        }
        let i = find_key(&self.items.types, name.original()).unwrap();
        let type_item = &self.items.types[i].1;
        let trimmed = name.prefix_trimmed(type_item.library);
        let source = if flags {
            proof {
                reveal_strlit("FlagBits");
            }
            replace(trimmed.as_str(), "FlagBits", "Flags")
        } else {
            trimmed
        };
        let ident = parse_ident(source.as_str()).unwrap();
        let mut r = String::new();
        push_vk_path(&mut r, qualified);
        push_str(&mut r, ident.as_str());
        if type_item.has_lifetime {
            push_str(&mut r, "<");
            push_str(&mut r, lifetime.text.as_str());
            push_str(&mut r, ">");
        } else {
            push_str(&mut r, "");
        }
        r
    }

    /// Whether `type_to_rust` takes a type name.
    pub fn check_type(&self, name: &TypeName, flags: bool) -> (r: bool)
        ensures
            r == self.type_ok_with(name@, flags),
    {
        proof {
            lemma_index_of_key(self.items.types@, name@);
        }
        match find_key(&self.items.types, name.original()) {
            None => false,
            Some(i) => {
                let trimmed = name.prefix_trimmed(self.items.types[i].1.library);
                let source = if flags {
                    proof {
                        reveal_strlit("FlagBits");
                    }
                    replace(trimmed.as_str(), "FlagBits", "Flags")
                } else {
                    trimmed
                };
                parse_ident(source.as_str()).is_some()
            },
        }
    }

    /// The path of a type as `type_to_rust` writes it, but with `FlagBits` kept.
    pub fn type_to_rust2(&self, name: &TypeName, qualified: bool, lifetime: &Lifetime) -> (r: String)
        requires
            self.type_ok_with(name@, false),
        ensures
            r@ == self.type_text_with(name@, qualified, lifetime@, false),
    {
        self.type_to_rust_with(name, qualified, lifetime, false)
    }

    /// The identifier that a registry name gives, prefixed with `prefix` and the path.
    pub open spec fn ident_text(path: Seq<char>, source: Seq<char>) -> Seq<char> {
        path + syn_ident(source).unwrap()
    }

    pub open spec fn enumerator_ident(&self, name: Seq<char>, owner: Seq<char>) -> Seq<char> {
        shouty_snake_case(enumerator_stripped(name, owner, self.type_item(owner).unwrap().library))
    }

    pub open spec fn cmacro_source(&self, name: Seq<char>) -> Seq<char> {
        if lookup(self.items.cmacros@, name).unwrap().args@.len() > 0 {
            constant_trimmed(name)
        } else {
            ascii_lowercase_spec(constant_trimmed(name))
        }
    }
}

fn ident_with_path(path: &str, source: &str) -> (r: String)
    requires
        syn_ident(source@) is Some,
    ensures
        r@ == path@ + syn_ident(source@).unwrap(),
{
    let ident = parse_ident(source).unwrap();
    let mut r = path.to_owned();
    push_str(&mut r, ident.as_str());
    r
}

fn qualified_path(qualified: bool, path: &str) -> (r: &str)
    ensures
        r@ == if qualified {
            path@
        } else {
            ""@
        },
{
    if qualified {
        path
    } else {
        ""
    }
}

impl RustTranslator for Context {
    open spec fn var_name_text(&self, name: Seq<char>) -> Seq<char> {
        escape_ident_spec(snake_case(name))
    }

    open spec fn var_name_ok(&self, name: Seq<char>) -> bool {
        escape_ident_ok(snake_case(name))
    }

    open spec fn trimmed_var_name_text(&self, name: Seq<char>) -> Seq<char> {
        escape_ident_spec(trim_p_pps_spec(snake_case(name)))
    }

    open spec fn trimmed_var_name_ok(&self, name: Seq<char>) -> bool {
        escape_ident_ok(trim_p_pps_spec(snake_case(name)))
    }

    open spec fn type_text(&self, name: Seq<char>, qualified: bool, lifetime: Seq<char>) -> Seq<char> {
        self.type_text_with(name, qualified, lifetime, true)
    }

    open spec fn type_ok(&self, name: Seq<char>) -> bool {
        self.type_ok_with(name, true)
    }

    open spec fn func_pointer_text(&self, name: Seq<char>, qualified: bool) -> Seq<char> {
        Context::ident_text(vk_path(qualified), name)
    }

    open spec fn func_pointer_ok(&self, name: Seq<char>) -> bool {
        syn_ident(name) is Some
    }

    open spec fn command_text(&self, name: Seq<char>, qualified: bool) -> Seq<char> {
        Context::ident_text(vk_path(qualified), "PFN_"@ + name)
    }

    open spec fn command_ok(&self, name: Seq<char>) -> bool {
        syn_ident("PFN_"@ + name) is Some
    }

    open spec fn constant_text(&self, name: Seq<char>, qualified: bool) -> Seq<char> {
        Context::ident_text(vk_path(qualified), constant_trimmed(name))
    }

    open spec fn constant_ok(&self, name: Seq<char>) -> bool {
        syn_ident(constant_trimmed(name)) is Some
    }

    open spec fn enumerator_text(&self, name: Seq<char>, owner: Seq<char>, qualified: bool) -> Seq<char> {
        let path = if qualified {
            self.type_text(owner, true, "'_"@) + "::"@
        } else {
            ""@
        };
        path + escape_ident_spec(self.enumerator_ident(name, owner))
    }

    open spec fn enumerator_ok(&self, name: Seq<char>, owner: Seq<char>, qualified: bool) -> bool {
        &&& self.type_item(owner) is Some
        &&& escape_ident_ok(self.enumerator_ident(name, owner))
        &&& qualified ==> self.type_ok(owner)
    }

    open spec fn cmacro_text(&self, name: Seq<char>, qualified: bool) -> Seq<char> {
        Context::ident_text(vk_path(qualified), self.cmacro_source(name))
    }

    open spec fn cmacro_ok(&self, name: Seq<char>) -> bool {
        lookup(self.items.cmacros@, name) is Some && syn_ident(self.cmacro_source(name)) is Some
    }

    open spec fn platform_text(&self, raw: Seq<char>, qualified: bool) -> Seq<char> {
        Context::ident_text(
            if qualified {
                "crate::platform_types::"@
            } else {
                ""@
            },
            raw,
        )
    }

    open spec fn platform_ok(&self, raw: Seq<char>) -> bool {
        syn_ident(raw) is Some
    }

    open spec fn rust_type_text(&self, ty: RustType) -> Seq<char> {
        match ty {
            RustType::CStr => "core::ffi::CStr"@,
        }
    }

    fn var_name_to_rust(&self, name: &VariableName) -> (r: String) {
        let snake = to_snek_case(name.original());
        escape_ident(snake.as_str())
    }

    fn trimmed_var_name_to_rust(&self, name: &VariableName) -> (r: String) {
        let snake = to_snek_case(name.original());
        let trimmed = trim_p_pps(snake.as_str());
        escape_ident(trimmed.as_str())
    }

    fn type_to_rust(&self, name: &TypeName, qualified: bool, lifetime: &Lifetime) -> (r: String) {
        self.type_to_rust_with(name, qualified, lifetime, true)
    }

    fn func_pointer_to_rust(&self, name: &FuncPointerName, qualified: bool) -> (r: String) {
        ident_with_path(qualified_path(qualified, "crate::vk::"), name.original())
    }

    fn command_to_rust(&self, name: &CommandName, qualified: bool) -> (r: String) {
        let mut source = "PFN_".to_owned();
        push_str(&mut source, name.original());
        ident_with_path(qualified_path(qualified, "crate::vk::"), source.as_str())
    }

    fn constant_to_rust(&self, name: &ConstantName, qualified: bool) -> (r: String) {
        let trimmed = name.prefix_trimmed();
        ident_with_path(qualified_path(qualified, "crate::vk::"), trimmed.as_str())
    }

    fn enumerator_to_rust(&self, name: &EnumeratorName, owner: &TypeName, qualified: bool) -> (r: String) {
        proof {
            lemma_index_of_key(self.items.types@, owner@);
        }
        let i = find_key(&self.items.types, owner.original()).unwrap();
        let stripped = name.stripped(owner, self.items.types[i].1.library);
        let shouty = to_shouty_snek_case(stripped.as_str());
        let ident = escape_ident(shouty.as_str());
        let mut r = String::new();
        if qualified {
            let placeholder = Lifetime::placeholder();
            let bits_name = self.type_to_rust(owner, true, &placeholder);
            push_str(&mut r, bits_name.as_str());
            push_str(&mut r, "::");
        } else {
            push_str(&mut r, "");
        }
        push_str(&mut r, ident.as_str());
        r
    }

    fn cmacro_to_rust(&self, name: &CMacroName, qualified: bool) -> (r: String) {
        proof {
            lemma_index_of_key(self.items.cmacros@, name@);
        }
        let i = find_key(&self.items.cmacros, name.original()).unwrap();
        let trimmed = name.prefix_trimmed();
        let source = if self.items.cmacros[i].1.has_args() {
            trimmed
        } else {
            to_ascii_lowercase(trimmed.as_str())
        };
        ident_with_path(qualified_path(qualified, "crate::vk::"), source.as_str())
    }

    fn check_cmacro(&self, name: &CMacroName) -> (r: bool) {
        proof {
            lemma_index_of_key(self.items.cmacros@, name@);
        }
        match find_key(&self.items.cmacros, name.original()) {
            None => false,
            Some(i) => {
                let trimmed = name.prefix_trimmed();
                let source = if self.items.cmacros[i].1.has_args() {
                    trimmed
                } else {
                    to_ascii_lowercase(trimmed.as_str())
                };
                parse_ident(source.as_str()).is_some()
            },
        }
    }

    fn platform_type_to_rust(&self, raw: &str, qualified: bool) -> (r: String) {
        ident_with_path(qualified_path(qualified, "crate::platform_types::"), raw)
    }

    fn rust_type_to_rust(&self, ty: &RustType) -> (r: String) {
        match ty {
            RustType::CStr => "core::ffi::CStr".to_owned(),
        }
    }
}

} // verus!

verus! {

/// All generated code by destination: the items' code, then the function tables.
pub open spec fn generated_code(ctx: &Context) -> CodeMapView {
    let items = item_codes(ctx);
    loader_code(ctx, extend_all(Seq::empty(), items, items.len() as int))
}

/// Generates the code of everything the analysis keeps and lays it out as files, which
/// the caller writes to disk.
pub fn generate(ctx: &Context) -> (r: VirtualRustFs)
    requires
        items_code_ok(ctx),
        loader_code_ok(ctx),
        layout_ok(generated_code(ctx)),
    ensures
        exists|orders: Seq<Seq<Seq<char>>>| orders_fit(layout_mods(generated_code(ctx)), orders) && r@ == layout(generated_code(ctx), orders),
{
    let mut codemap = CodeMap::empty();
    crate::item::generate_code(ctx, &mut codemap);
    crate::loader::generate_code(ctx, &mut codemap);
    codemap.write()
}

} // verus!
