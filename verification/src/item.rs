//! The code generated for each kind of registry item, placed by destination.
use vstd::prelude::*;
use crate::decl::TyView;
use crate::generator::Context;
use crate::ident::{str_literal, string_literal};
use crate::items::{BaseType, BitItem, BitMask, BitValue, BitWidth, CMacro, Constant, ConstantType, Enum, EnumItem, EnumValue};
use crate::output::{
    CodeMap, CodeMapView, Destination, SingleDestination, SingleDestinationView, doc_link_spec, extend_spec, insert_code, path_ok,
};
use crate::require::{RequiredBy, RequiredByView};
use crate::text::{decimal, i32_decimal, i32_to_string, push_str, u32_to_string};
use crate::to_rust::{Lifetime, RustTranslator, cexpr_ok, cexpr_text, primary_text, ty_ok, ty_text};
use crate::xml::CExprItem;

verus! {

/// The place where an item is taken to be defined: the first place that requires it.
pub open spec fn primary_dest(rb: RequiredByView) -> SingleDestinationView {
    SingleDestinationView { library: rb.library, location: rb.locations[0], reexport: true }
}

pub open spec fn placeholder() -> Seq<char> {
    "'_"@
}

/// A code map with code at the primary place of an item.
fn at_primary(required_by: &RequiredBy, code: String) -> (r: CodeMap)
    requires
        required_by@.locations.len() > 0,
    ensures
        r@ == seq![(primary_dest(required_by@), code@)],
{
    CodeMap::new_from_primary(Destination::new(required_by.copy()), code)
}

/// `pub type <name> = <type>;`
pub open spec fn base_type_text(ctx: &Context, b: BaseType) -> Seq<char> {
    "pub type "@ + ctx.type_text(b.name@, false, placeholder()) + " = "@ + ty_text(ctx, b.ty@, placeholder()) + ";"@
}

impl BaseType {
    pub fn code(&self, ctx: &Context) -> (r: CodeMap)
        requires
            self.required_by@.locations.len() > 0,
            ctx.type_ok(self.name@),
            ty_ok(ctx, self.ty@),
        ensures
            r@ == seq![(primary_dest(self.required_by@), base_type_text(ctx, *self))],
    {
        let ph = Lifetime::placeholder();
        let name = ctx.type_to_rust(&self.name, false, &ph);
        let ty = self.ty.to_rust(ctx, &ph);
        let mut code = "pub type ".to_owned();
        push_str(&mut code, name.as_str());
        push_str(&mut code, " = ");
        push_str(&mut code, ty.as_str());
        push_str(&mut code, ";");
        at_primary(&self.required_by, code)
    }
}

/// The Rust type of a constant.
pub open spec fn constant_type_text(t: ConstantType) -> Seq<char> {
    match t {
        ConstantType::Integer(p) => primary_text(p),
        ConstantType::String => "& core::ffi::CStr"@,
    }
}

/// `pub const <name>: <type> = <value>;`
pub open spec fn constant_code_text(ctx: &Context, c: Constant) -> Seq<char> {
    "pub const "@ + ctx.constant_text(c.name@, false) + ": "@ + constant_type_text(c.ty) + " = "@ + cexpr_text(ctx, c.value@) + ";"@
}

impl Constant {
    pub fn code(&self, ctx: &Context) -> (r: CodeMap)
        requires
            self.required_by@.locations.len() > 0,
            ctx.constant_ok(self.name@),
            cexpr_ok(ctx, self.value@),
        ensures
            r@ == seq![(primary_dest(self.required_by@), constant_code_text(ctx, *self))],
    {
        let name = ctx.constant_to_rust(&self.name, false);
        let ty = match self.ty {
            ConstantType::Integer(primary_ty) => ctx.primary_type_to_rust(primary_ty),
            ConstantType::String => "& core::ffi::CStr".to_owned(),
        };
        let value = CExprItem::to_rust(&self.value, ctx);
        let mut code = "pub const ".to_owned();
        push_str(&mut code, name.as_str());
        push_str(&mut code, ": ");
        push_str(&mut code, ty.as_str());
        push_str(&mut code, " = ");
        push_str(&mut code, value.as_str());
        push_str(&mut code, ";");
        at_primary(&self.required_by, code)
    }
}

/// A macro with parameters becomes a `u32` constant of its body; one without becomes a
/// `const fn` of no parameters that returns its body.
pub open spec fn cmacro_code_text(ctx: &Context, m: CMacro) -> Seq<char> {
    let name = ctx.cmacro_text(m.name@, false);
    let expr = cexpr_text(ctx, m.cexpr@);
    if m.args@.len() > 0 {
        "pub const "@ + name + ": u32 = "@ + expr + ";"@
    } else {
        "pub const fn "@ + name + "() -> u32 { "@ + expr + " }"@
    }
}

impl CMacro {
    pub fn code(&self, ctx: &Context) -> (r: CodeMap)
        requires
            self.required_by@.locations.len() > 0,
            ctx.cmacro_ok(self.name@),
            cexpr_ok(ctx, self.cexpr@),
        ensures
            r@ == seq![(primary_dest(self.required_by@), cmacro_code_text(ctx, *self))],
    {
        let name = ctx.cmacro_to_rust(&self.name, false);
        let expr = CExprItem::to_rust(&self.cexpr, ctx);
        let code = if self.has_args() {
            let mut code = "pub const ".to_owned();
            push_str(&mut code, name.as_str());
            push_str(&mut code, ": u32 = ");
            push_str(&mut code, expr.as_str());
            push_str(&mut code, ";");
            code
        } else {
            let mut code = "pub const fn ".to_owned();
            push_str(&mut code, name.as_str());
            push_str(&mut code, "() -> u32 { ");
            push_str(&mut code, expr.as_str());
            push_str(&mut code, " }");
            code
        };
        at_primary(&self.required_by, code)
    }
}

} // verus!

verus! {

pub open spec fn enum_struct_text(name: Seq<char>) -> Seq<char> {
    "#[repr(transparent)] #[derive(Clone, Copy, PartialEq, Eq, PartialOrd, Ord, Hash, Default)] #[derive(Debug)] pub struct "@ + name
        + "(pub(crate) i32);"@
}

pub open spec fn enum_raw_fns_text() -> Seq<char> {
    "#[inline] pub const fn from_raw(x: i32) -> Self { Self(x) } #[inline] pub const fn as_raw(self) -> i32 { self.0 }"@
}

/// The value of an enumerator, as a `Self` expression.
pub open spec fn enum_value_text(ctx: &Context, owner: Seq<char>, v: EnumValue) -> Seq<char> {
    match v {
        EnumValue::Variant(n) => "Self("@ + i32_decimal(n) + ")"@,
        EnumValue::Expr(e) => "Self("@ + cexpr_text(ctx, e@) + ")"@,
        EnumValue::Alias(a) => "Self::"@ + ctx.enumerator_text(a@, owner, false),
    }
}

pub open spec fn enum_value_ok(ctx: &Context, owner: Seq<char>, v: EnumValue) -> bool {
    match v {
        EnumValue::Variant(_) => true,
        EnumValue::Expr(e) => cexpr_ok(ctx, e@),
        EnumValue::Alias(a) => ctx.enumerator_ok(a@, owner, false),
    }
}

/// `pub const <enumerator>: Self = <value>;`
pub open spec fn const_text(ctx: &Context, owner: Seq<char>, name: Seq<char>, value: Seq<char>) -> Seq<char> {
    "pub const "@ + ctx.enumerator_text(name, owner, false) + ": Self = "@ + value + ";"@
}

/// The bodies of the `impl` blocks of an enum after its first `k` enumerators: each
/// enumerator goes to the primary place of the places that require it.
#[verifier::opaque]
pub open spec fn enum_impls(ctx: &Context, e: Enum, k: int) -> CodeMapView
    decreases k,
{
    if k <= 0 {
        seq![(primary_dest(e.required_by@), enum_raw_fns_text())]
    } else {
        let it = e.items@[k - 1];
        extend_spec(
            enum_impls(ctx, e, k - 1),
            seq![(primary_dest(it.1.required_by@), const_text(ctx, e.name@, it.0@, enum_value_text(ctx, e.name@, it.1.value)))],
        )
    }
}

/// An `impl` block with a link to the module that provides it; the type's path is
/// qualified away from the primary place.
pub open spec fn impl_block_text(type_path: Seq<char>, dest: SingleDestinationView, tokens: Seq<char>) -> Seq<char> {
    "#[doc = "@ + str_literal(doc_link_spec(dest)) + "] impl "@ + type_path + " { "@ + tokens + " }"@
}

/// The code of an enum after its first `k` `impl` blocks.
#[verifier::opaque]
pub open spec fn enum_code_fold(ctx: &Context, e: Enum, impls: CodeMapView, k: int) -> CodeMapView
    decreases k,
{
    let gp = primary_dest(e.required_by@);
    if k <= 0 {
        seq![(gp, enum_struct_text(ctx.type_text(e.name@, false, placeholder())))]
    } else {
        let d = impls[k - 1].0;
        extend_spec(
            enum_code_fold(ctx, e, impls, k - 1),
            seq![(d, impl_block_text(ctx.type_text(e.name@, d != gp, placeholder()), d, impls[k - 1].1))],
        )
    }
}

/// The code of an enum: the struct at its primary place, then its constants in `impl`
/// blocks at the places that require them.
pub open spec fn enum_code(ctx: &Context, e: Enum) -> CodeMapView {
    let impls = enum_impls(ctx, e, e.items@.len() as int);
    enum_code_fold(ctx, e, impls, impls.len() as int)
}

/// The enums whose code can be made.
pub open spec fn enum_code_ok(ctx: &Context, e: Enum) -> bool {
    &&& e.required_by@.locations.len() > 0
    &&& path_ok(primary_dest(e.required_by@))
    &&& ctx.type_ok(e.name@)
    &&& forall|i: int|
        0 <= i < e.items@.len() ==> {
            let it = #[trigger] e.items@[i];
            &&& it.1.required_by@.locations.len() > 0
            &&& path_ok(primary_dest(it.1.required_by@))
            &&& ctx.enumerator_ok(it.0@, e.name@, false)
            &&& enum_value_ok(ctx, e.name@, it.1.value)
        }
}

/// Each destination of the `impl` blocks of an enum is its primary place or that of
/// one of its enumerators.
proof fn lemma_enum_impls_paths(ctx: &Context, e: Enum, k: int)
    requires
        enum_code_ok(ctx, e),
        0 <= k <= e.items@.len(),
    ensures
        forall|j: int| 0 <= j < enum_impls(ctx, e, k).len() ==> path_ok(#[trigger] enum_impls(ctx, e, k)[j].0),
        enum_impls(ctx, e, k).len() > 0,
    decreases k,
{
    if k == 0 {
        reveal_with_fuel(enum_impls, 1);
    } else {
        lemma_enum_impls_step(ctx, e, k);
        lemma_enum_impls_paths(ctx, e, k - 1);
        let it = e.items@[k - 1];
        let d = primary_dest(it.1.required_by@);
        let t = const_text(ctx, e.name@, it.0@, enum_value_text(ctx, e.name@, it.1.value));
        let prev = enum_impls(ctx, e, k - 1);
        crate::output::lemma_extend_one(prev, d, t);
        crate::output::lemma_insert_dests(prev, d, t);
    }
}

fn enum_value_to_rust(ctx: &Context, owner: &crate::names::TypeName, v: &EnumValue) -> (r: String)
    requires
        enum_value_ok(ctx, owner@, *v),
    ensures
        r@ == enum_value_text(ctx, owner@, *v),
{
    match v {
        EnumValue::Variant(variant) => {
            let mut r = "Self(".to_owned();
            let literal = i32_to_string(*variant);
            push_str(&mut r, literal.as_str());
            push_str(&mut r, ")");
            r
        },
        EnumValue::Expr(cexpr_items) => {
            let mut r = "Self(".to_owned();
            let expr = CExprItem::to_rust(cexpr_items, ctx);
            push_str(&mut r, expr.as_str());
            push_str(&mut r, ")");
            r
        },
        EnumValue::Alias(enumerator_name) => {
            let mut r = "Self::".to_owned();
            let alias = ctx.enumerator_to_rust(enumerator_name, owner, false);
            push_str(&mut r, alias.as_str());
            r
        },
    }
}

fn impl_block(type_path: &str, dest: &SingleDestination, tokens: &str) -> (r: String)
    requires
        path_ok(dest@),
    ensures
        r@ == impl_block_text(type_path@, dest@, tokens@),
{
    let doc = dest.doc_link();
    let doc = string_literal(doc.as_str());
    let mut r = "#[doc = ".to_owned();
    push_str(&mut r, doc.as_str());
    push_str(&mut r, "] impl ");
    push_str(&mut r, type_path);
    push_str(&mut r, " { ");
    push_str(&mut r, tokens);
    push_str(&mut r, " }");
    r
}

/// Adds an `impl` block for a type at a destination.
fn push_impl_block(
    codemap: &mut CodeMap,
    type_path: &str,
    dest: &SingleDestination,
    tokens: &str,
)
    requires
        path_ok(dest@),
    ensures
        final(codemap)@ == extend_spec(old(codemap)@, seq![(dest@, impl_block_text(type_path@, dest@, tokens@))]),
{
    let block = impl_block(type_path, dest, tokens);
    codemap.extend(CodeMap::new(dest.copy(), block));
}

/// The bodies of the `impl` blocks of an enum after its first `k` enumerators, one
/// step further.
proof fn lemma_enum_impls_step(ctx: &Context, e: Enum, k: int)
    requires
        0 < k,
    ensures
        enum_impls(ctx, e, k) == ({
            let it = e.items@[k - 1];
            extend_spec(
                enum_impls(ctx, e, k - 1),
                seq![(primary_dest(it.1.required_by@), const_text(ctx, e.name@, it.0@, enum_value_text(ctx, e.name@, it.1.value)))],
            )
        }),
{
    reveal_with_fuel(enum_impls, 1);
}

proof fn lemma_enum_code_fold_step(ctx: &Context, e: Enum, impls: CodeMapView, k: int)
    requires
        0 < k,
    ensures
        enum_code_fold(ctx, e, impls, k) == ({
            let d = impls[k - 1].0;
            extend_spec(
                enum_code_fold(ctx, e, impls, k - 1),
                seq![(d, impl_block_text(ctx.type_text(e.name@, d != primary_dest(e.required_by@), placeholder()), d, impls[k - 1].1))],
            )
        }),
{
    reveal_with_fuel(enum_code_fold, 1);
}

impl Enum {
    /// The `impl` blocks' bodies by destination.
    fn impl_map(&self, ctx: &Context, guessed_primary: &SingleDestination) -> (r: CodeMap)
        requires
            enum_code_ok(ctx, *self),
            guessed_primary@ == primary_dest(self.required_by@),
        ensures
            r@ == enum_impls(ctx, *self, self.items@.len() as int),
    {
        let mut impl_map = CodeMap::new(
            guessed_primary.copy(),
            "#[inline] pub const fn from_raw(x: i32) -> Self { Self(x) } #[inline] pub const fn as_raw(self) -> i32 { self.0 }".to_owned(),
        );
        proof {
            reveal_with_fuel(enum_impls, 1);
        }
        let mut k: usize = 0;
        while k < self.items.len()
            invariant
                k <= self.items@.len(),
                enum_code_ok(ctx, *self),
                impl_map@ == enum_impls(ctx, *self, k as int),
            decreases self.items.len() - k,
        {
            let ename = &self.items[k].0;
            let item = &self.items[k].1;
            assert(self.items@[k as int] == (*ename, *item));
            let en = ctx.enumerator_to_rust(ename, &self.name, false);
            let value = enum_value_to_rust(ctx, &self.name, &item.value);
            let mut c = "pub const ".to_owned();
            push_str(&mut c, en.as_str());
            push_str(&mut c, ": Self = ");
            push_str(&mut c, value.as_str());
            push_str(&mut c, ";");
            impl_map.extend(CodeMap::new_from_primary(Destination::new(item.required_by.copy()), c));
            proof {
                lemma_enum_impls_step(ctx, *self, k + 1);
            }
            k += 1;
        }
        impl_map
    }

    pub fn code(&self, ctx: &Context) -> (r: CodeMap)
        requires
            enum_code_ok(ctx, *self),
        ensures
            r@ == enum_code(ctx, *self),
    {
        let ph = Lifetime::placeholder();
        let name = ctx.type_to_rust(&self.name, false, &ph);
        let mut code = "#[repr(transparent)] #[derive(Clone, Copy, PartialEq, Eq, PartialOrd, Ord, Hash, Default)] #[derive(Debug)] pub struct ".to_owned();
        push_str(&mut code, name.as_str());
        push_str(&mut code, "(pub(crate) i32);");
        let guessed_primary = Destination::new(self.required_by.copy()).guess_primary();
        let mut codemap = CodeMap::new(guessed_primary.copy(), code);
        let impl_map = self.impl_map(ctx, &guessed_primary);
        let ghost impls = impl_map@;
        proof {
            lemma_enum_impls_paths(ctx, *self, self.items@.len() as int);
            reveal_with_fuel(enum_code_fold, 1);
        }
        let mut k: usize = 0;
        while k < impl_map.entries.len()
            invariant
                k <= impl_map@.len(),
                impl_map@ == impls,
                forall|j: int| 0 <= j < impls.len() ==> path_ok(#[trigger] impls[j].0),
                ctx.type_ok(self.name@),
                codemap@ == enum_code_fold(ctx, *self, impls, k as int),
                guessed_primary@ == primary_dest(self.required_by@),
                ph@ == placeholder(),
            decreases impl_map.entries.len() - k,
        {
            let dest = &impl_map.entries[k].0;
            let impl_tokens = &impl_map.entries[k].1;
            assert(impls[k as int] == (dest@, impl_tokens@));
            assert(path_ok(impls[k as int].0));
            let qualified = !dest.same(&guessed_primary);
            let name = ctx.type_to_rust(&self.name, qualified, &ph);
            push_impl_block(&mut codemap, name.as_str(), dest, impl_tokens.as_str());
            proof {
                lemma_enum_code_fold_step(ctx, *self, impls, k + 1);
            }
            k += 1;
        }
        codemap
    }
}

} // verus!

verus! {

pub open spec fn base_ty_text(w: BitWidth) -> Seq<char> {
    match w {
        BitWidth::Bits32 => "u32"@,
        BitWidth::Bits64 => "u64"@,
    }
}

/// The struct of a bitmask type, its methods, and its operators.
pub open spec fn bitmask_text(name: Seq<char>, base: Seq<char>, values: Seq<char>, bits_code: Seq<char>) -> Seq<char> {
    "#[repr(transparent)] #[derive(Clone, Copy)] pub struct "@ + name + "("@ + base + "); impl "@ + name + " { "@ + values
        + " pub const fn empty() -> Self { Self(0) } pub const fn from_raw(x: "@ + base + ") -> Self { Self(x) } pub const fn as_raw(self) -> "@
        + base
        + " { self.0 } pub const fn is_empty(self) -> bool { self.0 == Self::empty().0 } pub const fn intersects(self, other: Self) -> bool { !Self(self.0 & other.0).is_empty() } pub const fn contains(self, other: Self) -> bool { self.0 & other.0 == other.0 } } impl Default for "@
        + name + " { fn default() -> Self { Self::empty() } } impl core::ops::BitOr for "@ + name
        + " { type Output = Self; fn bitor(self, rhs: Self) -> Self { Self(self.0 | rhs.0) } } impl core::ops::BitOrAssign for "@ + name
        + " { fn bitor_assign(&mut self, rhs: Self) { *self = *self | rhs; } } impl core::ops::BitAnd for "@ + name
        + " { type Output = Self; fn bitand(self, rhs: Self) -> Self { Self(self.0 & rhs.0) } } impl core::ops::BitAndAssign for "@ + name
        + " { fn bitand_assign(&mut self, rhs: Self) { *self = *self & rhs; } } impl core::ops::BitXor for "@ + name
        + " { type Output = Self; fn bitxor(self, rhs: Self) -> Self { Self(self.0 ^ rhs.0) } } impl core::ops::BitXorAssign for "@ + name
        + " { fn bitxor_assign(&mut self, rhs: Self) { *self = *self ^ rhs; } } impl core::ops::Not for "@ + name
        + " { type Output = Self; fn not(self) -> Self { Self(!self.0) } } "@ + bits_code
}

/// The struct of the bits of a bitmask.
pub open spec fn bits_struct_text(bits: Seq<char>, base: Seq<char>) -> Seq<char> {
    "#[repr(transparent)] #[derive(Clone, Copy, Default)] pub struct "@ + bits + "(pub(crate) "@ + base + ");"@
}

/// The constants of a bitmask type for its first `k` bits, each the value of the bit.
pub open spec fn bitmask_values(ctx: &Context, m: BitMask, k: int) -> Seq<char>
    decreases k,
{
    if k <= 0 {
        Seq::empty()
    } else {
        let bits = m.bits_name.unwrap()@;
        let en = ctx.enumerator_text(m.items@[k - 1].0@, bits, false);
        bitmask_values(ctx, m, k - 1) + " "@ + ("pub const "@ + en + ": Self = Self("@ + ctx.type_text_with(bits, false, placeholder(), false)
            + "::"@ + en + ".0);"@)
    }
}

/// The main code of a bitmask type.
pub open spec fn bitmask_main_text(ctx: &Context, m: BitMask) -> Seq<char> {
    let name = ctx.type_text_with(m.name@, false, placeholder(), false);
    let base = base_ty_text(m.bitwidth);
    match m.bits_name {
        Some(bits) => bitmask_text(
            name,
            base,
            bitmask_values(ctx, m, m.items@.len() as int),
            bits_struct_text(ctx.type_text_with(bits@, false, placeholder(), false), base),
        ),
        None => bitmask_text(name, base, ""@, ""@),
    }
}

/// The value of a bit, as a `Self` expression.
pub open spec fn bit_value_text(ctx: &Context, bits: Seq<char>, v: BitValue) -> Seq<char> {
    match v {
        BitValue::BitPos(b) => "Self(1 << "@ + decimal(b as nat) + ")"@,
        BitValue::Expr(e) => "Self("@ + cexpr_text(ctx, e@) + ")"@,
        BitValue::Alias(a) => "Self::"@ + ctx.enumerator_text(a@, bits, false),
    }
}

pub open spec fn bit_value_ok(ctx: &Context, bits: Seq<char>, v: BitValue) -> bool {
    match v {
        BitValue::BitPos(_) => true,
        BitValue::Expr(e) => cexpr_ok(ctx, e@),
        BitValue::Alias(a) => ctx.enumerator_ok(a@, bits, false),
    }
}

/// The bodies of the `impl` blocks of the bits of a bitmask after its first `k` bits.
#[verifier::opaque]
pub open spec fn bit_impls(ctx: &Context, m: BitMask, k: int) -> CodeMapView
    decreases k,
{
    if k <= 0 {
        Seq::empty()
    } else {
        let bits = m.bits_name.unwrap()@;
        let it = m.items@[k - 1];
        extend_spec(
            bit_impls(ctx, m, k - 1),
            seq![(primary_dest(it.1.required_by@), const_text(ctx, bits, it.0@, bit_value_text(ctx, bits, it.1.value)))],
        )
    }
}

/// The code of a bitmask after its first `k` `impl` blocks of bits.
#[verifier::opaque]
pub open spec fn bitmask_code_fold(ctx: &Context, m: BitMask, impls: CodeMapView, k: int) -> CodeMapView
    decreases k,
{
    if k <= 0 {
        seq![(primary_dest(m.required_by@), bitmask_main_text(ctx, m))]
    } else {
        let d = impls[k - 1].0;
        extend_spec(
            bitmask_code_fold(ctx, m, impls, k - 1),
            seq![(d, impl_block_text(
                ctx.type_text_with(m.bits_name.unwrap()@, d != primary_dest(m.required_by@), placeholder(), false),
                d,
                impls[k - 1].1,
            ))],
        )
    }
}

/// The code of a bitmask: its type at its primary place, then the constants of its bits
/// in `impl` blocks at the places that require them.
pub open spec fn bitmask_code(ctx: &Context, m: BitMask) -> CodeMapView {
    match m.bits_name {
        Some(_) => {
            let impls = bit_impls(ctx, m, m.items@.len() as int);
            bitmask_code_fold(ctx, m, impls, impls.len() as int)
        },
        None => bitmask_code_fold(ctx, m, Seq::empty(), 0),
    }
}

/// The bitmasks whose code can be made.
pub open spec fn bitmask_code_ok(ctx: &Context, m: BitMask) -> bool {
    &&& m.required_by@.locations.len() > 0
    &&& ctx.type_ok_with(m.name@, false)
    &&& m.bits_name matches Some(bits) ==> {
        &&& ctx.type_ok_with(bits@, false)
        &&& forall|i: int|
            0 <= i < m.items@.len() ==> {
                let it = #[trigger] m.items@[i];
                &&& it.1.required_by@.locations.len() > 0
                &&& path_ok(primary_dest(it.1.required_by@))
                &&& ctx.enumerator_ok(it.0@, bits@, false)
                &&& bit_value_ok(ctx, bits@, it.1.value)
            }
    }
}

proof fn lemma_bit_impls_step(ctx: &Context, m: BitMask, k: int)
    requires
        0 < k,
    ensures
        bit_impls(ctx, m, k) == ({
            let bits = m.bits_name.unwrap()@;
            let it = m.items@[k - 1];
            extend_spec(
                bit_impls(ctx, m, k - 1),
                seq![(primary_dest(it.1.required_by@), const_text(ctx, bits, it.0@, bit_value_text(ctx, bits, it.1.value)))],
            )
        }),
{
    reveal_with_fuel(bit_impls, 1);
}

proof fn lemma_bitmask_code_fold_step(ctx: &Context, m: BitMask, impls: CodeMapView, k: int)
    requires
        0 < k,
    ensures
        bitmask_code_fold(ctx, m, impls, k) == ({
            let d = impls[k - 1].0;
            extend_spec(
                bitmask_code_fold(ctx, m, impls, k - 1),
                seq![(d, impl_block_text(
                    ctx.type_text_with(m.bits_name.unwrap()@, d != primary_dest(m.required_by@), placeholder(), false),
                    d,
                    impls[k - 1].1,
                ))],
            )
        }),
{
    reveal_with_fuel(bitmask_code_fold, 1);
}

proof fn lemma_bit_impls_paths(ctx: &Context, m: BitMask, k: int)
    requires
        bitmask_code_ok(ctx, m),
        m.bits_name is Some,
        0 <= k <= m.items@.len(),
    ensures
        forall|j: int| 0 <= j < bit_impls(ctx, m, k).len() ==> path_ok(#[trigger] bit_impls(ctx, m, k)[j].0),
    decreases k,
{
    if k == 0 {
        reveal_with_fuel(bit_impls, 1);
    } else {
        lemma_bit_impls_step(ctx, m, k);
        lemma_bit_impls_paths(ctx, m, k - 1);
        let bits = m.bits_name.unwrap()@;
        let it = m.items@[k - 1];
        let d = primary_dest(it.1.required_by@);
        let t = const_text(ctx, bits, it.0@, bit_value_text(ctx, bits, it.1.value));
        let prev = bit_impls(ctx, m, k - 1);
        crate::output::lemma_extend_one(prev, d, t);
        crate::output::lemma_insert_dests(prev, d, t);
    }
}

fn bit_value_to_rust(ctx: &Context, bits: &crate::names::TypeName, v: &BitValue) -> (r: String)
    requires
        bit_value_ok(ctx, bits@, *v),
    ensures
        r@ == bit_value_text(ctx, bits@, *v),
{
    match v {
        BitValue::BitPos(bitpos) => {
            let mut r = "Self(1 << ".to_owned();
            let literal = u32_to_string(*bitpos as u32);
            push_str(&mut r, literal.as_str());
            push_str(&mut r, ")");
            r
        },
        BitValue::Expr(cexpr_items) => {
            let mut r = "Self(".to_owned();
            let expr = CExprItem::to_rust(cexpr_items, ctx);
            push_str(&mut r, expr.as_str());
            push_str(&mut r, ")");
            r
        },
        BitValue::Alias(enumerator_name) => {
            let mut r = "Self::".to_owned();
            let en = ctx.enumerator_to_rust(enumerator_name, bits, false);
            push_str(&mut r, en.as_str());
            r
        },
    }
}

fn bitmask_body(name: &str, base: &str, values: &str, bits_code: &str) -> (r: String)
    ensures
        r@ == bitmask_text(name@, base@, values@, bits_code@),
{
    let mut r = "#[repr(transparent)] #[derive(Clone, Copy)] pub struct ".to_owned();
    push_str(&mut r, name);
    push_str(&mut r, "(");
    push_str(&mut r, base);
    push_str(&mut r, "); impl ");
    push_str(&mut r, name);
    push_str(&mut r, " { ");
    push_str(&mut r, values);
    push_str(&mut r, " pub const fn empty() -> Self { Self(0) } pub const fn from_raw(x: ");
    push_str(&mut r, base);
    push_str(&mut r, ") -> Self { Self(x) } pub const fn as_raw(self) -> ");
    push_str(&mut r, base);
    push_str(
        &mut r,
        " { self.0 } pub const fn is_empty(self) -> bool { self.0 == Self::empty().0 } pub const fn intersects(self, other: Self) -> bool { !Self(self.0 & other.0).is_empty() } pub const fn contains(self, other: Self) -> bool { self.0 & other.0 == other.0 } } impl Default for ",
    );
    push_str(&mut r, name);
    push_str(&mut r, " { fn default() -> Self { Self::empty() } } impl core::ops::BitOr for ");
    push_str(&mut r, name);
    push_str(&mut r, " { type Output = Self; fn bitor(self, rhs: Self) -> Self { Self(self.0 | rhs.0) } } impl core::ops::BitOrAssign for ");
    push_str(&mut r, name);
    push_str(&mut r, " { fn bitor_assign(&mut self, rhs: Self) { *self = *self | rhs; } } impl core::ops::BitAnd for ");
    push_str(&mut r, name);
    push_str(&mut r, " { type Output = Self; fn bitand(self, rhs: Self) -> Self { Self(self.0 & rhs.0) } } impl core::ops::BitAndAssign for ");
    push_str(&mut r, name);
    push_str(&mut r, " { fn bitand_assign(&mut self, rhs: Self) { *self = *self & rhs; } } impl core::ops::BitXor for ");
    push_str(&mut r, name);
    push_str(&mut r, " { type Output = Self; fn bitxor(self, rhs: Self) -> Self { Self(self.0 ^ rhs.0) } } impl core::ops::BitXorAssign for ");
    push_str(&mut r, name);
    push_str(&mut r, " { fn bitxor_assign(&mut self, rhs: Self) { *self = *self ^ rhs; } } impl core::ops::Not for ");
    push_str(&mut r, name);
    push_str(&mut r, " { type Output = Self; fn not(self) -> Self { Self(!self.0) } } ");
    push_str(&mut r, bits_code);
    r
}

impl BitMask {
    /// The constants of the bitmask type, one for each bit.
    fn values(&self, ctx: &Context, bits_name: &crate::names::TypeName, bits_name_tokens: &str) -> (r: String)
        requires
            bitmask_code_ok(ctx, *self),
            self.bits_name == Some(*bits_name),
            bits_name_tokens@ == ctx.type_text_with(bits_name@, false, placeholder(), false),
        ensures
            r@ == bitmask_values(ctx, *self, self.items@.len() as int),
    {
        let mut values = String::new();
        let mut k: usize = 0;
        while k < self.items.len()
            invariant
                k <= self.items@.len(),
                bitmask_code_ok(ctx, *self),
                self.bits_name == Some(*bits_name),
                bits_name_tokens@ == ctx.type_text_with(bits_name@, false, placeholder(), false),
                values@ == bitmask_values(ctx, *self, k as int),
            decreases self.items.len() - k,
        {
            let name = &self.items[k].0;
            assert(self.items@[k as int].0 == *name);
            let en = ctx.enumerator_to_rust(name, bits_name, false);
            push_str(&mut values, " ");
            push_str(&mut values, "pub const ");
            push_str(&mut values, en.as_str());
            push_str(&mut values, ": Self = Self(");
            push_str(&mut values, bits_name_tokens);
            push_str(&mut values, "::");
            push_str(&mut values, en.as_str());
            push_str(&mut values, ".0);");
            assert(values@ =~= bitmask_values(ctx, *self, k + 1));
            k += 1;
        }
        values
    }

    /// The bodies of the `impl` blocks of the bits by destination.
    fn impl_map(&self, ctx: &Context, bits_name: &crate::names::TypeName) -> (r: CodeMap)
        requires
            bitmask_code_ok(ctx, *self),
            self.bits_name == Some(*bits_name),
        ensures
            r@ == bit_impls(ctx, *self, self.items@.len() as int),
    {
        let mut impl_map = CodeMap::empty();
        proof {
            reveal_with_fuel(bit_impls, 1);
        }
        let mut k: usize = 0;
        while k < self.items.len()
            invariant
                k <= self.items@.len(),
                bitmask_code_ok(ctx, *self),
                self.bits_name == Some(*bits_name),
                impl_map@ == bit_impls(ctx, *self, k as int),
            decreases self.items.len() - k,
        {
            let ename = &self.items[k].0;
            let item = &self.items[k].1;
            assert(self.items@[k as int] == (*ename, *item));
            let en = ctx.enumerator_to_rust(ename, bits_name, false);
            let value = bit_value_to_rust(ctx, bits_name, &item.value);
            let mut c = "pub const ".to_owned();
            push_str(&mut c, en.as_str());
            push_str(&mut c, ": Self = ");
            push_str(&mut c, value.as_str());
            push_str(&mut c, ";");
            impl_map.extend(CodeMap::new_from_primary(Destination::new(item.required_by.copy()), c));
            proof {
                lemma_bit_impls_step(ctx, *self, k + 1);
            }
            k += 1;
        }
        impl_map
    }

    pub fn code(&self, ctx: &Context) -> (r: CodeMap)
        requires
            bitmask_code_ok(ctx, *self),
        ensures
            r@ == bitmask_code(ctx, *self),
    {
        let ph = Lifetime::placeholder();
        let name = ctx.type_to_rust2(&self.name, false, &ph);
        let base_ty = match self.bitwidth {
            BitWidth::Bits32 => "u32",
            BitWidth::Bits64 => "u64",
        };
        let primary = Destination::new(self.required_by.copy()).guess_primary();
        proof {
            reveal_with_fuel(bitmask_code_fold, 1);
        }
        match &self.bits_name {
            None => {
                let code = bitmask_body(name.as_str(), base_ty, "", "");
                proof {
                    reveal_strlit("");
                }
                CodeMap::new(primary, code)
            },
            Some(bits_name) => {
                let bits_name_tokens = ctx.type_to_rust2(bits_name, false, &ph);
                let mut bits_code = "#[repr(transparent)] #[derive(Clone, Copy, Default)] pub struct ".to_owned();
                push_str(&mut bits_code, bits_name_tokens.as_str());
                push_str(&mut bits_code, "(pub(crate) ");
                push_str(&mut bits_code, base_ty);
                push_str(&mut bits_code, ");");
                let values = self.values(ctx, bits_name, bits_name_tokens.as_str());
                let code = bitmask_body(name.as_str(), base_ty, values.as_str(), bits_code.as_str());
                let mut codemap = CodeMap::new(primary.copy(), code);
                let impl_map = self.impl_map(ctx, bits_name);
                let ghost impls = impl_map@;
                proof {
                    lemma_bit_impls_paths(ctx, *self, self.items@.len() as int);
                }
                let mut k: usize = 0;
                while k < impl_map.entries.len()
                    invariant
                        k <= impl_map@.len(),
                        impl_map@ == impls,
                        self.bits_name == Some(*bits_name),
                        forall|j: int| 0 <= j < impls.len() ==> path_ok(#[trigger] impls[j].0),
                        ctx.type_ok_with(bits_name@, false),
                        codemap@ == bitmask_code_fold(ctx, *self, impls, k as int),
                        primary@ == primary_dest(self.required_by@),
                        ph@ == placeholder(),
                    decreases impl_map.entries.len() - k,
                {
                    let dest = &impl_map.entries[k].0;
                    let impl_tokens = &impl_map.entries[k].1;
                    assert(impls[k as int] == (dest@, impl_tokens@));
                    assert(path_ok(impls[k as int].0));
                    let qualified = !dest.same(&primary);
                    let name = ctx.type_to_rust2(bits_name, qualified, &ph);
                    push_impl_block(&mut codemap, name.as_str(), dest, impl_tokens.as_str());
                    proof {
                        lemma_bitmask_code_fold_step(ctx, *self, impls, k + 1);
                    }
                    k += 1;
                }
                codemap
            },
        }
    }
}

} // verus!

verus! {

/// A code map extended by the first `k` of a list of code maps.
#[verifier::opaque]
pub open spec fn extend_all(m: CodeMapView, codes: Seq<CodeMapView>, k: int) -> CodeMapView
    decreases k,
{
    if k <= 0 {
        m
    } else {
        extend_spec(extend_all(m, codes, k - 1), codes[k - 1])
    }
}

proof fn lemma_extend_all_step(m: CodeMapView, codes: Seq<CodeMapView>, k: int)
    requires
        0 < k,
    ensures
        extend_all(m, codes, k) == extend_spec(extend_all(m, codes, k - 1), codes[k - 1]),
{
    reveal_with_fuel(extend_all, 1);
}

/// The code of each item, kind by kind: base types, constants, macros, enums, bitmasks.
pub open spec fn item_codes(ctx: &Context) -> Seq<CodeMapView> {
    ctx.items.base_types@.map_values(|b: BaseType| seq![(primary_dest(b.required_by@), base_type_text(ctx, b))])
        + ctx.items.constants@.map_values(
        |c: (crate::names::ConstantName, Constant)| seq![(primary_dest(c.1.required_by@), constant_code_text(ctx, c.1))],
    ) + ctx.items.cmacros@.map_values(
        |c: (crate::names::CMacroName, CMacro)| seq![(primary_dest(c.1.required_by@), cmacro_code_text(ctx, c.1))],
    ) + ctx.items.enums@.map_values(|e: Enum| enum_code(ctx, e)) + ctx.items.bitmasks@.map_values(|b: BitMask| bitmask_code(ctx, b))
}

/// The items whose code can be made.
pub open spec fn items_code_ok(ctx: &Context) -> bool {
    &&& forall|i: int|
        0 <= i < ctx.items.base_types@.len() ==> {
            let b = #[trigger] ctx.items.base_types@[i];
            b.required_by@.locations.len() > 0 && ctx.type_ok(b.name@) && ty_ok(ctx, b.ty@)
        }
    &&& forall|i: int|
        0 <= i < ctx.items.constants@.len() ==> {
            let c = (#[trigger] ctx.items.constants@[i]).1;
            c.required_by@.locations.len() > 0 && ctx.constant_ok(c.name@) && cexpr_ok(ctx, c.value@)
        }
    &&& forall|i: int|
        0 <= i < ctx.items.cmacros@.len() ==> {
            let c = (#[trigger] ctx.items.cmacros@[i]).1;
            c.required_by@.locations.len() > 0 && ctx.cmacro_ok(c.name@) && cexpr_ok(ctx, c.cexpr@)
        }
    &&& forall|i: int| 0 <= i < ctx.items.enums@.len() ==> enum_code_ok(ctx, #[trigger] ctx.items.enums@[i])
    &&& forall|i: int| 0 <= i < ctx.items.bitmasks@.len() ==> bitmask_code_ok(ctx, #[trigger] ctx.items.bitmasks@[i])
}

/// Adds the code of every item to the code map, kind by kind.
pub fn generate_code(ctx: &Context, codemap: &mut CodeMap)
    requires
        items_code_ok(ctx),
    ensures
        final(codemap)@ == extend_all(old(codemap)@, item_codes(ctx), item_codes(ctx).len() as int),
{
    let ghost codes = item_codes(ctx);
    let ghost start = codemap@;
    let ghost n1 = ctx.items.base_types@.len() as int;
    let ghost n2 = n1 + ctx.items.constants@.len();
    let ghost n3 = n2 + ctx.items.cmacros@.len();
    let ghost n4 = n3 + ctx.items.enums@.len();
    proof {
        reveal_with_fuel(extend_all, 1);
    }
    let mut i: usize = 0;
    while i < ctx.items.base_types.len()
        invariant
            i <= ctx.items.base_types@.len(),
            items_code_ok(ctx),
            codes == item_codes(ctx),
            codemap@ == extend_all(start, codes, i as int),
        decreases ctx.items.base_types.len() - i,
    {
        let b = &ctx.items.base_types[i];
        assert(ctx.items.base_types@[i as int] == *b);
        let code = b.code(ctx);
        codemap.extend(code);
        proof {
            assert(codes[i as int] == seq![(primary_dest(b.required_by@), base_type_text(ctx, *b))]);
            lemma_extend_all_step(start, codes, i + 1);
        }
        i += 1;
    }
    let mut i: usize = 0;
    while i < ctx.items.constants.len()
        invariant
            i <= ctx.items.constants@.len(),
            items_code_ok(ctx),
            codes == item_codes(ctx),
            n1 == ctx.items.base_types@.len(),
            codemap@ == extend_all(start, codes, n1 + i),
        decreases ctx.items.constants.len() - i,
    {
        let c = &ctx.items.constants[i].1;
        assert(ctx.items.constants@[i as int].1 == *c);
        let code = c.code(ctx);
        codemap.extend(code);
        proof {
            assert(codes[n1 + i] == seq![(primary_dest(c.required_by@), constant_code_text(ctx, *c))]);
            lemma_extend_all_step(start, codes, n1 + i + 1);
        }
        i += 1;
    }
    let mut i: usize = 0;
    while i < ctx.items.cmacros.len()
        invariant
            i <= ctx.items.cmacros@.len(),
            items_code_ok(ctx),
            codes == item_codes(ctx),
            n2 == ctx.items.base_types@.len() + ctx.items.constants@.len(),
            codemap@ == extend_all(start, codes, n2 + i),
        decreases ctx.items.cmacros.len() - i,
    {
        let c = &ctx.items.cmacros[i].1;
        assert(ctx.items.cmacros@[i as int].1 == *c);
        let code = c.code(ctx);
        codemap.extend(code);
        proof {
            assert(codes[n2 + i] == seq![(primary_dest(c.required_by@), cmacro_code_text(ctx, *c))]);
            lemma_extend_all_step(start, codes, n2 + i + 1);
        }
        i += 1;
    }
    let mut i: usize = 0;
    while i < ctx.items.enums.len()
        invariant
            i <= ctx.items.enums@.len(),
            items_code_ok(ctx),
            codes == item_codes(ctx),
            n3 == ctx.items.base_types@.len() + ctx.items.constants@.len() + ctx.items.cmacros@.len(),
            codemap@ == extend_all(start, codes, n3 + i),
        decreases ctx.items.enums.len() - i,
    {
        let e = &ctx.items.enums[i];
        assert(ctx.items.enums@[i as int] == *e);
        let code = e.code(ctx);
        codemap.extend(code);
        proof {
            assert(codes[n3 + i] == enum_code(ctx, *e));
            lemma_extend_all_step(start, codes, n3 + i + 1);
        }
        i += 1;
    }
    let mut i: usize = 0;
    while i < ctx.items.bitmasks.len()
        invariant
            i <= ctx.items.bitmasks@.len(),
            items_code_ok(ctx),
            codes == item_codes(ctx),
            n4 == ctx.items.base_types@.len() + ctx.items.constants@.len() + ctx.items.cmacros@.len() + ctx.items.enums@.len(),
            codemap@ == extend_all(start, codes, n4 + i),
        decreases ctx.items.bitmasks.len() - i,
    {
        let b = &ctx.items.bitmasks[i];
        assert(ctx.items.bitmasks@[i as int] == *b);
        let code = b.code(ctx);
        codemap.extend(code);
        proof {
            assert(codes[n4 + i] == bitmask_code(ctx, *b));
            lemma_extend_all_step(start, codes, n4 + i + 1);
        }
        i += 1;
    }
}

} // verus!
