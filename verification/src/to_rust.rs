//! Rust source text of declarations, types and C constant expressions. Generated code is
//! kept as its source text; pieces of it are separated by spaces, so that the tokens of
//! the text are those of the code.
use vstd::prelude::*;
use crate::decl::{ArrayLen, ArrayLenView, CPrimaryType, Decl, DeclView, Mutability, RustType, Ty, TyView};
use crate::names::{CMacroName, CommandName, ConstantName, EnumeratorName, FuncPointerName, TypeName, VariableName};
use crate::text::{decimal, push_char, push_str, u128_to_string};
use crate::xml::CExprItem;

verus! {

/// A lifetime, as it is written in Rust.
pub struct Lifetime {
    pub text: String,
}

impl View for Lifetime {
    type V = Seq<char>;

    open spec fn view(&self) -> Seq<char> {
        self.text@
    }
}

impl Lifetime {
    /// The anonymous lifetime `'_`.
    pub fn placeholder() -> (r: Lifetime)
        ensures
            r@ == "'_"@,
    {
        Lifetime { text: "'_".to_owned() }
    }
}

/// The Rust type that stands for a primary C type.
pub open spec fn primary_text(p: CPrimaryType) -> Seq<char> {
    match p {
        CPrimaryType::Void => "core::ffi::c_void"@,
        CPrimaryType::Char => "core::ffi::c_char"@,
        CPrimaryType::Int => "core::ffi::c_int"@,
        CPrimaryType::Float => "core::ffi::c_float"@,
        CPrimaryType::Double => "core::ffi::c_double"@,
        CPrimaryType::Int8 => "i8"@,
        CPrimaryType::UInt8 => "u8"@,
        CPrimaryType::Int16 => "i16"@,
        CPrimaryType::UInt16 => "u16"@,
        CPrimaryType::Int32 => "i32"@,
        CPrimaryType::UInt32 => "u32"@,
        CPrimaryType::Int64 => "i64"@,
        CPrimaryType::UInt64 => "u64"@,
        CPrimaryType::Size => "usize"@,
    }
}

/// Turns names of the registry into Rust paths. Each method has a spec function for the
/// text it gives and one for the names it takes.
pub trait RustTranslator {
    spec fn var_name_text(&self, name: Seq<char>) -> Seq<char>;

    spec fn var_name_ok(&self, name: Seq<char>) -> bool;

    spec fn trimmed_var_name_text(&self, name: Seq<char>) -> Seq<char>;

    spec fn trimmed_var_name_ok(&self, name: Seq<char>) -> bool;

    spec fn type_text(&self, name: Seq<char>, qualified: bool, lifetime: Seq<char>) -> Seq<char>;

    spec fn type_ok(&self, name: Seq<char>) -> bool;

    spec fn func_pointer_text(&self, name: Seq<char>, qualified: bool) -> Seq<char>;

    spec fn func_pointer_ok(&self, name: Seq<char>) -> bool;

    spec fn command_text(&self, name: Seq<char>, qualified: bool) -> Seq<char>;

    spec fn command_ok(&self, name: Seq<char>) -> bool;

    spec fn constant_text(&self, name: Seq<char>, qualified: bool) -> Seq<char>;

    spec fn constant_ok(&self, name: Seq<char>) -> bool;

    spec fn enumerator_text(&self, name: Seq<char>, owner: Seq<char>, qualified: bool) -> Seq<char>;

    spec fn enumerator_ok(&self, name: Seq<char>, owner: Seq<char>, qualified: bool) -> bool;

    spec fn cmacro_text(&self, name: Seq<char>, qualified: bool) -> Seq<char>;

    spec fn cmacro_ok(&self, name: Seq<char>) -> bool;

    spec fn platform_text(&self, raw: Seq<char>, qualified: bool) -> Seq<char>;

    spec fn platform_ok(&self, raw: Seq<char>) -> bool;

    spec fn rust_type_text(&self, ty: RustType) -> Seq<char>;

    fn var_name_to_rust(&self, name: &VariableName) -> (r: String)
        requires
            self.var_name_ok(name@),
        ensures
            r@ == self.var_name_text(name@),
    ;

    fn trimmed_var_name_to_rust(&self, name: &VariableName) -> (r: String)
        requires
            self.trimmed_var_name_ok(name@),
        ensures
            r@ == self.trimmed_var_name_text(name@),
    ;

    fn type_to_rust(&self, name: &TypeName, qualified: bool, lifetime: &Lifetime) -> (r: String)
        requires
            self.type_ok(name@),
        ensures
            r@ == self.type_text(name@, qualified, lifetime@),
    ;

    fn func_pointer_to_rust(&self, name: &FuncPointerName, qualified: bool) -> (r: String)
        requires
            self.func_pointer_ok(name@),
        ensures
            r@ == self.func_pointer_text(name@, qualified),
    ;

    fn command_to_rust(&self, name: &CommandName, qualified: bool) -> (r: String)
        requires
            self.command_ok(name@),
        ensures
            r@ == self.command_text(name@, qualified),
    ;

    fn constant_to_rust(&self, name: &ConstantName, qualified: bool) -> (r: String)
        requires
            self.constant_ok(name@),
        ensures
            r@ == self.constant_text(name@, qualified),
    ;

    fn enumerator_to_rust(&self, name: &EnumeratorName, owner: &TypeName, qualified: bool) -> (r: String)
        requires
            self.enumerator_ok(name@, owner@, qualified),
        ensures
            r@ == self.enumerator_text(name@, owner@, qualified),
    ;

    fn cmacro_to_rust(&self, name: &CMacroName, qualified: bool) -> (r: String)
        requires
            self.cmacro_ok(name@),
        ensures
            r@ == self.cmacro_text(name@, qualified),
    ;

    fn platform_type_to_rust(&self, raw: &str, qualified: bool) -> (r: String)
        requires
            self.platform_ok(raw@),
        ensures
            r@ == self.platform_text(raw@, qualified),
    ;

    fn check_cmacro(&self, name: &CMacroName) -> (r: bool)
        ensures
            r == self.cmacro_ok(name@),
    ;

    fn rust_type_to_rust(&self, ty: &RustType) -> (r: String)
        ensures
            r@ == self.rust_type_text(*ty),
    ;

    fn primary_type_to_rust(&self, primary_ty: CPrimaryType) -> (r: String)
        ensures
            r@ == primary_text(primary_ty),
    {
        match primary_ty {
            CPrimaryType::Void => "core::ffi::c_void".to_owned(),
            CPrimaryType::Char => "core::ffi::c_char".to_owned(),
            CPrimaryType::Int => "core::ffi::c_int".to_owned(),
            CPrimaryType::Float => "core::ffi::c_float".to_owned(),
            CPrimaryType::Double => "core::ffi::c_double".to_owned(),
            CPrimaryType::Int8 => "i8".to_owned(),
            CPrimaryType::UInt8 => "u8".to_owned(),
            CPrimaryType::Int16 => "i16".to_owned(),
            CPrimaryType::UInt16 => "u16".to_owned(),
            CPrimaryType::Int32 => "i32".to_owned(),
            CPrimaryType::UInt32 => "u32".to_owned(),
            CPrimaryType::Int64 => "i64".to_owned(),
            CPrimaryType::UInt64 => "u64".to_owned(),
            CPrimaryType::Size => "usize".to_owned(),
        }
    }
}

/// The text of an array length.
pub open spec fn array_len_text<T: RustTranslator>(tr: &T, len: ArrayLenView) -> Seq<char> {
    match len {
        ArrayLenView::Constant(n) => tr.constant_text(n, true),
        ArrayLenView::Literal(v) => decimal(v as nat),
    }
}

pub open spec fn array_len_ok<T: RustTranslator>(tr: &T, len: ArrayLenView) -> bool {
    match len {
        ArrayLenView::Constant(n) => tr.constant_ok(n),
        ArrayLenView::Literal(_) => true,
    }
}

impl ArrayLen {
    pub fn to_rust<T: RustTranslator>(&self, translator: &T) -> (r: String)
        requires
            array_len_ok(translator, self@),
        ensures
            r@ == array_len_text(translator, self@),
    {
        match self {
            ArrayLen::Constant(constant_name) => translator.constant_to_rust(constant_name, true),
            ArrayLen::Literal(value) => u128_to_string(*value),
        }
    }
}

/// `const` or `mut` after a `*`.
pub open spec fn ptr_mutability_text(m: Mutability) -> Seq<char> {
    match m {
        Mutability::Not => "const"@,
        Mutability::Mut => "mut"@,
    }
}

/// Nothing or `mut` after a `&`.
pub open spec fn ref_mutability_text(m: Mutability) -> Seq<char> {
    match m {
        Mutability::Not => ""@,
        Mutability::Mut => "mut"@,
    }
}

/// The Rust text of a type.
pub open spec fn ty_text<T: RustTranslator>(tr: &T, t: TyView, lifetime: Seq<char>) -> Seq<char>
    decreases t,
{
    match t {
        TyView::SpecType(name) => tr.type_text(name, true, lifetime),
        TyView::SpecFuncPointer(name) => tr.func_pointer_text(name, true),
        TyView::CPrimary(p) => primary_text(p),
        TyView::Platform(raw) => tr.platform_text(raw, true),
        TyView::Ptr(inner, m) => "* "@ + ptr_mutability_text(m) + " "@ + ty_text(tr, *inner, lifetime),
        TyView::Ref(inner, m) => "& "@ + lifetime + " "@ + ref_mutability_text(m) + " "@ + ty_text(tr, *inner, lifetime),
        TyView::Slice(inner, m, len) => "& "@ + lifetime + " "@ + ref_mutability_text(m) + " ["@ + ty_text(tr, *inner, lifetime)
            + " "@ + match len {
            Some(len) => "; "@ + array_len_text(tr, len),
            None => ""@,
        } + "]"@,
        TyView::Array(inner, len) => "["@ + ty_text(tr, *inner, lifetime) + "; "@ + array_len_text(tr, len) + " as _]"@,
        TyView::RustType(r) => tr.rust_type_text(r),
    }
}

/// The types whose names the translator takes.
pub open spec fn ty_ok<T: RustTranslator>(tr: &T, t: TyView) -> bool
    decreases t,
{
    match t {
        TyView::SpecType(name) => tr.type_ok(name),
        TyView::SpecFuncPointer(name) => tr.func_pointer_ok(name),
        TyView::CPrimary(_) => true,
        TyView::Platform(raw) => tr.platform_ok(raw),
        TyView::Ptr(inner, _) => ty_ok(tr, *inner),
        TyView::Ref(inner, _) => ty_ok(tr, *inner),
        TyView::Slice(inner, _, len) => ty_ok(tr, *inner) && (len matches Some(l) ==> array_len_ok(tr, l)),
        TyView::Array(inner, len) => ty_ok(tr, *inner) && array_len_ok(tr, len),
        TyView::RustType(_) => true,
    }
}

impl Ty {
    pub fn to_rust<T: RustTranslator>(&self, translator: &T, lifetime: &Lifetime) -> (r: String)
        requires
            ty_ok(translator, self@),
        ensures
            r@ == ty_text(translator, self@, lifetime@),
        decreases self,
    {
        match self {
            Ty::SpecType(name) => translator.type_to_rust(name, true, lifetime),
            Ty::SpecFuncPointer(name) => translator.func_pointer_to_rust(name, true),
            Ty::CPrimary(base_ty) => translator.primary_type_to_rust(*base_ty),
            Ty::Platform(raw) => translator.platform_type_to_rust(raw.as_str(), true),
            Ty::Ptr(ty, mutability) => {
                let mut r = String::new();
                push_str(&mut r, "* ");
                match mutability {
                    Mutability::Not => push_str(&mut r, "const"),
                    Mutability::Mut => push_str(&mut r, "mut"),
                }
                push_str(&mut r, " ");
                let ty = (**ty).to_rust(translator, lifetime);
                push_str(&mut r, ty.as_str());
                r
            },
            Ty::Ref(ty, mutability) => {
                let mut r = String::new();
                push_str(&mut r, "& ");
                push_str(&mut r, lifetime.text.as_str());
                push_str(&mut r, " ");
                match mutability {
                    Mutability::Not => push_str(&mut r, ""),
                    Mutability::Mut => push_str(&mut r, "mut"),
                }
                push_str(&mut r, " ");
                let ty = (**ty).to_rust(translator, lifetime);
                push_str(&mut r, ty.as_str());
                r
            },
            Ty::Slice(ty, mutability, len) => {
                let mut r = String::new();
                push_str(&mut r, "& ");
                push_str(&mut r, lifetime.text.as_str());
                push_str(&mut r, " ");
                match mutability {
                    Mutability::Not => push_str(&mut r, ""),
                    Mutability::Mut => push_str(&mut r, "mut"),
                }
                push_str(&mut r, " [");
                let inner = (**ty).to_rust(translator, lifetime);
                push_str(&mut r, inner.as_str());
                push_str(&mut r, " ");
                match len {
                    Some(len) => {
                        push_str(&mut r, "; ");
                        let len = len.to_rust(translator);
                        push_str(&mut r, len.as_str());
                    },
                    None => push_str(&mut r, ""),
                }
                push_str(&mut r, "]");
                r
            },
            Ty::Array(ty, array_len) => {
                let mut r = String::new();
                push_str(&mut r, "[");
                let inner = (**ty).to_rust(translator, lifetime);
                push_str(&mut r, inner.as_str());
                push_str(&mut r, "; ");
                let len = array_len.to_rust(translator);
                push_str(&mut r, len.as_str());
                push_str(&mut r, " as _]");
                r
            },
            Ty::RustType(ty) => translator.rust_type_to_rust(ty),
        }
    }
}

/// The text of a declaration: `name : type`.
pub open spec fn decl_text<T: RustTranslator>(tr: &T, d: DeclView, lifetime: Seq<char>) -> Seq<char> {
    tr.var_name_text(d.name) + " : "@ + ty_text(tr, d.ty, lifetime)
}

pub open spec fn decl_ok<T: RustTranslator>(tr: &T, d: DeclView) -> bool {
    tr.var_name_ok(d.name) && ty_ok(tr, d.ty)
}

impl Decl {
    /// Gives you this declaration in the form of `#name: #ty`.
    pub fn to_rust<T: RustTranslator>(&self, translator: &T, lifetime: &Lifetime) -> (r: String)
        requires
            decl_ok(translator, self@),
        ensures
            r@ == decl_text(translator, self@, lifetime@),
    {
        let mut r = translator.var_name_to_rust(&self.name);
        push_str(&mut r, " : ");
        let ty = self.ty.to_rust(translator, lifetime);
        push_str(&mut r, ty.as_str());
        r
    }
}

} // verus!

verus! {

/// Whether `proc_macro2` reads a string as Rust tokens (`TokenStream::from_str` succeeds).
pub uninterp spec fn lexes(s: Seq<char>) -> bool;

/// Calls `<proc_macro2::TokenStream as FromStr>::from_str` and says whether it succeeded.
#[verifier::external_body]
fn check_lexes(s: &str) -> (r: bool)
    ensures
        r == lexes(s@),
{
    s.parse::<proc_macro2::TokenStream>().is_ok()
}

/// The text a C character stands for in Rust: `~` becomes `!`.
pub open spec fn punct_text(c: char) -> char {
    if c == '~' {
        '!'
    } else {
        c
    }
}

/// The Rust text of the rest of a C expression, given the text so far (`out`) and the
/// characters gathered since the last macro call (`tmp`). Gathered characters are moved
/// to the text before a macro call and at the end.
pub open spec fn cexpr_run<T: RustTranslator>(tr: &T, items: Seq<CExprItem>, out: Seq<char>, tmp: Seq<char>) -> Seq<char>
    decreases items,
{
    if items.len() == 0 {
        out + " "@ + tmp
    } else {
        let rest = items.drop_first();
        match items[0] {
            CExprItem::Punct(c) => cexpr_run(tr, rest, out, tmp.push(punct_text(c))),
            CExprItem::NumericLiteral(lit) => cexpr_run(tr, rest, out, tmp + lit@),
            CExprItem::U32ArgVar(name) => cexpr_run(tr, rest, out, tmp + name@),
            CExprItem::StringLiteral(content) => cexpr_run(tr, rest, out, tmp + "c\""@ + content@ + "\""@),
            CExprItem::MacroCall { macro_name, args } => {
                let name = tr.cmacro_text(macro_name@, true);
                let call = if args@.len() == 0 {
                    name
                } else {
                    name + "("@ + cexpr_args(tr, args@) + ")"@
                };
                cexpr_run(tr, rest, out + " "@ + tmp + " "@ + call, Seq::empty())
            },
        }
    }
}

/// The texts of the arguments of a macro call, `, ` between each two.
pub open spec fn cexpr_args<T: RustTranslator>(tr: &T, args: Seq<Vec<CExprItem>>) -> Seq<char>
    decreases args,
{
    if args.len() == 0 {
        Seq::empty()
    } else if args.len() == 1 {
        cexpr_run(tr, args[0]@, Seq::empty(), Seq::empty())
    } else {
        cexpr_args(tr, args.drop_last()) + ", "@ + cexpr_run(tr, args.last()@, Seq::empty(), Seq::empty())
    }
}

/// Whether the rest of a C expression can be written: each run of characters gathered
/// between macro calls lexes as Rust, each macro is known, and so for each argument.
pub open spec fn cexpr_run_ok<T: RustTranslator>(tr: &T, items: Seq<CExprItem>, tmp: Seq<char>) -> bool
    decreases items,
{
    if items.len() == 0 {
        lexes(tmp)
    } else {
        let rest = items.drop_first();
        match items[0] {
            CExprItem::Punct(c) => cexpr_run_ok(tr, rest, tmp.push(punct_text(c))),
            CExprItem::NumericLiteral(lit) => cexpr_run_ok(tr, rest, tmp + lit@),
            CExprItem::U32ArgVar(name) => cexpr_run_ok(tr, rest, tmp + name@),
            CExprItem::StringLiteral(content) => cexpr_run_ok(tr, rest, tmp + "c\""@ + content@ + "\""@),
            CExprItem::MacroCall { macro_name, args } => {
                &&& lexes(tmp)
                &&& tr.cmacro_ok(macro_name@)
                &&& cexpr_args_ok(tr, args@)
                &&& cexpr_run_ok(tr, rest, Seq::empty())
            },
        }
    }
}

pub open spec fn cexpr_args_ok<T: RustTranslator>(tr: &T, args: Seq<Vec<CExprItem>>) -> bool
    decreases args,
{
    if args.len() == 0 {
        true
    } else {
        cexpr_args_ok(tr, args.drop_last()) && cexpr_run_ok(tr, args.last()@, Seq::empty())
    }
}

/// The Rust text of a C constant expression.
pub open spec fn cexpr_text<T: RustTranslator>(tr: &T, items: Seq<CExprItem>) -> Seq<char> {
    cexpr_run(tr, items, Seq::empty(), Seq::empty())
}

/// The C constant expressions whose text can be made.
pub open spec fn cexpr_ok<T: RustTranslator>(tr: &T, items: Seq<CExprItem>) -> bool {
    cexpr_run_ok(tr, items, Seq::empty())
}

impl CExprItem {
    /// The text of a C constant expression, where it can be made (`None` where `to_rust`
    /// would panic).
    pub fn try_to_rust<T: RustTranslator>(items: &Vec<CExprItem>, translator: &T) -> (r: Option<String>)
        ensures
            r is Some <==> cexpr_ok(translator, items@),
            r matches Some(t) ==> t@ == cexpr_text(translator, items@),
        decreases items@,
    {
        let mut output = String::new();
        let mut tmp_s = String::new();
        let mut i: usize = 0;
        assert(items@.skip(0) =~= items@);
        while i < items.len()
            invariant
                i <= items.len(),
                cexpr_run(translator, items@.skip(i as int), output@, tmp_s@) == cexpr_text(translator, items@),
                cexpr_run_ok(translator, items@.skip(i as int), tmp_s@) == cexpr_ok(translator, items@),
            decreases items.len() - i,
        {
            let ghost rest = items@.skip(i as int);
            assert(rest.drop_first() =~= items@.skip(i + 1));
            assert(rest[0] == items@[i as int]);
            match &items[i] {
                CExprItem::Punct(c) => {
                    if *c == '~' {
                        push_char(&mut tmp_s, '!');
                    } else {
                        push_char(&mut tmp_s, *c);
                    }
                },
                CExprItem::NumericLiteral(lit) => push_str(&mut tmp_s, lit.as_str()),
                CExprItem::U32ArgVar(name) => push_str(&mut tmp_s, name.as_str()),
                CExprItem::StringLiteral(content) => {
                    push_str(&mut tmp_s, "c\"");
                    push_str(&mut tmp_s, content.as_str());
                    push_str(&mut tmp_s, "\"");
                },
                CExprItem::MacroCall { macro_name, args } => {
                    let ghost old_out = output@;
                    let ghost old_tmp = tmp_s@;
                    if !check_lexes(tmp_s.as_str()) || !translator.check_cmacro(macro_name) {
                        return None;
                    }
                    push_str(&mut output, " ");
                    push_str(&mut output, tmp_s.as_str());
                    tmp_s = String::new();
                    let name = translator.cmacro_to_rust(macro_name, true);
                    push_str(&mut output, " ");
                    push_str(&mut output, name.as_str());
                    if args.len() != 0 {
                        push_str(&mut output, "(");
                        let mut joined = String::new();
                        let mut j: usize = 0;
                        #[verifier::loop_isolation(false)]
                        while j < args.len()
                            invariant
                                j <= args.len(),
                                joined@ == cexpr_args(translator, args@.take(j as int)),
                                cexpr_args_ok(translator, args@.take(j as int)),
                            decreases args.len() - j,
                        {
                            proof {
                                assert(decreases_to!(items@ => items@[i as int]));
                                assert(decreases_to!(items@[i as int] => *args));
                                assert(decreases_to!(*args => args@));
                                assert(decreases_to!(args@ => args@[j as int]));
                                assert(decreases_to!(args@[j as int] => args@[j as int]@));
                            }
                            let arg = match CExprItem::try_to_rust(&args[j], translator) {
                                Some(t) => t,
                                None => {
                                    proof {
                                        if cexpr_args_ok(translator, args@) {
                                            lemma_args_ok_prefix(translator, args@, j + 1);
                                            assert(args@.take(j + 1).drop_last() =~= args@.take(j as int));
                                            assert(args@.take(j + 1).last() == args@[j as int]);
                                        }
                                    }
                                    return None;
                                },
                            };
                            if j != 0 {
                                push_str(&mut joined, ", ");
                            }
                            push_str(&mut joined, arg.as_str());
                            assert(args@.take(j + 1).drop_last() =~= args@.take(j as int));
                            j += 1;
                        }
                        assert(args@.take(args@.len() as int) =~= args@);
                        push_str(&mut output, joined.as_str());
                        push_str(&mut output, ")");
                        assert(output@ =~= old_out + " "@ + old_tmp + " "@ + (name@ + "("@ + cexpr_args(translator, args@) + ")"@));
                        assert(cexpr_args_ok(translator, args@));
                    } else {
                        assert(output@ =~= old_out + " "@ + old_tmp + " "@ + name@);
                        assert(cexpr_args_ok(translator, args@));
                    }
                },
            }
            i += 1;
        }
        if !check_lexes(tmp_s.as_str()) {
            return None;
        }
        push_str(&mut output, " ");
        push_str(&mut output, tmp_s.as_str());
        Some(output)
    }

    pub fn to_rust<T: RustTranslator>(items: &Vec<CExprItem>, translator: &T) -> (r: String)
        requires
            cexpr_ok(translator, items@),
        ensures
            r@ == cexpr_text(translator, items@),
    {
        CExprItem::try_to_rust(items, translator).unwrap()
    }
}

/// The arguments of a prefix that can be written, where all can.
proof fn lemma_args_ok_prefix<T: RustTranslator>(tr: &T, args: Seq<Vec<CExprItem>>, k: int)
    requires
        0 <= k <= args.len(),
        cexpr_args_ok(tr, args),
    ensures
        cexpr_args_ok(tr, args.take(k)),
    decreases args.len(),
{
    if k < args.len() {
        assert(args.drop_last().take(k) =~= args.take(k));
        lemma_args_ok_prefix(tr, args.drop_last(), k);
    } else {
        assert(args.take(k) =~= args);
    }
}

} // verus!
