//! The mangling of types: a text made of identifier characters that tells
//! every type apart.
//!
//! Every type's text starts with a word whose first character tells its kind
//! apart, and every part of variable length is preceded by its length or
//! count (a decimal number followed by `_`), so that a mangling can be read
//! back in only one way.

use vstd::prelude::*;

use super::utils::{
    DefPath, DefPathData, DisambiguatedDefPathData, FloatTy, GenericArg, IntTy, Mutability,
    TyKind, UintTy,
};
use crate::text::{digit_char, nat_decimal};

verus! {

/// A number followed by `_`.
pub open spec fn counted(n: nat) -> Seq<char> {
    nat_decimal(n) + "_"@
}

/// A name preceded by its length.
pub open spec fn name_code(s: Seq<char>) -> Seq<char> {
    counted(s.len()) + s
}

/// The code point of each character, each followed by `_`.
pub open spec fn chars_code(s: Seq<char>) -> Seq<char>
    decreases s.len(),
{
    if s.len() == 0 {
        Seq::empty()
    } else {
        chars_code(s.drop_last()) + counted(s.last() as nat)
    }
}

/// Any text as identifier characters: its length, then its code points.
pub open spec fn text_code(s: Seq<char>) -> Seq<char> {
    counted(s.len()) + chars_code(s)
}

/// The word of a path component's kind; the first characters differ.
pub open spec fn component_word(d: DefPathData) -> Seq<char> {
    match d {
        DefPathData::TypeNs(_) => "type"@,
        DefPathData::ValueNs(_) => "value"@,
        DefPathData::MacroNs(_) => "macro"@,
        DefPathData::LifetimeNs(_) => "lifetime"@,
        DefPathData::CrateRoot => "root"@,
        DefPathData::Impl => "impl"@,
        DefPathData::Misc => "Misc"@,
        DefPathData::ClosureExpr => "closure"@,
        DefPathData::Ctor => "Ctor"@,
        DefPathData::AnonConst => "anon"@,
        DefPathData::ImplTrait => "Impltrait"@,
    }
}

/// A path component: the word of its kind, its name as a text if it has
/// one, and its disambiguator.
pub open spec fn component_code(c: DisambiguatedDefPathData) -> Seq<char> {
    component_word(c.data) + match c.data {
        DefPathData::TypeNs(n) | DefPathData::ValueNs(n) | DefPathData::MacroNs(n)
        | DefPathData::LifetimeNs(n) => text_code(n@),
        _ => Seq::empty(),
    } + counted(c.disambiguator as nat)
}

pub open spec fn components_code(cs: Seq<DisambiguatedDefPathData>) -> Seq<char>
    decreases cs.len(),
{
    if cs.len() == 0 {
        Seq::empty()
    } else {
        components_code(cs.drop_last()) + component_code(cs.last())
    }
}

/// A definition: its crate's name as a text, the number of its components,
/// and the components.
pub open spec fn path_code(d: DefPath) -> Seq<char> {
    text_code(d.krate@) + counted(d.data@.len()) + components_code(d.data@)
}

pub open spec fn int_width(t: IntTy) -> Seq<char> {
    match t {
        IntTy::Isize => "size"@,
        IntTy::I8 => "8"@,
        IntTy::I16 => "16"@,
        IntTy::I32 => "32"@,
        IntTy::I64 => "64"@,
        IntTy::I128 => "128"@,
    }
}

pub open spec fn uint_width(t: UintTy) -> Seq<char> {
    match t {
        UintTy::Usize => "size"@,
        UintTy::U8 => "8"@,
        UintTy::U16 => "16"@,
        UintTy::U32 => "32"@,
        UintTy::U64 => "64"@,
        UintTy::U128 => "128"@,
    }
}

pub open spec fn float_width(t: FloatTy) -> Seq<char> {
    match t {
        FloatTy::F32 => "32"@,
        FloatTy::F64 => "64"@,
    }
}

/// The word of a pointer's or a reference's mutability.
pub open spec fn mutability_word(m: Mutability) -> Seq<char> {
    match m {
        Mutability::Mut => "m"@,
        Mutability::Not => "c"@,
    }
}

/// The mangling of a type.
pub open spec fn mangled(ty: TyKind) -> Seq<char>
    decreases ty,
{
    match ty {
        TyKind::Bool => "bool"@,
        TyKind::Char => "char"@,
        TyKind::Int(t) => "i"@ + int_width(t),
        TyKind::Uint(t) => "u"@ + uint_width(t),
        TyKind::Float(t) => "f"@ + float_width(t),
        TyKind::Str => "str"@,
        TyKind::Never => "never"@,
        TyKind::Adt(def, subs) => "adt"@ + path_code(def) + counted(subs@.len()) + args_items(
            subs@,
        ),
        TyKind::Closure(def, subs) => "Closure"@ + path_code(def) + counted(subs@.len())
            + args_items(subs@),
        TyKind::Dynamic(principal, bounds) => "dyn"@ + principal_code(principal) + counted(
            bounds@.len(),
        ) + list_items(bounds@),
        TyKind::Foreign(def) => "extern"@ + path_code(def),
        TyKind::FnDef(def, subs) => "Fndef"@ + path_code(def) + counted(subs@.len()) + args_items(
            subs@,
        ),
        TyKind::Generator(def, subs) => "generator"@ + path_code(def) + counted(subs@.len())
            + args_items(subs@),
        TyKind::GeneratorWitness(tys) => "witness"@ + counted(tys@.len()) + list_items(tys@),
        TyKind::Opaque(def, subs) => "opaque"@ + path_code(def) + counted(subs@.len())
            + args_items(subs@),
        TyKind::Array(t, len) => "Array"@ + mangled(*t) + text_code(len@),
        TyKind::Slice(t) => "Slice"@ + mangled(*t),
        TyKind::RawPtr(t, m) => "Raw"@ + mutability_word(m) + mangled(*t),
        TyKind::Ref(t, m) => "ref"@ + mutability_word(m) + mangled(*t),
        TyKind::FnPtr(inputs, output) => "pfn"@ + counted(inputs@.len()) + list_items(inputs@)
            + mangled(*output),
        TyKind::Tuple(tys) => "tuple"@ + counted(tys@.len()) + list_items(tys@),
        TyKind::Param(name) => "Generic"@ + text_code(name@),
        TyKind::Projection(self_ty, subs, item) => "Projection"@ + mangled(*self_ty) + counted(
            subs@.len(),
        ) + args_items(subs@) + path_code(item),
        TyKind::Bound(text) => "Bound"@ + text_code(text@),
        TyKind::Placeholder(text) => "hole"@ + text_code(text@),
        TyKind::Infer(text) => "Infer"@ + text_code(text@),
        TyKind::Error(text) => "Error"@ + text_code(text@),
    }
}

/// A trait object's principal: `s`, the trait and its arguments, or `n`.
pub open spec fn principal_code(principal: Option<(DefPath, Vec<GenericArg>)>) -> Seq<char>
    decreases principal,
{
    match principal {
        Some((def, subs)) => "s"@ + path_code(def) + counted(subs@.len()) + args_items(subs@),
        None => "n"@,
    }
}

/// The generic arguments, each as `t` and its type's mangling, `l` for a
/// lifetime or `c` for a constant.
pub open spec fn args_items(args: Seq<GenericArg>) -> Seq<char>
    decreases args,
{
    if args.len() == 0 {
        Seq::empty()
    } else {
        args_items(args.drop_last()) + match args.last() {
            GenericArg::Type(t) => "t"@ + mangled(t),
            GenericArg::Lifetime => "l"@,
            GenericArg::Const => "c"@,
        }
    }
}

/// The manglings of the types one after another.
pub open spec fn list_items(tys: Seq<TyKind>) -> Seq<char>
    decreases tys,
{
    if tys.len() == 0 {
        Seq::empty()
    } else {
        list_items(tys.drop_last()) + mangled(tys.last())
    }
}


// ---------------------------------------------------------------------------
// Manglings are identifiers
// ---------------------------------------------------------------------------

/// A character that may stand in an identifier.
pub open spec fn ident_char(c: char) -> bool {
    ('a' <= c && c <= 'z') || ('A' <= c && c <= 'Z') || ('0' <= c && c <= '9') || c == '_'
}

/// Text made of identifier characters only.
pub open spec fn ident_text(s: Seq<char>) -> bool {
    forall|i: int| 0 <= i < s.len() ==> ident_char(#[trigger] s[i])
}

proof fn lemma_ident_concat(a: Seq<char>, b: Seq<char>)
    requires
        ident_text(a),
        ident_text(b),
    ensures
        ident_text(a + b),
{
    assert forall|i: int| 0 <= i < (a + b).len() implies ident_char(#[trigger] (a + b)[i]) by {
        if i < a.len() {
            assert((a + b)[i] == a[i]);
        } else {
            assert((a + b)[i] == b[i - a.len()]);
        }
    }
}

/// The fixed words of the mangling are made of identifier characters.
proof fn lemma_words_ident()
    ensures
        ident_text("bool"@),
        ident_text("char"@),
        ident_text("i"@),
        ident_text("u"@),
        ident_text("f"@),
        ident_text("size"@),
        ident_text("8"@),
        ident_text("16"@),
        ident_text("32"@),
        ident_text("64"@),
        ident_text("128"@),
        ident_text("str"@),
        ident_text("never"@),
        ident_text("adt"@),
        ident_text("Closure"@),
        ident_text("dyn"@),
        ident_text("s"@),
        ident_text("n"@),
        ident_text("extern"@),
        ident_text("Fndef"@),
        ident_text("generator"@),
        ident_text("witness"@),
        ident_text("opaque"@),
        ident_text("Array"@),
        ident_text("Slice"@),
        ident_text("Raw"@),
        ident_text("ref"@),
        ident_text("m"@),
        ident_text("c"@),
        ident_text("pfn"@),
        ident_text("tuple"@),
        ident_text("Generic"@),
        ident_text("Projection"@),
        ident_text("Bound"@),
        ident_text("hole"@),
        ident_text("Infer"@),
        ident_text("Error"@),
        ident_text("t"@),
        ident_text("l"@),
        ident_text("_"@),
        ident_text("type"@),
        ident_text("value"@),
        ident_text("macro"@),
        ident_text("lifetime"@),
        ident_text("root"@),
        ident_text("impl"@),
        ident_text("Misc"@),
        ident_text("closure"@),
        ident_text("Ctor"@),
        ident_text("anon"@),
        ident_text("Impltrait"@),
{
    reveal_strlit("bool");
    reveal_strlit("char");
    reveal_strlit("i");
    reveal_strlit("u");
    reveal_strlit("f");
    reveal_strlit("size");
    reveal_strlit("8");
    reveal_strlit("16");
    reveal_strlit("32");
    reveal_strlit("64");
    reveal_strlit("128");
    reveal_strlit("str");
    reveal_strlit("never");
    reveal_strlit("adt");
    reveal_strlit("Closure");
    reveal_strlit("dyn");
    reveal_strlit("s");
    reveal_strlit("n");
    reveal_strlit("extern");
    reveal_strlit("Fndef");
    reveal_strlit("generator");
    reveal_strlit("witness");
    reveal_strlit("opaque");
    reveal_strlit("Array");
    reveal_strlit("Slice");
    reveal_strlit("Raw");
    reveal_strlit("ref");
    reveal_strlit("m");
    reveal_strlit("c");
    reveal_strlit("pfn");
    reveal_strlit("tuple");
    reveal_strlit("Generic");
    reveal_strlit("Projection");
    reveal_strlit("Bound");
    reveal_strlit("hole");
    reveal_strlit("Infer");
    reveal_strlit("Error");
    reveal_strlit("t");
    reveal_strlit("l");
    reveal_strlit("_");
    reveal_strlit("type");
    reveal_strlit("value");
    reveal_strlit("macro");
    reveal_strlit("lifetime");
    reveal_strlit("root");
    reveal_strlit("impl");
    reveal_strlit("Misc");
    reveal_strlit("closure");
    reveal_strlit("Ctor");
    reveal_strlit("anon");
    reveal_strlit("Impltrait");
}

proof fn lemma_decimal_ident(n: nat)
    ensures
        ident_text(nat_decimal(n)),
    decreases n,
{
    if n >= 10 {
        lemma_decimal_ident(n / 10);
        lemma_ident_concat(nat_decimal(n / 10), seq![digit_char((n % 10) as int)]);
        assert(nat_decimal(n / 10).push(digit_char((n % 10) as int)) =~= nat_decimal(n / 10)
            + seq![digit_char((n % 10) as int)]);
    }
}

proof fn lemma_counted_ident(n: nat)
    ensures
        ident_text(counted(n)),
{
    lemma_decimal_ident(n);
    lemma_words_ident();
    lemma_ident_concat(nat_decimal(n), "_"@);
}

proof fn lemma_chars_ident(s: Seq<char>)
    ensures
        ident_text(chars_code(s)),
    decreases s.len(),
{
    if s.len() > 0 {
        lemma_chars_ident(s.drop_last());
        lemma_counted_ident(s.last() as nat);
        lemma_ident_concat(chars_code(s.drop_last()), counted(s.last() as nat));
    }
}

/// Any text is coded with identifier characters.
proof fn lemma_text_ident(s: Seq<char>)
    ensures
        ident_text(text_code(s)),
{
    lemma_counted_ident(s.len());
    lemma_chars_ident(s);
    lemma_ident_concat(counted(s.len()), chars_code(s));
}

proof fn lemma_component_ident(c: DisambiguatedDefPathData)
    ensures
        ident_text(component_code(c)),
{
    lemma_words_ident();
    let named: Seq<char> = match c.data {
        DefPathData::TypeNs(n) | DefPathData::ValueNs(n) | DefPathData::MacroNs(n)
        | DefPathData::LifetimeNs(n) => text_code(n@),
        _ => Seq::empty(),
    };
    match c.data {
        DefPathData::TypeNs(n) | DefPathData::ValueNs(n) | DefPathData::MacroNs(n)
        | DefPathData::LifetimeNs(n) => lemma_text_ident(n@),
        _ => {},
    }
    lemma_counted_ident(c.disambiguator as nat);
    lemma_ident_concat(component_word(c.data), named);
    lemma_ident_concat(component_word(c.data) + named, counted(c.disambiguator as nat));
}

proof fn lemma_components_ident(cs: Seq<DisambiguatedDefPathData>)
    ensures
        ident_text(components_code(cs)),
    decreases cs.len(),
{
    if cs.len() > 0 {
        lemma_components_ident(cs.drop_last());
        lemma_component_ident(cs[cs.len() - 1]);
        lemma_ident_concat(components_code(cs.drop_last()), component_code(cs.last()));
    }
}

proof fn lemma_path_ident(d: DefPath)
    ensures
        ident_text(path_code(d)),
{
    lemma_text_ident(d.krate@);
    lemma_counted_ident(d.data@.len());
    lemma_components_ident(d.data@);
    lemma_ident_concat(text_code(d.krate@), counted(d.data@.len()));
    lemma_ident_concat(text_code(d.krate@) + counted(d.data@.len()), components_code(d.data@));
}

/// The mangling of every type is made of identifier characters (letters,
/// digits and `_`): names and other texts are written as their code points.
pub proof fn law_mangled_is_identifier(ty: TyKind)
    ensures
        ident_text(mangled(ty)),
    decreases ty, 2nat,
{
    lemma_words_ident();
    match ty {
        TyKind::Int(t) => lemma_ident_concat("i"@, int_width(t)),
        TyKind::Uint(t) => lemma_ident_concat("u"@, uint_width(t)),
        TyKind::Float(t) => lemma_ident_concat("f"@, float_width(t)),
        TyKind::Adt(def, subs) => lemma_word_path_args("adt"@, def, subs@),
        TyKind::Closure(def, subs) => lemma_word_path_args("Closure"@, def, subs@),
        TyKind::FnDef(def, subs) => lemma_word_path_args("Fndef"@, def, subs@),
        TyKind::Generator(def, subs) => lemma_word_path_args("generator"@, def, subs@),
        TyKind::Opaque(def, subs) => lemma_word_path_args("opaque"@, def, subs@),
        TyKind::Dynamic(principal, bounds) => {
            if let Some((def, subs)) = principal {
                lemma_word_path_args("s"@, def, subs@);
            }
            lemma_ident_concat("dyn"@, principal_code(principal));
            lemma_word_list("dyn"@ + principal_code(principal), bounds@);
        },
        TyKind::Foreign(def) => {
            lemma_path_ident(def);
            lemma_ident_concat("extern"@, path_code(def));
        },
        TyKind::GeneratorWitness(tys) => lemma_word_list("witness"@, tys@),
        TyKind::Tuple(tys) => lemma_word_list("tuple"@, tys@),
        TyKind::Array(t, len) => {
            law_mangled_is_identifier(*t);
            lemma_text_ident(len@);
            lemma_ident_concat("Array"@, mangled(*t));
            lemma_ident_concat("Array"@ + mangled(*t), text_code(len@));
        },
        TyKind::Slice(t) => {
            law_mangled_is_identifier(*t);
            lemma_ident_concat("Slice"@, mangled(*t));
        },
        TyKind::RawPtr(t, m) => {
            law_mangled_is_identifier(*t);
            lemma_ident_concat("Raw"@, mutability_word(m));
            lemma_ident_concat("Raw"@ + mutability_word(m), mangled(*t));
        },
        TyKind::Ref(t, m) => {
            law_mangled_is_identifier(*t);
            lemma_ident_concat("ref"@, mutability_word(m));
            lemma_ident_concat("ref"@ + mutability_word(m), mangled(*t));
        },
        TyKind::FnPtr(inputs, output) => {
            lemma_word_list("pfn"@, inputs@);
            law_mangled_is_identifier(*output);
            lemma_ident_concat(
                "pfn"@ + counted(inputs@.len()) + list_items(inputs@),
                mangled(*output),
            );
        },
        TyKind::Param(name) => {
            lemma_text_ident(name@);
            lemma_ident_concat("Generic"@, text_code(name@));
        },
        TyKind::Projection(self_ty, subs, item) => {
            law_mangled_is_identifier(*self_ty);
            lemma_args_identifier(subs@);
            lemma_path_ident(item);
            lemma_counted_ident(subs@.len());
            lemma_ident_concat("Projection"@, mangled(*self_ty));
            lemma_ident_concat("Projection"@ + mangled(*self_ty), counted(subs@.len()));
            lemma_ident_concat(
                "Projection"@ + mangled(*self_ty) + counted(subs@.len()),
                args_items(subs@),
            );
            lemma_ident_concat(
                "Projection"@ + mangled(*self_ty) + counted(subs@.len()) + args_items(subs@),
                path_code(item),
            );
        },
        TyKind::Bound(text) => {
            lemma_text_ident(text@);
            lemma_ident_concat("Bound"@, text_code(text@));
        },
        TyKind::Placeholder(text) => {
            lemma_text_ident(text@);
            lemma_ident_concat("hole"@, text_code(text@));
        },
        TyKind::Infer(text) => {
            lemma_text_ident(text@);
            lemma_ident_concat("Infer"@, text_code(text@));
        },
        TyKind::Error(text) => {
            lemma_text_ident(text@);
            lemma_ident_concat("Error"@, text_code(text@));
        },
        _ => {},
    }
}

/// A word, a path and generic arguments whose names are identifiers.
proof fn lemma_word_path_args(w: Seq<char>, def: DefPath, subs: Seq<GenericArg>)
    requires
        ident_text(w),
    ensures
        ident_text(w + path_code(def) + counted(subs.len()) + args_items(subs)),
    decreases subs, 1nat,
{
    lemma_path_ident(def);
    lemma_counted_ident(subs.len());
    lemma_args_identifier(subs);
    lemma_ident_concat(w, path_code(def));
    lemma_ident_concat(w + path_code(def), counted(subs.len()));
    lemma_ident_concat(w + path_code(def) + counted(subs.len()), args_items(subs));
}

/// A word and a counted list of types whose names are identifiers.
proof fn lemma_word_list(w: Seq<char>, tys: Seq<TyKind>)
    requires
        ident_text(w),
    ensures
        ident_text(w + counted(tys.len()) + list_items(tys)),
    decreases tys, 1nat,
{
    lemma_counted_ident(tys.len());
    lemma_list_identifier(tys);
    lemma_ident_concat(w, counted(tys.len()));
    lemma_ident_concat(w + counted(tys.len()), list_items(tys));
}

proof fn lemma_args_identifier(args: Seq<GenericArg>)
    ensures
        ident_text(args_items(args)),
    decreases args, 0nat,
{
    if args.len() > 0 {
        lemma_args_identifier(args.drop_last());
        lemma_words_ident();
        match args.last() {
            GenericArg::Type(t) => {
                law_mangled_is_identifier(t);
                lemma_ident_concat("t"@, mangled(t));
                lemma_ident_concat(args_items(args.drop_last()), "t"@ + mangled(t));
            },
            GenericArg::Lifetime => lemma_ident_concat(args_items(args.drop_last()), "l"@),
            GenericArg::Const => lemma_ident_concat(args_items(args.drop_last()), "c"@),
        }
    }
}

proof fn lemma_list_identifier(tys: Seq<TyKind>)
    ensures
        ident_text(list_items(tys)),
    decreases tys, 0nat,
{
    if tys.len() > 0 {
        lemma_list_identifier(tys.drop_last());
        law_mangled_is_identifier(tys.last());
        lemma_ident_concat(list_items(tys.drop_last()), mangled(tys.last()));
    }
}


// ---------------------------------------------------------------------------
// Manglings tell types apart
// ---------------------------------------------------------------------------

/// Two path components are the same: same kind, same name, same
/// disambiguator.
pub open spec fn component_same(c1: DisambiguatedDefPathData, c2: DisambiguatedDefPathData) -> bool {
    &&& c1.disambiguator == c2.disambiguator
    &&& match (c1.data, c2.data) {
        (DefPathData::TypeNs(a), DefPathData::TypeNs(b)) => a@ == b@,
        (DefPathData::ValueNs(a), DefPathData::ValueNs(b)) => a@ == b@,
        (DefPathData::MacroNs(a), DefPathData::MacroNs(b)) => a@ == b@,
        (DefPathData::LifetimeNs(a), DefPathData::LifetimeNs(b)) => a@ == b@,
        (DefPathData::CrateRoot, DefPathData::CrateRoot) => true,
        (DefPathData::Impl, DefPathData::Impl) => true,
        (DefPathData::Misc, DefPathData::Misc) => true,
        (DefPathData::ClosureExpr, DefPathData::ClosureExpr) => true,
        (DefPathData::Ctor, DefPathData::Ctor) => true,
        (DefPathData::AnonConst, DefPathData::AnonConst) => true,
        (DefPathData::ImplTrait, DefPathData::ImplTrait) => true,
        _ => false,
    }
}

/// Two definitions are the same: same crate name and the same components.
pub open spec fn path_same(d1: DefPath, d2: DefPath) -> bool {
    &&& d1.krate@ == d2.krate@
    &&& d1.data@.len() == d2.data@.len()
    &&& forall|i: int| 0 <= i < d1.data@.len() ==> component_same(#[trigger] d1.data@[i], d2.data@[i])
}

/// Two types are the same: the same kind, with the same names, texts,
/// widths and mutabilities, and the same parts.
pub open spec fn ty_same(t1: TyKind, t2: TyKind) -> bool
    decreases t1,
{
    match (t1, t2) {
        (TyKind::Bool, TyKind::Bool) | (TyKind::Char, TyKind::Char) | (TyKind::Str, TyKind::Str)
        | (TyKind::Never, TyKind::Never) => true,
        (TyKind::Int(a), TyKind::Int(b)) => a == b,
        (TyKind::Uint(a), TyKind::Uint(b)) => a == b,
        (TyKind::Float(a), TyKind::Float(b)) => a == b,
        (TyKind::Adt(d1, s1), TyKind::Adt(d2, s2)) | (TyKind::Closure(d1, s1), TyKind::Closure(d2, s2))
        | (TyKind::FnDef(d1, s1), TyKind::FnDef(d2, s2))
        | (TyKind::Generator(d1, s1), TyKind::Generator(d2, s2))
        | (TyKind::Opaque(d1, s1), TyKind::Opaque(d2, s2)) => path_same(d1, d2) && args_same(s1@, s2@),
        (TyKind::Dynamic(p1, b1), TyKind::Dynamic(p2, b2)) => principal_same(p1, p2) && list_same(
            b1@,
            b2@,
        ),
        (TyKind::Foreign(d1), TyKind::Foreign(d2)) => path_same(d1, d2),
        (TyKind::GeneratorWitness(l1), TyKind::GeneratorWitness(l2))
        | (TyKind::Tuple(l1), TyKind::Tuple(l2)) => list_same(l1@, l2@),
        (TyKind::Array(a, n1), TyKind::Array(b, n2)) => ty_same(*a, *b) && n1@ == n2@,
        (TyKind::Slice(a), TyKind::Slice(b)) => ty_same(*a, *b),
        (TyKind::RawPtr(a, m1), TyKind::RawPtr(b, m2)) | (TyKind::Ref(a, m1), TyKind::Ref(b, m2)) => m1
            == m2 && ty_same(*a, *b),
        (TyKind::FnPtr(i1, o1), TyKind::FnPtr(i2, o2)) => list_same(i1@, i2@) && ty_same(*o1, *o2),
        (TyKind::Param(a), TyKind::Param(b)) => a@ == b@,
        (TyKind::Projection(a, s1, d1), TyKind::Projection(b, s2, d2)) => ty_same(*a, *b) && args_same(
            s1@,
            s2@,
        ) && path_same(d1, d2),
        (TyKind::Bound(a), TyKind::Bound(b)) | (TyKind::Placeholder(a), TyKind::Placeholder(b))
        | (TyKind::Infer(a), TyKind::Infer(b)) | (TyKind::Error(a), TyKind::Error(b)) => a@ == b@,
        _ => false,
    }
}

/// Two trait objects' principals are the same.
pub open spec fn principal_same(
    p1: Option<(DefPath, Vec<GenericArg>)>,
    p2: Option<(DefPath, Vec<GenericArg>)>,
) -> bool
    decreases p1,
{
    match (p1, p2) {
        (Some((d1, s1)), Some((d2, s2))) => path_same(d1, d2) && args_same(s1@, s2@),
        (None, None) => true,
        _ => false,
    }
}

/// Two lists of generic arguments are the same, argument by argument.
pub open spec fn args_same(a1: Seq<GenericArg>, a2: Seq<GenericArg>) -> bool
    decreases a1,
{
    if a1.len() == 0 {
        a2.len() == 0
    } else {
        &&& a2.len() > 0
        &&& match (a1[0], a2[0]) {
            (GenericArg::Type(t1), GenericArg::Type(t2)) => ty_same(t1, t2),
            (GenericArg::Lifetime, GenericArg::Lifetime) | (GenericArg::Const, GenericArg::Const) => true,
            _ => false,
        }
        &&& args_same(a1.drop_first(), a2.drop_first())
    }
}

/// Two lists of types are the same, type by type.
pub open spec fn list_same(l1: Seq<TyKind>, l2: Seq<TyKind>) -> bool
    decreases l1,
{
    if l1.len() == 0 {
        l2.len() == 0
    } else {
        l2.len() > 0 && ty_same(l1[0], l2[0]) && list_same(l1.drop_first(), l2.drop_first())
    }
}

/// Two texts that are equal and of the same length as their first parts
/// split alike.
pub(crate) proof fn lemma_split(a: Seq<char>, x: Seq<char>, b: Seq<char>, y: Seq<char>)
    requires
        a + x == b + y,
        a.len() == b.len(),
    ensures
        a == b,
        x == y,
{
    assert(a =~= (a + x).subrange(0, a.len() as int));
    assert(b =~= (b + y).subrange(0, b.len() as int));
    assert(x =~= (a + x).subrange(a.len() as int, (a + x).len() as int));
    assert(y =~= (b + y).subrange(b.len() as int, (b + y).len() as int));
}

/// The digits of a number: at least one, all decimal digits, and at least
/// two for a number of two digits or more.
pub(crate) proof fn lemma_decimal_digits(n: nat)
    ensures
        nat_decimal(n).len() >= 1,
        n >= 10 ==> nat_decimal(n).len() >= 2,
        forall|i: int| 0 <= i < nat_decimal(n).len() ==> '0' <= #[trigger] nat_decimal(n)[i] <= '9',
    decreases n,
{
    if n >= 10 {
        lemma_decimal_digits(n / 10);
        let d = (n % 10) as int;
        assert('0' <= digit_char(d) <= '9');
        assert forall|i: int| 0 <= i < nat_decimal(n).len() implies '0' <= #[trigger] nat_decimal(
            n,
        )[i] <= '9' by {
            if i < nat_decimal(n / 10).len() {
                assert(nat_decimal(n)[i] == nat_decimal(n / 10)[i]);
            }
        }
    } else {
        assert('0' <= digit_char(n as int) <= '9');
    }
}

/// A decimal digit's character tells the digit.
proof fn lemma_digit_injective(d: int, e: int)
    requires
        0 <= d < 10,
        0 <= e < 10,
        digit_char(d) == digit_char(e),
    ensures
        d == e,
{
}

/// A character's code point tells the character.
proof fn lemma_code_point_injective(c1: char, c2: char)
    requires
        c1 as nat == c2 as nat,
    ensures
        c1 == c2,
{
}

/// Different numbers have different digits.
pub(crate) proof fn lemma_decimal_injective(m: nat, n: nat)
    requires
        nat_decimal(m) == nat_decimal(n),
    ensures
        m == n,
    decreases m,
{
    lemma_decimal_digits(m);
    lemma_decimal_digits(n);
    let a = nat_decimal(m);
    let b = nat_decimal(n);
    if m < 10 && n < 10 {
        assert(a == seq![digit_char(m as int)]);
        assert(b == seq![digit_char(n as int)]);
        assert(a[0] == digit_char(m as int));
        assert(b[0] == digit_char(n as int));
        lemma_digit_injective(m as int, n as int);
    } else if m >= 10 && n >= 10 {
        assert(a == nat_decimal(m / 10).push(digit_char((m % 10) as int)));
        assert(b == nat_decimal(n / 10).push(digit_char((n % 10) as int)));
        assert(a.last() == digit_char((m % 10) as int));
        assert(b.last() == digit_char((n % 10) as int));
        lemma_digit_injective((m % 10) as int, (n % 10) as int);
        assert(a.drop_last() =~= nat_decimal(m / 10));
        assert(b.drop_last() =~= nat_decimal(n / 10));
        lemma_decimal_injective(m / 10, n / 10);
    }
}

/// A number followed by `_` is read back in one way.
proof fn lemma_counted_prefix(m: nat, n: nat, r1: Seq<char>, r2: Seq<char>)
    requires
        counted(m) + r1 == counted(n) + r2,
    ensures
        m == n,
        r1 == r2,
{
    reveal_strlit("_");
    lemma_decimal_digits(m);
    lemma_decimal_digits(n);
    let a = nat_decimal(m);
    let b = nat_decimal(n);
    assert(counted(m) + r1 =~= a + ("_"@ + r1));
    assert(counted(n) + r2 =~= b + ("_"@ + r2));
    assert(("_"@ + r1)[0] == '_');
    assert(("_"@ + r2)[0] == '_');
    if a.len() < b.len() {
        assert((a + ("_"@ + r1))[a.len() as int] == '_');
        assert((b + ("_"@ + r2))[a.len() as int] == b[a.len() as int]);
    } else if b.len() < a.len() {
        assert((b + ("_"@ + r2))[b.len() as int] == '_');
        assert((a + ("_"@ + r1))[b.len() as int] == a[b.len() as int]);
    }
    lemma_split(a, "_"@ + r1, b, "_"@ + r2);
    lemma_decimal_injective(m, n);
    lemma_split("_"@, r1, "_"@, r2);
}

/// A name preceded by its length is read back in one way.
pub(crate) proof fn lemma_name_prefix(s1: Seq<char>, s2: Seq<char>, r1: Seq<char>, r2: Seq<char>)
    requires
        name_code(s1) + r1 == name_code(s2) + r2,
    ensures
        s1 == s2,
        r1 == r2,
{
    assert(name_code(s1) + r1 =~= counted(s1.len()) + (s1 + r1));
    assert(name_code(s2) + r2 =~= counted(s2.len()) + (s2 + r2));
    lemma_counted_prefix(s1.len(), s2.len(), s1 + r1, s2 + r2);
    lemma_split(s1, r1, s2, r2);
}

proof fn lemma_chars_front(s: Seq<char>)
    requires
        s.len() > 0,
    ensures
        chars_code(s) == counted(s[0] as nat) + chars_code(s.drop_first()),
    decreases s.len(),
{
    if s.len() > 1 {
        lemma_chars_front(s.drop_last());
        assert(s.drop_last().drop_first() =~= s.drop_first().drop_last());
        assert(s.drop_first().last() == s.last());
        assert(chars_code(s) =~= counted(s[0] as nat) + chars_code(s.drop_first()));
    } else {
        assert(chars_code(s.drop_first()) == Seq::<char>::empty());
        assert(chars_code(s.drop_last()) == Seq::<char>::empty());
        assert(s.last() == s[0]);
        assert(chars_code(s) =~= counted(s[0] as nat) + chars_code(s.drop_first()));
    }
}

proof fn lemma_chars_prefix(s1: Seq<char>, s2: Seq<char>, r1: Seq<char>, r2: Seq<char>)
    requires
        s1.len() == s2.len(),
        chars_code(s1) + r1 == chars_code(s2) + r2,
    ensures
        s1 == s2,
        r1 == r2,
    decreases s1.len(),
{
    if s1.len() > 0 {
        lemma_chars_front(s1);
        lemma_chars_front(s2);
        assert(chars_code(s1) + r1 =~= counted(s1[0] as nat) + (chars_code(s1.drop_first()) + r1));
        assert(chars_code(s2) + r2 =~= counted(s2[0] as nat) + (chars_code(s2.drop_first()) + r2));
        lemma_counted_prefix(
            s1[0] as nat,
            s2[0] as nat,
            chars_code(s1.drop_first()) + r1,
            chars_code(s2.drop_first()) + r2,
        );
        lemma_code_point_injective(s1[0], s2[0]);
        lemma_chars_prefix(s1.drop_first(), s2.drop_first(), r1, r2);
        assert(s1 =~= seq![s1[0]] + s1.drop_first());
        assert(s2 =~= seq![s2[0]] + s2.drop_first());
    } else {
        assert(s1 =~= s2);
    }
}

/// Any text coded as its length and code points is read back in one way.
proof fn lemma_text_prefix(s1: Seq<char>, s2: Seq<char>, r1: Seq<char>, r2: Seq<char>)
    requires
        text_code(s1) + r1 == text_code(s2) + r2,
    ensures
        s1 == s2,
        r1 == r2,
{
    assert(text_code(s1) + r1 =~= counted(s1.len()) + (chars_code(s1) + r1));
    assert(text_code(s2) + r2 =~= counted(s2.len()) + (chars_code(s2) + r2));
    lemma_counted_prefix(s1.len(), s2.len(), chars_code(s1) + r1, chars_code(s2) + r2);
    lemma_chars_prefix(s1, s2, r1, r2);
}

/// The name part of a component's code.
pub open spec fn component_named(d: DefPathData) -> Seq<char> {
    match d {
        DefPathData::TypeNs(n) | DefPathData::ValueNs(n) | DefPathData::MacroNs(n)
        | DefPathData::LifetimeNs(n) => text_code(n@),
        _ => Seq::empty(),
    }
}

/// A path component's code is read back in one way.
proof fn lemma_component_prefix(
    c1: DisambiguatedDefPathData,
    c2: DisambiguatedDefPathData,
    r1: Seq<char>,
    r2: Seq<char>,
)
    requires
        component_code(c1) + r1 == component_code(c2) + r2,
    ensures
        component_same(c1, c2),
        r1 == r2,
{
    reveal_strlit("type");
    reveal_strlit("value");
    reveal_strlit("macro");
    reveal_strlit("lifetime");
    reveal_strlit("root");
    reveal_strlit("impl");
    reveal_strlit("Misc");
    reveal_strlit("closure");
    reveal_strlit("Ctor");
    reveal_strlit("anon");
    reveal_strlit("Impltrait");
    let w1 = component_word(c1.data);
    let w2 = component_word(c2.data);
    let x1 = component_named(c1.data) + (counted(c1.disambiguator as nat) + r1);
    let x2 = component_named(c2.data) + (counted(c2.disambiguator as nat) + r2);
    assert(component_code(c1) + r1 =~= w1 + x1);
    assert(component_code(c2) + r2 =~= w2 + x2);
    assert((w1 + x1)[0] == w1[0]);
    assert((w2 + x2)[0] == w2[0]);
    assert(w1 == w2);
    lemma_split(w1, x1, w2, x2);
    match (c1.data, c2.data) {
        (DefPathData::TypeNs(a), DefPathData::TypeNs(b)) | (DefPathData::ValueNs(a), DefPathData::ValueNs(b))
        | (DefPathData::MacroNs(a), DefPathData::MacroNs(b))
        | (DefPathData::LifetimeNs(a), DefPathData::LifetimeNs(b)) => {
            lemma_text_prefix(
                a@,
                b@,
                counted(c1.disambiguator as nat) + r1,
                counted(c2.disambiguator as nat) + r2,
            );
        },
        _ => {},
    }
    lemma_counted_prefix(c1.disambiguator as nat, c2.disambiguator as nat, r1, r2);
}

proof fn lemma_components_front(cs: Seq<DisambiguatedDefPathData>)
    requires
        cs.len() > 0,
    ensures
        components_code(cs) == component_code(cs[0]) + components_code(cs.drop_first()),
    decreases cs.len(),
{
    if cs.len() > 1 {
        lemma_components_front(cs.drop_last());
        assert(cs.drop_last().drop_first() =~= cs.drop_first().drop_last());
        assert(cs.drop_first().last() == cs.last());
        assert(components_code(cs) =~= component_code(cs[0]) + components_code(cs.drop_first()));
    } else {
        assert(components_code(cs.drop_first()) == Seq::<char>::empty());
        assert(components_code(cs.drop_last()) == Seq::<char>::empty());
        assert(cs.last() == cs[0]);
        assert(components_code(cs) =~= component_code(cs[0]) + components_code(cs.drop_first()));
    }
}

proof fn lemma_components_prefix(
    cs1: Seq<DisambiguatedDefPathData>,
    cs2: Seq<DisambiguatedDefPathData>,
    r1: Seq<char>,
    r2: Seq<char>,
)
    requires
        cs1.len() == cs2.len(),
        components_code(cs1) + r1 == components_code(cs2) + r2,
    ensures
        forall|i: int| 0 <= i < cs1.len() ==> component_same(#[trigger] cs1[i], cs2[i]),
        r1 == r2,
    decreases cs1.len(),
{
    if cs1.len() > 0 {
        lemma_components_front(cs1);
        lemma_components_front(cs2);
        assert(components_code(cs1) + r1 =~= component_code(cs1[0]) + (components_code(
            cs1.drop_first(),
        ) + r1));
        assert(components_code(cs2) + r2 =~= component_code(cs2[0]) + (components_code(
            cs2.drop_first(),
        ) + r2));
        lemma_component_prefix(
            cs1[0],
            cs2[0],
            components_code(cs1.drop_first()) + r1,
            components_code(cs2.drop_first()) + r2,
        );
        lemma_components_prefix(cs1.drop_first(), cs2.drop_first(), r1, r2);
        assert forall|i: int| 0 <= i < cs1.len() implies component_same(#[trigger] cs1[i], cs2[i]) by {
            if i > 0 {
                assert(cs1[i] == cs1.drop_first()[i - 1]);
                assert(cs2[i] == cs2.drop_first()[i - 1]);
            }
        }
    }
}

/// A definition's code is read back in one way.
proof fn lemma_path_prefix(d1: DefPath, d2: DefPath, r1: Seq<char>, r2: Seq<char>)
    requires
        path_code(d1) + r1 == path_code(d2) + r2,
    ensures
        path_same(d1, d2),
        r1 == r2,
{
    let c1 = counted(d1.data@.len()) + (components_code(d1.data@) + r1);
    let c2 = counted(d2.data@.len()) + (components_code(d2.data@) + r2);
    assert(path_code(d1) + r1 =~= text_code(d1.krate@) + c1);
    assert(path_code(d2) + r2 =~= text_code(d2.krate@) + c2);
    lemma_text_prefix(d1.krate@, d2.krate@, c1, c2);
    lemma_counted_prefix(
        d1.data@.len(),
        d2.data@.len(),
        components_code(d1.data@) + r1,
        components_code(d2.data@) + r2,
    );
    lemma_components_prefix(d1.data@, d2.data@, r1, r2);
}

/// The code of one generic argument.
pub open spec fn arg_code(g: GenericArg) -> Seq<char> {
    match g {
        GenericArg::Type(t) => "t"@ + mangled(t),
        GenericArg::Lifetime => "l"@,
        GenericArg::Const => "c"@,
    }
}

proof fn lemma_args_front(a: Seq<GenericArg>)
    requires
        a.len() > 0,
    ensures
        args_items(a) == arg_code(a[0]) + args_items(a.drop_first()),
    decreases a.len(),
{
    if a.len() > 1 {
        lemma_args_front(a.drop_last());
        assert(a.drop_last().drop_first() =~= a.drop_first().drop_last());
        assert(a.drop_first().last() == a.last());
        assert(args_items(a) =~= arg_code(a[0]) + args_items(a.drop_first()));
    } else {
        assert(args_items(a.drop_first()) == Seq::<char>::empty());
        assert(args_items(a.drop_last()) == Seq::<char>::empty());
        assert(a.last() == a[0]);
        assert(args_items(a) =~= arg_code(a[0]) + args_items(a.drop_first()));
    }
}

proof fn lemma_list_front(l: Seq<TyKind>)
    requires
        l.len() > 0,
    ensures
        list_items(l) == mangled(l[0]) + list_items(l.drop_first()),
    decreases l.len(),
{
    if l.len() > 1 {
        lemma_list_front(l.drop_last());
        assert(l.drop_last().drop_first() =~= l.drop_first().drop_last());
        assert(l.drop_first().last() == l.last());
        assert(list_items(l) =~= mangled(l[0]) + list_items(l.drop_first()));
    } else {
        assert(list_items(l.drop_first()) == Seq::<char>::empty());
        assert(list_items(l.drop_last()) == Seq::<char>::empty());
        assert(l.last() == l[0]);
        assert(list_items(l) =~= mangled(l[0]) + list_items(l.drop_first()));
    }
}

/// The first character of a type's mangling, which tells its kind.
pub open spec fn kind_char(ty: TyKind) -> char {
    match ty {
        TyKind::Bool => 'b',
        TyKind::Char => 'c',
        TyKind::Int(_) => 'i',
        TyKind::Uint(_) => 'u',
        TyKind::Float(_) => 'f',
        TyKind::Adt(..) => 'a',
        TyKind::Closure(..) => 'C',
        TyKind::Dynamic(..) => 'd',
        TyKind::Foreign(_) => 'e',
        TyKind::FnDef(..) => 'F',
        TyKind::Generator(..) => 'g',
        TyKind::GeneratorWitness(_) => 'w',
        TyKind::Opaque(..) => 'o',
        TyKind::Str => 's',
        TyKind::Array(..) => 'A',
        TyKind::Slice(_) => 'S',
        TyKind::RawPtr(..) => 'R',
        TyKind::Ref(..) => 'r',
        TyKind::FnPtr(..) => 'p',
        TyKind::Tuple(_) => 't',
        TyKind::Param(_) => 'G',
        TyKind::Projection(..) => 'P',
        TyKind::Never => 'n',
        TyKind::Bound(_) => 'B',
        TyKind::Placeholder(_) => 'h',
        TyKind::Infer(_) => 'I',
        TyKind::Error(_) => 'E',
    }
}

/// A mangling starts with the character of its type's kind.
pub(crate) proof fn lemma_mangled_first(ty: TyKind)
    ensures
        mangled(ty).len() > 0,
        mangled(ty)[0] == kind_char(ty),
{
    lemma_kind_words();
    let w = kind_word(ty);
    assert(mangled(ty) =~= w + mangled(ty).subrange(w.len() as int, mangled(ty).len() as int))
        by {
        lemma_kind_word_prefix(ty);
    }
}

/// The word that starts a type's mangling.
pub open spec fn kind_word(ty: TyKind) -> Seq<char> {
    match ty {
        TyKind::Bool => "bool"@,
        TyKind::Char => "char"@,
        TyKind::Int(_) => "i"@,
        TyKind::Uint(_) => "u"@,
        TyKind::Float(_) => "f"@,
        TyKind::Adt(..) => "adt"@,
        TyKind::Closure(..) => "Closure"@,
        TyKind::Dynamic(..) => "dyn"@,
        TyKind::Foreign(_) => "extern"@,
        TyKind::FnDef(..) => "Fndef"@,
        TyKind::Generator(..) => "generator"@,
        TyKind::GeneratorWitness(_) => "witness"@,
        TyKind::Opaque(..) => "opaque"@,
        TyKind::Str => "str"@,
        TyKind::Array(..) => "Array"@,
        TyKind::Slice(_) => "Slice"@,
        TyKind::RawPtr(..) => "Raw"@,
        TyKind::Ref(..) => "ref"@,
        TyKind::FnPtr(..) => "pfn"@,
        TyKind::Tuple(_) => "tuple"@,
        TyKind::Param(_) => "Generic"@,
        TyKind::Projection(..) => "Projection"@,
        TyKind::Never => "never"@,
        TyKind::Bound(_) => "Bound"@,
        TyKind::Placeholder(_) => "hole"@,
        TyKind::Infer(_) => "Infer"@,
        TyKind::Error(_) => "Error"@,
    }
}

/// The rest of a type's mangling after its word.
pub open spec fn kind_rest(ty: TyKind) -> Seq<char> {
    match ty {
        TyKind::Int(t) => int_width(t),
        TyKind::Uint(t) => uint_width(t),
        TyKind::Float(t) => float_width(t),
        TyKind::Adt(def, subs) | TyKind::Closure(def, subs) | TyKind::FnDef(def, subs)
        | TyKind::Generator(def, subs) | TyKind::Opaque(def, subs) => path_code(def) + counted(
            subs@.len(),
        ) + args_items(subs@),
        TyKind::Dynamic(principal, bounds) => principal_code(principal) + counted(bounds@.len())
            + list_items(bounds@),
        TyKind::Foreign(def) => path_code(def),
        TyKind::GeneratorWitness(tys) | TyKind::Tuple(tys) => counted(tys@.len()) + list_items(
            tys@,
        ),
        TyKind::Array(t, len) => mangled(*t) + text_code(len@),
        TyKind::Slice(t) => mangled(*t),
        TyKind::RawPtr(t, m) | TyKind::Ref(t, m) => mutability_word(m) + mangled(*t),
        TyKind::FnPtr(inputs, output) => counted(inputs@.len()) + list_items(inputs@) + mangled(
            *output,
        ),
        TyKind::Param(name) => text_code(name@),
        TyKind::Projection(self_ty, subs, item) => mangled(*self_ty) + counted(subs@.len())
            + args_items(subs@) + path_code(item),
        TyKind::Bound(text) | TyKind::Placeholder(text) | TyKind::Infer(text)
        | TyKind::Error(text) => text_code(text@),
        _ => Seq::empty(),
    }
}

/// A mangling is its kind's word followed by the rest.
proof fn lemma_kind_word_prefix(ty: TyKind)
    ensures
        mangled(ty) == kind_word(ty) + kind_rest(ty),
{
    let w = kind_word(ty);
    match ty {
        TyKind::Adt(def, subs) | TyKind::Closure(def, subs) | TyKind::FnDef(def, subs)
        | TyKind::Generator(def, subs) | TyKind::Opaque(def, subs) => {
            let p = path_code(def);
            let c = counted(subs@.len());
            let a = args_items(subs@);
            assert(mangled(ty) == w + p + c + a);
            assert(w + p + c + a =~= w + (p + c + a));
        },
        TyKind::Dynamic(principal, bounds) => {
            let p = principal_code(principal);
            let c = counted(bounds@.len());
            let l = list_items(bounds@);
            assert(mangled(ty) == w + p + c + l);
            assert(w + p + c + l =~= w + (p + c + l));
        },
        TyKind::GeneratorWitness(tys) | TyKind::Tuple(tys) => {
            assert(w + counted(tys@.len()) + list_items(tys@) =~= w + (counted(tys@.len())
                + list_items(tys@)));
        },
        TyKind::Array(t, len) => {
            assert(w + mangled(*t) + text_code(len@) =~= w + (mangled(*t) + text_code(len@)));
        },
        TyKind::RawPtr(t, m) | TyKind::Ref(t, m) => {
            assert(w + mutability_word(m) + mangled(*t) =~= w + (mutability_word(m) + mangled(
                *t,
            )));
        },
        TyKind::FnPtr(inputs, output) => {
            let c = counted(inputs@.len());
            let l = list_items(inputs@);
            let o = mangled(*output);
            assert(mangled(ty) == w + c + l + o);
            assert(w + c + l + o =~= w + (c + l + o));
        },
        TyKind::Projection(self_ty, subs, item) => {
            let m = mangled(*self_ty);
            let c = counted(subs@.len());
            let a = args_items(subs@);
            let p = path_code(item);
            assert(mangled(ty) == w + m + c + a + p);
            assert(w + m + c + a + p =~= w + (m + c + a + p));
        },
        TyKind::Bool | TyKind::Char | TyKind::Str | TyKind::Never => {
            assert(mangled(ty) =~= w + Seq::<char>::empty());
        },
        _ => {},
    }
}

/// The words of the kinds, spelled out.
proof fn lemma_kind_words()
    ensures
        "bool"@ =~= seq!['b', 'o', 'o', 'l'],
        "char"@ =~= seq!['c', 'h', 'a', 'r'],
        "i"@ =~= seq!['i'],
        "u"@ =~= seq!['u'],
        "f"@ =~= seq!['f'],
        "adt"@ =~= seq!['a', 'd', 't'],
        "Closure"@ =~= seq!['C', 'l', 'o', 's', 'u', 'r', 'e'],
        "dyn"@ =~= seq!['d', 'y', 'n'],
        "extern"@ =~= seq!['e', 'x', 't', 'e', 'r', 'n'],
        "Fndef"@ =~= seq!['F', 'n', 'd', 'e', 'f'],
        "generator"@ =~= seq!['g', 'e', 'n', 'e', 'r', 'a', 't', 'o', 'r'],
        "witness"@ =~= seq!['w', 'i', 't', 'n', 'e', 's', 's'],
        "opaque"@ =~= seq!['o', 'p', 'a', 'q', 'u', 'e'],
        "str"@ =~= seq!['s', 't', 'r'],
        "Array"@ =~= seq!['A', 'r', 'r', 'a', 'y'],
        "Slice"@ =~= seq!['S', 'l', 'i', 'c', 'e'],
        "Raw"@ =~= seq!['R', 'a', 'w'],
        "ref"@ =~= seq!['r', 'e', 'f'],
        "pfn"@ =~= seq!['p', 'f', 'n'],
        "tuple"@ =~= seq!['t', 'u', 'p', 'l', 'e'],
        "Generic"@ =~= seq!['G', 'e', 'n', 'e', 'r', 'i', 'c'],
        "Projection"@ =~= seq!['P', 'r', 'o', 'j', 'e', 'c', 't', 'i', 'o', 'n'],
        "never"@ =~= seq!['n', 'e', 'v', 'e', 'r'],
        "Bound"@ =~= seq!['B', 'o', 'u', 'n', 'd'],
        "hole"@ =~= seq!['h', 'o', 'l', 'e'],
        "Infer"@ =~= seq!['I', 'n', 'f', 'e', 'r'],
        "Error"@ =~= seq!['E', 'r', 'r', 'o', 'r'],
{
    reveal_strlit("bool");
    reveal_strlit("char");
    reveal_strlit("i");
    reveal_strlit("u");
    reveal_strlit("f");
    reveal_strlit("adt");
    reveal_strlit("Closure");
    reveal_strlit("dyn");
    reveal_strlit("extern");
    reveal_strlit("Fndef");
    reveal_strlit("generator");
    reveal_strlit("witness");
    reveal_strlit("opaque");
    reveal_strlit("str");
    reveal_strlit("Array");
    reveal_strlit("Slice");
    reveal_strlit("Raw");
    reveal_strlit("ref");
    reveal_strlit("pfn");
    reveal_strlit("tuple");
    reveal_strlit("Generic");
    reveal_strlit("Projection");
    reveal_strlit("never");
    reveal_strlit("Bound");
    reveal_strlit("hole");
    reveal_strlit("Infer");
    reveal_strlit("Error");
}

/// The width of a signed integer type is read back in one way.
proof fn lemma_int_width_prefix(a: IntTy, b: IntTy, r1: Seq<char>, r2: Seq<char>)
    requires
        int_width(a) + r1 == int_width(b) + r2,
    ensures
        a == b,
        r1 == r2,
{
    lemma_width_words();
    let (w1, w2) = (int_width(a), int_width(b));
    assert((w1 + r1)[0] == w1[0]);
    assert((w2 + r2)[0] == w2[0]);
    if w1.len() >= 2 && w2.len() >= 2 {
        assert((w1 + r1)[1] == w1[1]);
        assert((w2 + r2)[1] == w2[1]);
    }
    assert(a == b);
    lemma_split(w1, r1, w2, r2);
}

/// The width of an unsigned integer type is read back in one way.
proof fn lemma_uint_width_prefix(a: UintTy, b: UintTy, r1: Seq<char>, r2: Seq<char>)
    requires
        uint_width(a) + r1 == uint_width(b) + r2,
    ensures
        a == b,
        r1 == r2,
{
    lemma_width_words();
    let (w1, w2) = (uint_width(a), uint_width(b));
    assert((w1 + r1)[0] == w1[0]);
    assert((w2 + r2)[0] == w2[0]);
    if w1.len() >= 2 && w2.len() >= 2 {
        assert((w1 + r1)[1] == w1[1]);
        assert((w2 + r2)[1] == w2[1]);
    }
    assert(a == b);
    lemma_split(w1, r1, w2, r2);
}

/// The width of a floating-point type is read back in one way.
proof fn lemma_float_width_prefix(a: FloatTy, b: FloatTy, r1: Seq<char>, r2: Seq<char>)
    requires
        float_width(a) + r1 == float_width(b) + r2,
    ensures
        a == b,
        r1 == r2,
{
    lemma_width_words();
    let (w1, w2) = (float_width(a), float_width(b));
    assert((w1 + r1)[0] == w1[0]);
    assert((w2 + r2)[0] == w2[0]);
    assert(a == b);
    lemma_split(w1, r1, w2, r2);
}

/// A mutability's word is read back in one way.
proof fn lemma_mutability_prefix(a: Mutability, b: Mutability, r1: Seq<char>, r2: Seq<char>)
    requires
        mutability_word(a) + r1 == mutability_word(b) + r2,
    ensures
        a == b,
        r1 == r2,
{
    reveal_strlit("m");
    reveal_strlit("c");
    let (w1, w2) = (mutability_word(a), mutability_word(b));
    assert((w1 + r1)[0] == w1[0]);
    assert((w2 + r2)[0] == w2[0]);
    assert(a == b);
    lemma_split(w1, r1, w2, r2);
}

/// The words of the widths, spelled out.
proof fn lemma_width_words()
    ensures
        "size"@ =~= seq!['s', 'i', 'z', 'e'],
        "8"@ =~= seq!['8'],
        "16"@ =~= seq!['1', '6'],
        "32"@ =~= seq!['3', '2'],
        "64"@ =~= seq!['6', '4'],
        "128"@ =~= seq!['1', '2', '8'],
{
    reveal_strlit("size");
    reveal_strlit("8");
    reveal_strlit("16");
    reveal_strlit("32");
    reveal_strlit("64");
    reveal_strlit("128");
}

/// A definition and its counted generic arguments are read back in one way.
proof fn lemma_path_args_prefix(
    d1: DefPath,
    s1: Seq<GenericArg>,
    d2: DefPath,
    s2: Seq<GenericArg>,
    r1: Seq<char>,
    r2: Seq<char>,
)
    requires
        path_code(d1) + counted(s1.len()) + args_items(s1) + r1 == path_code(d2) + counted(
            s2.len(),
        ) + args_items(s2) + r2,
    ensures
        path_same(d1, d2),
        args_same(s1, s2),
        r1 == r2,
    decreases s1, 1nat,
{
    let x1 = counted(s1.len()) + (args_items(s1) + r1);
    let x2 = counted(s2.len()) + (args_items(s2) + r2);
    assert(path_code(d1) + counted(s1.len()) + args_items(s1) + r1 =~= path_code(d1) + x1);
    assert(path_code(d2) + counted(s2.len()) + args_items(s2) + r2 =~= path_code(d2) + x2);
    lemma_path_prefix(d1, d2, x1, x2);
    lemma_counted_prefix(s1.len(), s2.len(), args_items(s1) + r1, args_items(s2) + r2);
    lemma_args_prefix(s1, s2, r1, r2);
}

/// Counted types are read back in one way.
proof fn lemma_counted_list_prefix(l1: Seq<TyKind>, l2: Seq<TyKind>, r1: Seq<char>, r2: Seq<char>)
    requires
        counted(l1.len()) + list_items(l1) + r1 == counted(l2.len()) + list_items(l2) + r2,
    ensures
        list_same(l1, l2),
        r1 == r2,
    decreases l1, 1nat,
{
    assert(counted(l1.len()) + list_items(l1) + r1 =~= counted(l1.len()) + (list_items(l1) + r1));
    assert(counted(l2.len()) + list_items(l2) + r2 =~= counted(l2.len()) + (list_items(l2) + r2));
    lemma_counted_prefix(l1.len(), l2.len(), list_items(l1) + r1, list_items(l2) + r2);
    lemma_list_prefix(l1, l2, r1, r2);
}

/// Generic arguments, as many on both sides, are read back in one way.
proof fn lemma_args_prefix(a1: Seq<GenericArg>, a2: Seq<GenericArg>, r1: Seq<char>, r2: Seq<char>)
    requires
        a1.len() == a2.len(),
        args_items(a1) + r1 == args_items(a2) + r2,
    ensures
        args_same(a1, a2),
        r1 == r2,
    decreases a1, 0nat,
{
    reveal_strlit("t");
    reveal_strlit("l");
    reveal_strlit("c");
    if a1.len() > 0 {
        lemma_args_front(a1);
        lemma_args_front(a2);
        let x1 = args_items(a1.drop_first()) + r1;
        let x2 = args_items(a2.drop_first()) + r2;
        let (g1, g2) = (a1[0], a2[0]);
        assert(args_items(a1) + r1 =~= arg_code(g1) + x1);
        assert(args_items(a2) + r2 =~= arg_code(g2) + x2);
        assert((arg_code(g1) + x1)[0] == arg_code(g1)[0]);
        assert((arg_code(g2) + x2)[0] == arg_code(g2)[0]);
        match (g1, g2) {
            (GenericArg::Type(u1), GenericArg::Type(u2)) => {
                assert(arg_code(g1) + x1 =~= "t"@ + (mangled(u1) + x1));
                assert(arg_code(g2) + x2 =~= "t"@ + (mangled(u2) + x2));
                lemma_split("t"@, mangled(u1) + x1, "t"@, mangled(u2) + x2);
                lemma_mangled_prefix(u1, u2, x1, x2);
            },
            (GenericArg::Type(_), _) | (_, GenericArg::Type(_)) => {},
            _ => {
                lemma_split(arg_code(g1), x1, arg_code(g2), x2);
            },
        }
        lemma_args_prefix(a1.drop_first(), a2.drop_first(), r1, r2);
    } else {
        assert(args_items(a1) + r1 =~= r1);
        assert(args_items(a2) + r2 =~= r2);
    }
}

/// Types, as many on both sides, are read back in one way.
proof fn lemma_list_prefix(l1: Seq<TyKind>, l2: Seq<TyKind>, r1: Seq<char>, r2: Seq<char>)
    requires
        l1.len() == l2.len(),
        list_items(l1) + r1 == list_items(l2) + r2,
    ensures
        list_same(l1, l2),
        r1 == r2,
    decreases l1, 0nat,
{
    if l1.len() > 0 {
        lemma_list_front(l1);
        lemma_list_front(l2);
        let x1 = list_items(l1.drop_first()) + r1;
        let x2 = list_items(l2.drop_first()) + r2;
        assert(list_items(l1) + r1 =~= mangled(l1[0]) + x1);
        assert(list_items(l2) + r2 =~= mangled(l2[0]) + x2);
        lemma_mangled_prefix(l1[0], l2[0], x1, x2);
        lemma_list_prefix(l1.drop_first(), l2.drop_first(), r1, r2);
    } else {
        assert(list_items(l1) + r1 =~= r1);
        assert(list_items(l2) + r2 =~= r2);
    }
}

/// Types whose manglings start with the same character have the same word.
proof fn lemma_kind_same(t1: TyKind, t2: TyKind)
    requires
        kind_char(t1) == kind_char(t2),
    ensures
        kind_word(t1) == kind_word(t2),
{
}

/// A type's mangling is read back in one way: what follows it is the same
/// on both sides, and the types are the same.
#[verifier::spinoff_prover]
#[verifier::rlimit(60)]
pub(crate) proof fn lemma_mangled_prefix(t1: TyKind, t2: TyKind, r1: Seq<char>, r2: Seq<char>)
    requires
        mangled(t1) + r1 == mangled(t2) + r2,
    ensures
        ty_same(t1, t2),
        r1 == r2,
    decreases t1, 2nat,
{
    lemma_kind_word_prefix(t1);
    lemma_kind_word_prefix(t2);
    lemma_mangled_first(t1);
    lemma_mangled_first(t2);
    assert((mangled(t1) + r1)[0] == mangled(t1)[0]);
    assert((mangled(t2) + r2)[0] == mangled(t2)[0]);
    lemma_kind_same(t1, t2);
    let (w1, w2) = (kind_word(t1), kind_word(t2));
    let (x1, x2) = (kind_rest(t1) + r1, kind_rest(t2) + r2);
    assert(mangled(t1) + r1 =~= w1 + x1);
    assert(mangled(t2) + r2 =~= w2 + x2);
    lemma_split(w1, x1, w2, x2);
    lemma_rest_prefix(t1, t2, r1, r2);
}

/// What follows the words of two types of one kind is read back in one way.
#[verifier::spinoff_prover]
#[verifier::rlimit(60)]
proof fn lemma_rest_prefix(t1: TyKind, t2: TyKind, r1: Seq<char>, r2: Seq<char>)
    requires
        kind_char(t1) == kind_char(t2),
        kind_rest(t1) + r1 == kind_rest(t2) + r2,
    ensures
        ty_same(t1, t2),
        r1 == r2,
    decreases t1, 1nat,
{
    let (x1, x2) = (kind_rest(t1) + r1, kind_rest(t2) + r2);
    match (t1, t2) {
        (TyKind::Int(a), TyKind::Int(b)) => lemma_int_width_prefix(a, b, r1, r2),
        (TyKind::Uint(a), TyKind::Uint(b)) => lemma_uint_width_prefix(a, b, r1, r2),
        (TyKind::Float(a), TyKind::Float(b)) => lemma_float_width_prefix(a, b, r1, r2),
        (TyKind::Adt(d1, s1), TyKind::Adt(d2, s2)) => lemma_path_args_prefix(d1, s1@, d2, s2@, r1, r2),
        (TyKind::Closure(d1, s1), TyKind::Closure(d2, s2)) => lemma_path_args_prefix(
            d1,
            s1@,
            d2,
            s2@,
            r1,
            r2,
        ),
        (TyKind::FnDef(d1, s1), TyKind::FnDef(d2, s2)) => lemma_path_args_prefix(d1, s1@, d2, s2@, r1, r2),
        (TyKind::Generator(d1, s1), TyKind::Generator(d2, s2)) => lemma_path_args_prefix(
            d1,
            s1@,
            d2,
            s2@,
            r1,
            r2,
        ),
        (TyKind::Opaque(d1, s1), TyKind::Opaque(d2, s2)) => lemma_path_args_prefix(d1, s1@, d2, s2@, r1, r2),
        (TyKind::Dynamic(p1, b1), TyKind::Dynamic(p2, b2)) => {
            let y1 = counted(b1@.len()) + list_items(b1@) + r1;
            let y2 = counted(b2@.len()) + list_items(b2@) + r2;
            assert(x1 =~= principal_code(p1) + y1);
            assert(x2 =~= principal_code(p2) + y2);
            lemma_dynamic_prefix(p1, p2, y1, y2);
            lemma_counted_list_prefix(b1@, b2@, r1, r2);
        },
        (TyKind::Foreign(d1), TyKind::Foreign(d2)) => lemma_path_prefix(d1, d2, r1, r2),
        (TyKind::GeneratorWitness(l1), TyKind::GeneratorWitness(l2)) => lemma_counted_list_prefix(
            l1@,
            l2@,
            r1,
            r2,
        ),
        (TyKind::Tuple(l1), TyKind::Tuple(l2)) => lemma_counted_list_prefix(l1@, l2@, r1, r2),
        (TyKind::Array(a, n1), TyKind::Array(b, n2)) => {
            assert(x1 =~= mangled(*a) + (text_code(n1@) + r1));
            assert(x2 =~= mangled(*b) + (text_code(n2@) + r2));
            lemma_mangled_prefix(*a, *b, text_code(n1@) + r1, text_code(n2@) + r2);
            lemma_text_prefix(n1@, n2@, r1, r2);
        },
        (TyKind::Slice(a), TyKind::Slice(b)) => lemma_mangled_prefix(*a, *b, r1, r2),
        (TyKind::RawPtr(a, m1), TyKind::RawPtr(b, m2)) => {
            assert(x1 =~= mutability_word(m1) + (mangled(*a) + r1));
            assert(x2 =~= mutability_word(m2) + (mangled(*b) + r2));
            lemma_mutability_prefix(m1, m2, mangled(*a) + r1, mangled(*b) + r2);
            lemma_mangled_prefix(*a, *b, r1, r2);
        },
        (TyKind::Ref(a, m1), TyKind::Ref(b, m2)) => {
            assert(x1 =~= mutability_word(m1) + (mangled(*a) + r1));
            assert(x2 =~= mutability_word(m2) + (mangled(*b) + r2));
            lemma_mutability_prefix(m1, m2, mangled(*a) + r1, mangled(*b) + r2);
            lemma_mangled_prefix(*a, *b, r1, r2);
        },
        (TyKind::FnPtr(i1, o1), TyKind::FnPtr(i2, o2)) => {
            let c1 = counted(i1@.len()) + list_items(i1@);
            let c2 = counted(i2@.len()) + list_items(i2@);
            assert(x1 =~= c1 + (mangled(*o1) + r1));
            assert(x2 =~= c2 + (mangled(*o2) + r2));
            lemma_counted_list_prefix(i1@, i2@, mangled(*o1) + r1, mangled(*o2) + r2);
            lemma_mangled_prefix(*o1, *o2, r1, r2);
        },
        (TyKind::Param(a), TyKind::Param(b)) => lemma_text_prefix(a@, b@, r1, r2),
        (TyKind::Projection(a, s1, d1), TyKind::Projection(b, s2, d2)) => {
            let y1 = counted(s1@.len()) + (args_items(s1@) + (path_code(d1) + r1));
            let y2 = counted(s2@.len()) + (args_items(s2@) + (path_code(d2) + r2));
            assert(x1 =~= mangled(*a) + y1);
            assert(x2 =~= mangled(*b) + y2);
            lemma_mangled_prefix(*a, *b, y1, y2);
            lemma_counted_prefix(
                s1@.len(),
                s2@.len(),
                args_items(s1@) + (path_code(d1) + r1),
                args_items(s2@) + (path_code(d2) + r2),
            );
            lemma_args_prefix(s1@, s2@, path_code(d1) + r1, path_code(d2) + r2);
            lemma_path_prefix(d1, d2, r1, r2);
        },
        (TyKind::Bound(a), TyKind::Bound(b)) => lemma_text_prefix(a@, b@, r1, r2),
        (TyKind::Placeholder(a), TyKind::Placeholder(b)) => lemma_text_prefix(a@, b@, r1, r2),
        (TyKind::Infer(a), TyKind::Infer(b)) => lemma_text_prefix(a@, b@, r1, r2),
        (TyKind::Error(a), TyKind::Error(b)) => lemma_text_prefix(a@, b@, r1, r2),
        _ => {
            assert(x1 =~= r1);
            assert(x2 =~= r2);
        },
    }
}

/// A trait object's principal is read back in one way.
proof fn lemma_dynamic_prefix(
    p1: Option<(DefPath, Vec<GenericArg>)>,
    p2: Option<(DefPath, Vec<GenericArg>)>,
    r1: Seq<char>,
    r2: Seq<char>,
)
    requires
        principal_code(p1) + r1 == principal_code(p2) + r2,
    ensures
        principal_same(p1, p2),
        r1 == r2,
    decreases p1, 1nat,
{
    reveal_strlit("s");
    reveal_strlit("n");
    let x1 = principal_code(p1) + r1;
    let x2 = principal_code(p2) + r2;
    match (p1, p2) {
        (Some((d1, s1)), Some((d2, s2))) => {
            let y1 = path_code(d1) + counted(s1@.len()) + args_items(s1@) + r1;
            let y2 = path_code(d2) + counted(s2@.len()) + args_items(s2@) + r2;
            assert(x1 =~= "s"@ + y1);
            assert(x2 =~= "s"@ + y2);
            lemma_split("s"@, y1, "s"@, y2);
            lemma_path_args_prefix(d1, s1@, d2, s2@, r1, r2);
        },
        (None, None) => lemma_split("n"@, r1, "n"@, r2),
        (Some((d1, s1)), None) => {
            assert(x1 =~= "s"@ + (path_code(d1) + counted(s1@.len()) + args_items(s1@) + r1));
            assert(x1[0] == 's');
            assert(x2[0] == 'n');
        },
        (None, Some((d2, s2))) => {
            assert(x2 =~= "s"@ + (path_code(d2) + counted(s2@.len()) + args_items(s2@) + r2));
            assert(x1[0] == 'n');
            assert(x2[0] == 's');
        },
    }
}

/// Types with the same mangling are the same type: the mangling tells every
/// type apart, up to the names, texts, widths and mutabilities it is made of.
pub proof fn law_mangled_is_unique(t1: TyKind, t2: TyKind)
    requires
        mangled(t1) == mangled(t2),
    ensures
        ty_same(t1, t2),
{
    assert(mangled(t1) + Seq::<char>::empty() =~= mangled(t2) + Seq::<char>::empty());
    lemma_mangled_prefix(t1, t2, Seq::empty(), Seq::empty());
}

} // verus!
