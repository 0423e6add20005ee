//! Names for definitions and types: keys of the summary store, and type
//! manglings that are valid identifiers.
//!
//! Definitions and types are given here as plain values: a definition by the
//! name of its crate and its path of disambiguated components, a type by its
//! kind and the definitions and types it is built from.

use std::rc::Rc;
use vstd::prelude::*;

use super::mangling::{
    args_items, chars_code, component_code, component_word, components_code, counted,
    list_items, mangled, name_code, path_code, principal_code, text_code,
};
use crate::text::{nat_decimal, push_decimal};

verus! {

// ---------------------------------------------------------------------------
// Definitions and types as plain values
// ---------------------------------------------------------------------------

/// The kinds of path component that a name is given for.
pub enum DefPathData {
    CrateRoot,
    Misc,
    Impl,
    TypeNs(String),
    ValueNs(String),
    MacroNs(String),
    LifetimeNs(String),
    ClosureExpr,
    Ctor,
    AnonConst,
    ImplTrait,
}

/// A path component with the disambiguator that tells apart components of
/// the same name.
pub struct DisambiguatedDefPathData {
    pub data: DefPathData,
    pub disambiguator: u32,
}

/// A definition: the name of its crate and the components of its path.
pub struct DefPath {
    pub krate: String,
    pub data: Vec<DisambiguatedDefPathData>,
}

/// What a summary key reads of the parent of a definition: the name of the
/// parent's crate and, where the key reads it (see
/// `summary_key_reads_parent_type`), the parent's type.
pub struct ParentDef {
    pub krate: String,
    pub ty: Option<TyKind>,
}

pub enum IntTy {
    Isize,
    I8,
    I16,
    I32,
    I64,
    I128,
}

pub enum UintTy {
    Usize,
    U8,
    U16,
    U32,
    U64,
    U128,
}

pub enum FloatTy {
    F32,
    F64,
}

pub enum Mutability {
    Mut,
    Not,
}

/// A generic argument: a type, a lifetime or a constant.
pub enum GenericArg {
    Type(TyKind),
    Lifetime,
    Const,
}

/// The kind of a type. `Bound`, `Placeholder`, `Infer` and `Error` hold the
/// debug rendering of the type, which is all that is read of them.
pub enum TyKind {
    Bool,
    Char,
    Int(IntTy),
    Uint(UintTy),
    Float(FloatTy),
    Adt(DefPath, Vec<GenericArg>),
    Closure(DefPath, Vec<GenericArg>),
    /// A trait object: its principal trait with the trait's arguments, and
    /// the types that its associated type bounds (`Item = T`) name.
    Dynamic(Option<(DefPath, Vec<GenericArg>)>, Vec<TyKind>),
    Foreign(DefPath),
    FnDef(DefPath, Vec<GenericArg>),
    Generator(DefPath, Vec<GenericArg>),
    GeneratorWitness(Vec<TyKind>),
    Opaque(DefPath, Vec<GenericArg>),
    Str,
    /// An array: its element type and the rendering of its length.
    Array(Box<TyKind>, String),
    Slice(Box<TyKind>),
    RawPtr(Box<TyKind>, Mutability),
    Ref(Box<TyKind>, Mutability),
    /// A function pointer: its input types and its output type.
    FnPtr(Vec<TyKind>, Box<TyKind>),
    Tuple(Vec<TyKind>),
    Param(String),
    /// An associated type projection: the self type, the other arguments of
    /// the projection, and the associated item.
    Projection(Box<TyKind>, Vec<GenericArg>, DefPath),
    Never,
    Bound(String),
    Placeholder(String),
    Infer(String),
    Error(String),
}


// ---------------------------------------------------------------------------
// Concreteness
// ---------------------------------------------------------------------------

/// A type is concrete when no type parameter, bound or inference variable,
/// or error type occurs anywhere in it.
pub open spec fn concrete(ty: TyKind) -> bool
    decreases ty,
{
    match ty {
        TyKind::Bound(_) | TyKind::Param(_) | TyKind::Infer(_) | TyKind::Error(_) => false,
        TyKind::Adt(_, args) | TyKind::Closure(_, args) | TyKind::FnDef(_, args)
        | TyKind::Generator(_, args) | TyKind::Opaque(_, args) => args_concrete(args@),
        TyKind::Dynamic(principal, bounds) => tys_concrete(bounds@) && match principal {
            Some((_, args)) => args_concrete(args@),
            None => true,
        },
        TyKind::Projection(self_ty, args, _) => concrete(*self_ty) && args_concrete(args@),
        TyKind::Tuple(tys) | TyKind::GeneratorWitness(tys) => tys_concrete(tys@),
        TyKind::Array(t, _) | TyKind::Slice(t) | TyKind::RawPtr(t, _) | TyKind::Ref(t, _) => concrete(
            *t,
        ),
        TyKind::FnPtr(inputs, output) => tys_concrete(inputs@) && concrete(*output),
        _ => true,
    }
}

/// Every type argument is concrete.
pub open spec fn args_concrete(args: Seq<GenericArg>) -> bool
    decreases args,
{
    if args.len() == 0 {
        true
    } else {
        args_concrete(args.drop_last()) && match args.last() {
            GenericArg::Type(t) => concrete(t),
            _ => true,
        }
    }
}

/// Every type is concrete.
pub open spec fn tys_concrete(tys: Seq<TyKind>) -> bool
    decreases tys,
{
    if tys.len() == 0 {
        true
    } else {
        tys_concrete(tys.drop_last()) && concrete(tys.last())
    }
}

/// Returns false if any of the generic arguments are themselves generic
pub fn are_concrete(gen_args: &Vec<GenericArg>) -> (r: bool)
    ensures
        r == args_concrete(gen_args@),
    decreases gen_args,
{
    let n = gen_args.len();
    for i in 0..n
        invariant
            n == gen_args@.len(),
            args_concrete(gen_args@.take(i as int)),
    {
        assert(gen_args@.take(i + 1).drop_last() =~= gen_args@.take(i as int));
        if let GenericArg::Type(ty) = &gen_args[i] {
            assert(decreases_to!(gen_args => gen_args@[i as int]));
            if !is_concrete(ty) {
                proof {
                    if args_concrete(gen_args@) {
                        lemma_args_concrete_prefix(gen_args@, i as int + 1);
                    }
                }
                return false;
            }
        }
    }
    assert(gen_args@.take(n as int) =~= gen_args@);
    true
}

/// Determines if the given type is fully concrete.
pub fn is_concrete(ty: &TyKind) -> (r: bool)
    ensures
        r == concrete(*ty),
    decreases ty,
{
    match ty {
        TyKind::Bound(..) | TyKind::Param(..) | TyKind::Infer(..) | TyKind::Error(..) => false,
        TyKind::Adt(_, gen_args) | TyKind::Closure(_, gen_args) | TyKind::FnDef(_, gen_args)
        | TyKind::Generator(_, gen_args) | TyKind::Opaque(_, gen_args) => are_concrete(gen_args),
        TyKind::Dynamic(principal, bounds) => {
            let principal_concrete = match principal {
                Some((_, gen_args)) => are_concrete(gen_args),
                None => true,
            };
            principal_concrete && all_concrete(bounds)
        },
        TyKind::Projection(self_ty, gen_args, _) => is_concrete(self_ty) && are_concrete(gen_args),
        TyKind::Tuple(tys) | TyKind::GeneratorWitness(tys) => all_concrete(tys),
        TyKind::Array(t, _) | TyKind::Slice(t) | TyKind::RawPtr(t, _) | TyKind::Ref(t, _) => is_concrete(t),
        TyKind::FnPtr(inputs, output) => all_concrete(inputs) && is_concrete(output),
        _ => true,
    }
}

/// Whether every type of a list is concrete.
fn all_concrete(tys: &Vec<TyKind>) -> (r: bool)
    ensures
        r == tys_concrete(tys@),
    decreases tys,
{
    let n = tys.len();
    for i in 0..n
        invariant
            n == tys@.len(),
            tys_concrete(tys@.take(i as int)),
    {
        assert(tys@.take(i + 1).drop_last() =~= tys@.take(i as int));
        assert(decreases_to!(tys => tys@[i as int]));
        if !is_concrete(&tys[i]) {
            proof {
                if tys_concrete(tys@) {
                    lemma_tys_concrete_prefix(tys@, i as int + 1);
                }
            }
            return false;
        }
    }
    assert(tys@.take(n as int) =~= tys@);
    true
}

/// A sequence of arguments is concrete only if each of its prefixes is.
proof fn lemma_args_concrete_prefix(args: Seq<GenericArg>, k: int)
    requires
        0 <= k <= args.len(),
        args_concrete(args),
    ensures
        args_concrete(args.take(k)),
    decreases args.len(),
{
    if k < args.len() {
        assert(args.drop_last().take(k) =~= args.take(k));
        lemma_args_concrete_prefix(args.drop_last(), k);
    } else {
        assert(args.take(k) =~= args);
    }
}

/// A sequence of types is concrete only if each of its prefixes is.
proof fn lemma_tys_concrete_prefix(tys: Seq<TyKind>, k: int)
    requires
        0 <= k <= tys.len(),
        tys_concrete(tys),
    ensures
        tys_concrete(tys.take(k)),
    decreases tys.len(),
{
    if k < tys.len() {
        assert(tys.drop_last().take(k) =~= tys.take(k));
        lemma_tys_concrete_prefix(tys.drop_last(), k);
    } else {
        assert(tys.take(k) =~= tys);
    }
}


// ---------------------------------------------------------------------------
// Names of definitions
// ---------------------------------------------------------------------------

/// What a path component puts in a summary key before its disambiguation.
/// A name in the type namespace is written as its length, `_` and the name,
/// as the crate's name is, so that a module of a crate whose name ends with
/// `foreign_contracts` is keyed like the crate it stands for. Any other
/// component is written as the word of its kind (each word starts with its
/// own letter), then its name, if it has one, written the same way.
pub open spec fn component_name(d: DefPathData) -> Seq<char> {
    match d {
        DefPathData::TypeNs(n) => name_code(n@),
        DefPathData::ValueNs(n) | DefPathData::MacroNs(n) | DefPathData::LifetimeNs(n) => component_word(
            d,
        ) + name_code(n@),
        _ => component_word(d),
    }
}

fn push_component_name(component_data: &DefPathData, target: &mut String)
    ensures
        final(target)@ == old(target)@ + component_name(*component_data),
{
    let ghost start = target@;
    match component_data {
        DefPathData::TypeNs(name) => push_name(target, name.as_str()),
        DefPathData::ValueNs(name) => {
            target.append("value");
            push_name(target, name.as_str());
        },
        DefPathData::MacroNs(name) => {
            target.append("macro");
            push_name(target, name.as_str());
        },
        DefPathData::LifetimeNs(name) => {
            target.append("lifetime");
            push_name(target, name.as_str());
        },
        DefPathData::CrateRoot => target.append("root"),
        DefPathData::Impl => target.append("impl"),
        DefPathData::Misc => target.append("Misc"),
        DefPathData::ClosureExpr => target.append("closure"),
        DefPathData::Ctor => target.append("Ctor"),
        DefPathData::AnonConst => target.append("anon"),
        DefPathData::ImplTrait => target.append("Impltrait"),
    };
    assert(target@ =~= start + component_name(*component_data));
}

/// Constructs a name for the crate that contains the given def_id.
fn crate_name(def_id: &DefPath) -> (r: String)
    ensures
        r@ == def_id.krate@,
{
    def_id.krate.clone()
}

/// Appends a number followed by `_`.
fn push_counted(s: &mut String, n: u64)
    ensures
        final(s)@ == old(s)@ + counted(n as nat),
{
    push_decimal(s, n);
    s.append("_");
}

/// Appends a name preceded by its length.
fn push_name(s: &mut String, name: &str)
    ensures
        final(s)@ == old(s)@ + name_code(name@),
{
    let len = name.unicode_len();
    push_counted(s, len as u64);
    s.append(name);
}

/// Appends a text as its length and its code points.
fn push_text(s: &mut String, text: &str)
    ensures
        final(s)@ == old(s)@ + text_code(text@),
{
    let ghost start = s@;
    let len = text.unicode_len();
    push_counted(s, len as u64);
    assert(text@.take(0) =~= Seq::<char>::empty());
    for i in 0..len
        invariant
            len == text@.len(),
            s@ == start + counted(len as nat) + chars_code(text@.take(i as int)),
    {
        let c = text.get_char(i);
        assert(text@.take(i + 1).drop_last() =~= text@.take(i as int));
        push_counted(s, c as u64);
        assert(s@ == start + counted(len as nat) + chars_code(text@.take(i + 1)));
    }
    assert(text@.take(len as int) =~= text@);
}

/// Appends a path component: the word of its kind, its name if it has one,
/// and its disambiguator.
fn push_component(s: &mut String, component: &DisambiguatedDefPathData)
    ensures
        final(s)@ == old(s)@ + component_code(*component),
{
    let ghost start = s@;
    match &component.data {
        DefPathData::TypeNs(name) => {
            s.append("type");
            push_text(s, name.as_str());
        },
        DefPathData::ValueNs(name) => {
            s.append("value");
            push_text(s, name.as_str());
        },
        DefPathData::MacroNs(name) => {
            s.append("macro");
            push_text(s, name.as_str());
        },
        DefPathData::LifetimeNs(name) => {
            s.append("lifetime");
            push_text(s, name.as_str());
        },
        DefPathData::CrateRoot => s.append("root"),
        DefPathData::Impl => s.append("impl"),
        DefPathData::Misc => s.append("Misc"),
        DefPathData::ClosureExpr => s.append("closure"),
        DefPathData::Ctor => s.append("Ctor"),
        DefPathData::AnonConst => s.append("anon"),
        DefPathData::ImplTrait => s.append("Impltrait"),
    }
    push_counted(s, component.disambiguator as u64);
    assert(s@ =~= start + component_code(*component));
}

/// The code of a definition inside a mangling: like its summary key, made of
/// its crate's name and its components, but of identifier characters only,
/// with every name preceded by its length and the components by their count,
/// so that it can be read back in one way.
fn qualified_type_name(def_id: &DefPath) -> (r: String)
    ensures
        r@ == path_code(*def_id),
{
    let mut name = String::new();
    let krate = crate_name(def_id);
    push_text(&mut name, krate.as_str());
    let n = def_id.data.len();
    push_counted(&mut name, n as u64);
    let ghost start = name@;
    assert(def_id.data@.take(0) =~= Seq::<DisambiguatedDefPathData>::empty());
    for i in 0..n
        invariant
            n == def_id.data@.len(),
            name@ == start + components_code(def_id.data@.take(i as int)),
    {
        assert(def_id.data@.take(i + 1).drop_last() =~= def_id.data@.take(i as int));
        push_component(&mut name, &def_id.data[i]);
        assert(name@ =~= start + components_code(def_id.data@.take(i + 1)));
    }
    assert(def_id.data@.take(n as int) =~= def_id.data@);
    assert(name@ =~= path_code(*def_id));
    name
}

// ---------------------------------------------------------------------------
// Type mangling
// ---------------------------------------------------------------------------

/// Appends the number of generic arguments and each argument: `t` and its
/// type's mangling, `l` for a lifetime, `c` for a constant.
fn append_mangled_args(str: &mut String, args: &Vec<GenericArg>)
    ensures
        final(str)@ == old(str)@ + counted(args@.len()) + args_items(args@),
    decreases args,
{
    let n = args.len();
    push_counted(str, n as u64);
    let ghost start = str@;
    assert(args@.take(0) =~= Seq::<GenericArg>::empty());
    for i in 0..n
        invariant
            n == args@.len(),
            str@ == start + args_items(args@.take(i as int)),
    {
        assert(args@.take(i + 1).drop_last() =~= args@.take(i as int));
        match &args[i] {
            GenericArg::Type(ty) => {
                assert(decreases_to!(args => args@[i as int]));
                str.append("t");
                append_mangled_type(str, ty);
            },
            GenericArg::Lifetime => str.append("l"),
            GenericArg::Const => str.append("c"),
        }
        assert(str@ =~= start + args_items(args@.take(i + 1)));
    }
    assert(args@.take(n as int) =~= args@);
    assert(str@ =~= old(str)@ + counted(args@.len()) + args_items(args@));
}

/// Appends the number of types and the mangling of each.
fn append_mangled_list(str: &mut String, tys: &Vec<TyKind>)
    ensures
        final(str)@ == old(str)@ + counted(tys@.len()) + list_items(tys@),
    decreases tys,
{
    let n = tys.len();
    push_counted(str, n as u64);
    let ghost start = str@;
    assert(tys@.take(0) =~= Seq::<TyKind>::empty());
    for i in 0..n
        invariant
            n == tys@.len(),
            str@ == start + list_items(tys@.take(i as int)),
    {
        assert(tys@.take(i + 1).drop_last() =~= tys@.take(i as int));
        assert(decreases_to!(tys => tys@[i as int]));
        append_mangled_type(str, &tys[i]);
        assert(str@ =~= start + list_items(tys@.take(i + 1)));
    }
    assert(tys@.take(n as int) =~= tys@);
    assert(str@ =~= old(str)@ + counted(tys@.len()) + list_items(tys@));
}

/// Appends a string to str with the constraint that it must uniquely identify ty and also
/// be a valid identifier (so that core library contracts can be written for type specialized
/// generic trait methods).
#[verifier::spinoff_prover]
#[verifier::rlimit(50)]
fn append_mangled_type(str: &mut String, ty: &TyKind)
    ensures
        final(str)@ == old(str)@ + mangled(*ty),
    decreases ty,
{
    let ghost start = str@;
    let ghost whole = *ty;
    match ty {
        TyKind::Bool => {
            str.append("bool");
            assert(str@ =~= start + mangled(whole));
        },
        TyKind::Char => {
            str.append("char");
            assert(str@ =~= start + mangled(whole));
        },
        TyKind::Int(int_ty) => {
            str.append("i");
            str.append(
                match int_ty {
                    IntTy::Isize => "size",
                    IntTy::I8 => "8",
                    IntTy::I16 => "16",
                    IntTy::I32 => "32",
                    IntTy::I64 => "64",
                    IntTy::I128 => "128",
                },
            );
            assert(str@ =~= start + mangled(whole));
        },
        TyKind::Uint(uint_ty) => {
            str.append("u");
            str.append(
                match uint_ty {
                    UintTy::Usize => "size",
                    UintTy::U8 => "8",
                    UintTy::U16 => "16",
                    UintTy::U32 => "32",
                    UintTy::U64 => "64",
                    UintTy::U128 => "128",
                },
            );
            assert(str@ =~= start + mangled(whole));
        },
        TyKind::Float(float_ty) => {
            str.append("f");
            str.append(
                match float_ty {
                    FloatTy::F32 => "32",
                    FloatTy::F64 => "64",
                },
            );
            assert(str@ =~= start + mangled(whole));
        },
        TyKind::Str => {
            str.append("str");
            assert(str@ =~= start + mangled(whole));
        },
        TyKind::Never => {
            str.append("never");
            assert(str@ =~= start + mangled(whole));
        },
        TyKind::Adt(def, subs) => {
            str.append("adt");
            str.append(qualified_type_name(def).as_str());
            append_mangled_args(str, subs);
            assert(str@ =~= start + mangled(whole));
        },
        TyKind::Closure(def_id, subs) => {
            str.append("Closure");
            str.append(qualified_type_name(def_id).as_str());
            append_mangled_args(str, subs);
            assert(str@ =~= start + mangled(whole));
        },
        TyKind::Dynamic(principal, bounds) => {
            str.append("dyn");
            match principal {
                Some((def_id, subs)) => {
                    str.append("s");
                    str.append(qualified_type_name(def_id).as_str());
                    append_mangled_args(str, subs);
                },
                None => str.append("n"),
            }
            let ghost with_principal = str@;
            assert(with_principal =~= start + "dyn"@ + principal_code(*principal));
            append_mangled_list(str, bounds);
            assert(str@ =~= start + mangled(whole));
        },
        TyKind::Foreign(def_id) => {
            str.append("extern");
            str.append(qualified_type_name(def_id).as_str());
            assert(str@ =~= start + mangled(whole));
        },
        TyKind::FnDef(def_id, subs) => {
            str.append("Fndef");
            str.append(qualified_type_name(def_id).as_str());
            append_mangled_args(str, subs);
            assert(str@ =~= start + mangled(whole));
        },
        TyKind::Generator(def_id, subs) => {
            str.append("generator");
            str.append(qualified_type_name(def_id).as_str());
            append_mangled_args(str, subs);
            assert(str@ =~= start + mangled(whole));
        },
        TyKind::GeneratorWitness(tys) => {
            str.append("witness");
            append_mangled_list(str, tys);
            assert(str@ =~= start + mangled(whole));
        },
        TyKind::Opaque(def_id, subs) => {
            str.append("opaque");
            str.append(qualified_type_name(def_id).as_str());
            append_mangled_args(str, subs);
            assert(str@ =~= start + mangled(whole));
        },
        TyKind::Array(ty, len) => {
            str.append("Array");
            append_mangled_type(str, ty);
            push_text(str, len.as_str());
            assert(str@ =~= start + mangled(whole));
        },
        TyKind::Slice(ty) => {
            str.append("Slice");
            append_mangled_type(str, ty);
            assert(str@ =~= start + mangled(whole));
        },
        TyKind::RawPtr(ty, mutbl) => {
            str.append("Raw");
            match mutbl {
                Mutability::Mut => str.append("m"),
                Mutability::Not => str.append("c"),
            }
            append_mangled_type(str, ty);
            assert(str@ =~= start + mangled(whole));
        },
        TyKind::Ref(ty, mutability) => {
            str.append("ref");
            match mutability {
                Mutability::Mut => str.append("m"),
                Mutability::Not => str.append("c"),
            }
            append_mangled_type(str, ty);
            assert(str@ =~= start + mangled(whole));
        },
        TyKind::FnPtr(inputs, output) => {
            str.append("pfn");
            append_mangled_list(str, inputs);
            append_mangled_type(str, output);
            assert(str@ =~= start + mangled(whole));
        },
        TyKind::Tuple(types) => {
            str.append("tuple");
            append_mangled_list(str, types);
            assert(str@ =~= start + mangled(whole));
        },
        TyKind::Param(name) => {
            str.append("Generic");
            push_text(str, name.as_str());
            assert(str@ =~= start + mangled(whole));
        },
        TyKind::Projection(self_ty, subs, item) => {
            str.append("Projection");
            append_mangled_type(str, self_ty);
            append_mangled_args(str, subs);
            str.append(qualified_type_name(item).as_str());
            assert(str@ =~= start + mangled(whole));
        },
        TyKind::Bound(text) => {
            str.append("Bound");
            push_text(str, text.as_str());
            assert(str@ =~= start + mangled(whole));
        },
        TyKind::Placeholder(text) => {
            str.append("hole");
            push_text(str, text.as_str());
            assert(str@ =~= start + mangled(whole));
        },
        TyKind::Infer(text) => {
            str.append("Infer");
            push_text(str, text.as_str());
            assert(str@ =~= start + mangled(whole));
        },
        TyKind::Error(text) => {
            str.append("Error");
            push_text(str, text.as_str());
        },
    }
    assert(str@ =~= start + mangled(whole));
}

// ---------------------------------------------------------------------------
// Summary keys
// ---------------------------------------------------------------------------

/// `suffix` is a suffix of `s`.
pub open spec fn has_suffix(s: Seq<char>, suffix: Seq<char>) -> bool {
    suffix.len() <= s.len() && s.subrange(s.len() - suffix.len(), s.len() as int) == suffix
}

/// Whether `s` ends with `suffix`.
fn ends_with(s: &String, suffix: &str) -> (r: bool)
    ensures
        r == has_suffix(s@, suffix@),
{
    let text = s.as_str();
    let len = text.unicode_len();
    let suffix_len = suffix.unicode_len();
    if suffix_len > len {
        return false;
    }
    let offset = len - suffix_len;
    for i in 0..suffix_len
        invariant
            len == s@.len(),
            suffix_len == suffix@.len(),
            offset == len - suffix_len,
            text@ == s@,
            forall|j: int| 0 <= j < i ==> s@[offset + j] == suffix@[j],
    {
        if text.get_char(offset + i) != suffix.get_char(i) {
            assert(s@.subrange(offset as int, len as int)[i as int] != suffix@[i as int]);
            return false;
        }
    }
    assert(s@.subrange(offset as int, len as int) =~= suffix@);
    true
}

/// The text of an optional name.
pub open spec fn opt_text(o: Option<String>) -> Option<Seq<char>> {
    match o {
        Some(s) => Some(s@),
        None => None,
    }
}

/// Before each component the key drops a name that ends in
/// `foreign_contracts`, and otherwise ends it with a `.`.
pub open spec fn key_separated(name: Seq<char>) -> Seq<char> {
    if has_suffix(name, "foreign_contracts"@) {
        Seq::empty()
    } else if !has_suffix(name, "."@) {
        name + "."@
    } else {
        name
    }
}

/// The last type namespace name seen, after component `d`.
pub open spec fn key_type_ns(type_ns: Option<Seq<char>>, d: DefPathData) -> Option<Seq<char>> {
    match d {
        DefPathData::TypeNs(sym) => Some(sym@),
        _ => type_ns,
    }
}

/// Whether a component is an impl with a non-zero disambiguator inside the
/// type namespace `num`, in a definition whose parent is in `core`: the key
/// then holds the mangled type of the parent.
pub open spec fn key_impl_reads_parent(
    c: DisambiguatedDefPathData,
    type_ns: Option<Seq<char>>,
    parent_krate: Option<Seq<char>>,
) -> bool {
    c.disambiguator != 0 && (c.data is Impl) && type_ns == Some("num"@) && parent_krate == Some(
        "core"@,
    )
}

/// The name of the parent's crate, if there is a parent.
pub open spec fn parent_krate(parent: Option<ParentDef>) -> Option<Seq<char>> {
    match parent {
        Some(p) => Some(p.krate@),
        None => None,
    }
}

/// What a component's disambiguator adds to the key: nothing when it is
/// zero; else, for an impl of `core`'s `num`, `_` and the mangled type of the
/// parent, and then `_` and the disambiguator's digits.
pub open spec fn key_disambiguation(
    c: DisambiguatedDefPathData,
    type_ns: Option<Seq<char>>,
    parent: Option<ParentDef>,
) -> Seq<char> {
    if c.disambiguator == 0 {
        Seq::empty()
    } else {
        key_typed(c, type_ns, parent) + "_"@ + nat_decimal(c.disambiguator as nat)
    }
}

/// For an impl of `core`'s `num` with a non-zero disambiguator, `_` and the
/// mangled type of the parent; else nothing.
#[verifier::opaque]
pub open spec fn key_typed(
    c: DisambiguatedDefPathData,
    type_ns: Option<Seq<char>>,
    parent: Option<ParentDef>,
) -> Seq<char> {
    if key_impl_reads_parent(c, type_ns, parent_krate(parent)) {
        "_"@ + mangled(parent.unwrap().ty.unwrap())
    } else {
        Seq::empty()
    }
}

/// The key built from `name` by adding the components `comps`, with
/// `type_ns` the last type namespace name seen so far.
pub open spec fn key_fold(
    name: Seq<char>,
    type_ns: Option<Seq<char>>,
    comps: Seq<DisambiguatedDefPathData>,
    parent: Option<ParentDef>,
) -> Seq<char>
    decreases comps.len(),
{
    if comps.len() == 0 {
        name
    } else {
        let c = comps[0];
        let ns = key_type_ns(type_ns, c.data);
        key_fold(
            key_separated(name) + component_name(c.data) + key_disambiguation(c, ns, parent),
            ns,
            comps.drop_first(),
            parent,
        )
    }
}

/// Whether some component is an impl with a non-zero disambiguator inside
/// the type namespace `num` of a definition whose parent is in `core`: the
/// key of such a definition holds the mangled type of the parent.
pub open spec fn key_reads_parent(
    type_ns: Option<Seq<char>>,
    comps: Seq<DisambiguatedDefPathData>,
    parent_krate: Option<Seq<char>>,
) -> bool
    decreases comps.len(),
{
    if comps.len() == 0 {
        false
    } else {
        let c = comps[0];
        let ns = key_type_ns(type_ns, c.data);
        ||| key_impl_reads_parent(c, ns, parent_krate)
        ||| key_reads_parent(ns, comps.drop_first(), parent_krate)
    }
}

/// Whether the summary key of the definition reads the type of its parent,
/// given the name of the parent's crate.
pub fn summary_key_reads_parent_type(def_id: &DefPath, parent_krate: &Option<String>) -> (r: bool)
    ensures
        r == key_reads_parent(None, def_id.data@, opt_text(*parent_krate)),
{
    let mut type_ns: Option<String> = None;
    let n = def_id.data.len();
    assert(def_id.data@.skip(0) =~= def_id.data@);
    for i in 0..n
        invariant
            n == def_id.data@.len(),
            key_reads_parent(opt_text(type_ns), def_id.data@.skip(i as int), opt_text(*parent_krate))
                == key_reads_parent(None, def_id.data@, opt_text(*parent_krate)),
    {
        let component = &def_id.data[i];
        assert(def_id.data@.skip(i as int).drop_first() =~= def_id.data@.skip(i + 1));
        assert(def_id.data@.skip(i as int)[0] == def_id.data@[i as int]);
        if let DefPathData::TypeNs(sym) = &component.data {
            type_ns = Some(sym.clone());
        }
        if component.disambiguator != 0 {
            if let DefPathData::Impl = &component.data {
                if let (Some(ns), Some(krate)) = (&type_ns, parent_krate) {
                    if *ns == String::from_str("num") && *krate == String::from_str("core") {
                        return true;
                    }
                }
            }
        }
    }
    assert(def_id.data@.skip(n as int) =~= Seq::<DisambiguatedDefPathData>::empty());
    false
}

/// The summary key of a definition: its crate's name, as its length, `_`
/// and the name, then its components separated by `.`.
pub open spec fn summary_key(def_id: DefPath, parent: Option<ParentDef>) -> Seq<char> {
    key_fold(name_code(def_id.krate@), None, def_id.data@, parent)
}

/// Constructs a string that uniquely identifies a definition to serve as a key to
/// the summary cache, which is a key value store. The string will always be the same as
/// long as the definition does not change its name or location, so it can be used to
/// transfer information from one compilation to the next, making incremental analysis possible.
#[verifier::rlimit(40)]
pub fn summary_key_str(def_id: &DefPath, parent: &Option<ParentDef>) -> (r: Rc<String>)
    requires
        parent matches Some(p) ==> (key_reads_parent(None, def_id.data@, Some(p.krate@))
            ==> p.ty is Some),
    ensures
        r@ == summary_key(*def_id, *parent),
{
    let krate = crate_name(def_id);
    let mut name = String::new();
    push_name(&mut name, krate.as_str());
    assert(name@ =~= name_code(def_id.krate@));
    let mut type_ns: Option<String> = None;
    let n = def_id.data.len();
    assert(def_id.data@.skip(0) =~= def_id.data@);
    for i in 0..n
        invariant
            n == def_id.data@.len(),
            key_fold(name@, opt_text(type_ns), def_id.data@.skip(i as int), *parent)
                == summary_key(*def_id, *parent),
            parent matches Some(p) ==> (key_reads_parent(
                opt_text(type_ns),
                def_id.data@.skip(i as int),
                Some(p.krate@),
            ) ==> p.ty is Some),
    {
        let component = &def_id.data[i];
        assert(def_id.data@.skip(i as int).drop_first() =~= def_id.data@.skip(i + 1));
        assert(def_id.data@.skip(i as int)[0] == def_id.data@[i as int]);
        let ghost before = name@;
        let ghost ns_before = opt_text(type_ns);
        if ends_with(&name, "foreign_contracts") {
            // By stripping off this special prefix, we allow this crate (or module) to define
            // functions that appear to be from other crates.
            // We use this to provide contracts for functions defined in crates we do not
            // wish to modify in place.
            name = String::new();
        } else if !ends_with(&name, ".") {
            name.append(".");
        }
        assert(name@ == key_separated(before));
        push_component_name(&component.data, &mut name);
        if let DefPathData::TypeNs(sym) = &component.data {
            type_ns = Some(sym.clone());
        }
        assert(opt_text(type_ns) == key_type_ns(ns_before, component.data));
        let ghost separated = name@;
        proof {
            reveal(key_typed);
        }
        if component.disambiguator != 0 {
            if let DefPathData::Impl = &component.data {
                if let (Some(ns), Some(parent_def)) = (&type_ns, parent) {
                    if *ns == String::from_str("num") && parent_def.krate == String::from_str(
                        "core",
                    ) {
                        if let Some(ty) = &parent_def.ty {
                            name.append("_");
                            append_mangled_type(&mut name, ty);
                        }
                    }
                }
            }
            let ghost typed = name@.subrange(separated.len() as int, name@.len() as int);
            assert(name@ =~= separated + typed);
            name.append("_");
            push_decimal(&mut name, component.disambiguator as u64);
            assert(name@ =~= separated + typed + "_"@ + nat_decimal(component.disambiguator as nat));
        }
        assert(name@ == separated + key_disambiguation(*component, opt_text(type_ns), *parent));
    }
    assert(def_id.data@.skip(n as int) =~= Seq::<DisambiguatedDefPathData>::empty());
    Rc::new(name)
}


} // verus!
