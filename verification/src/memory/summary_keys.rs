//! What the summary keys tell apart, and what they depend on.
//!
//! A key is read back in one way: each name is preceded by its length, each
//! component kind other than the type namespace starts with its own letter,
//! and a disambiguator follows `_`. The one exception is the documented
//! stripping of a prefix that ends with `foreign_contracts`, which lets a
//! crate of that name stand for other crates.

use vstd::prelude::*;

use super::mangling::{
    component_same, component_word, lemma_decimal_digits,
    lemma_decimal_injective, lemma_mangled_first, lemma_mangled_prefix, lemma_name_prefix,
    lemma_split, mangled, name_code, path_same,
};
use super::utils::{
    component_name, has_suffix, key_disambiguation, key_fold, key_impl_reads_parent, key_typed,
    key_reads_parent, key_separated, key_type_ns, parent_krate, summary_key, DefPath,
    DefPathData, DisambiguatedDefPathData, ParentDef, TyKind,
};
use crate::text::nat_decimal;

verus! {

/// A name that ends with `foreign_contracts`: the key drops everything
/// before the component that follows it.
pub open spec fn strips(s: Seq<char>) -> bool {
    has_suffix(s, "foreign_contracts"@)
}

/// The name of a path component, if it has one, does not end with
/// `foreign_contracts`.
pub open spec fn component_keeps(d: DefPathData) -> bool {
    match d {
        DefPathData::TypeNs(n) | DefPathData::ValueNs(n) | DefPathData::MacroNs(n)
        | DefPathData::LifetimeNs(n) => !strips(n@),
        _ => true,
    }
}

/// Neither the crate's name nor a component's name ends with
/// `foreign_contracts`.
pub open spec fn path_keeps(d: DefPath) -> bool {
    &&& !strips(d.krate@)
    &&& forall|j: int| 0 <= j < d.data@.len() ==> component_keeps(#[trigger] d.data@[j].data)
}

/// The text a component adds to a key after the separator.
pub open spec fn key_component(
    c: DisambiguatedDefPathData,
    type_ns: Option<Seq<char>>,
    parent: Option<ParentDef>,
) -> Seq<char> {
    component_name(c.data) + key_disambiguation(c, key_type_ns(type_ns, c.data), parent)
}

/// What the components add to a key when no prefix is stripped: each
/// component, after a `.` unless the text before it ends with one.
pub open spec fn key_tail(
    dot: bool,
    type_ns: Option<Seq<char>>,
    comps: Seq<DisambiguatedDefPathData>,
    parent: Option<ParentDef>,
) -> Seq<char>
    decreases comps.len(),
{
    if comps.len() == 0 {
        Seq::empty()
    } else {
        let kc = key_component(comps[0], type_ns, parent);
        (if dot {
            Seq::empty()
        } else {
            "."@
        }) + kc + key_tail(
            kc.last() == '.',
            key_type_ns(type_ns, comps[0].data),
            comps.drop_first(),
            parent,
        )
    }
}

/// A text whose last character is not `s` does not end with
/// `foreign_contracts`.
proof fn lemma_not_strips(s: Seq<char>)
    requires
        s.len() > 0,
        s.last() != 's',
    ensures
        !strips(s),
{
    reveal_strlit("foreign_contracts");
    if strips(s) {
        assert(s.subrange(s.len() - 17, s.len() as int)[16] == s.last());
    }
}

/// A text that ends with a length-prefixed name ends with
/// `foreign_contracts` only if the name does.
proof fn lemma_name_code_strips(q: Seq<char>, n: Seq<char>)
    requires
        strips(q + name_code(n)),
    ensures
        strips(n),
{
    reveal_strlit("foreign_contracts");
    reveal_strlit("_");
    let fc = "foreign_contracts"@;
    let a = nat_decimal(n.len());
    lemma_decimal_digits(n.len());
    let s = q + name_code(n);
    let l = s.len() as int;
    assert(s =~= q + a + "_"@ + n);
    let tail = s.subrange(l - 17, l);
    if n.len() >= 17 {
        assert(tail =~= n.subrange(n.len() - 17, n.len() as int));
    } else if n.len() == 16 {
        assert(tail[0] == s[l - 17]);
        assert(s[l - 17] == '_');
    } else {
        let k = l - n.len() - 2;
        assert(s[k] == a.last());
        assert(tail[k - (l - 17)] == s[k]);
        assert(forall|m: int| 0 <= m < 17 ==> !('0' <= #[trigger] fc[m] <= '9'));
    }
}

/// The text before the next component does not end with
/// `foreign_contracts` when the component's name does not.
proof fn lemma_component_keeps(q: Seq<char>, c: DisambiguatedDefPathData, ns: Option<Seq<char>>, parent: Option<ParentDef>)
    requires
        component_keeps(c.data),
    ensures
        !strips(q + key_component(c, ns, parent)),
        key_component(c, ns, parent).len() > 0,
{
    lemma_component_first(c.data);
    let name = component_name(c.data);
    let d = key_disambiguation(c, key_type_ns(ns, c.data), parent);
    let kc = key_component(c, ns, parent);
    if c.disambiguator != 0 {
        lemma_decimal_digits(c.disambiguator as nat);
        let digits = nat_decimal(c.disambiguator as nat);
        assert(d.last() == digits.last());
        assert((q + kc).last() == d.last());
        lemma_not_strips(q + kc);
    } else {
        assert(kc =~= name);
        reveal_strlit("value");
        reveal_strlit("macro");
        reveal_strlit("lifetime");
        reveal_strlit("root");
        reveal_strlit("impl");
        reveal_strlit("Misc");
        reveal_strlit("closure");
        reveal_strlit("Ctor");
        reveal_strlit("anon");
        reveal_strlit("Impltrait");
        match c.data {
            DefPathData::TypeNs(n) => {
                if strips(q + kc) {
                    lemma_name_code_strips(q, n@);
                }
            },
            DefPathData::ValueNs(n) | DefPathData::MacroNs(n) | DefPathData::LifetimeNs(n) => {
                assert(q + kc =~= (q + component_word(c.data)) + name_code(n@));
                if strips(q + kc) {
                    lemma_name_code_strips(q + component_word(c.data), n@);
                }
            },
            _ => {
                assert((q + kc).last() == kc.last());
                lemma_not_strips(q + kc);
            },
        }
    }
}

/// The first character of a component's name: a digit in the type
/// namespace, else the first letter of its kind's word.
proof fn lemma_component_first(d: DefPathData)
    ensures
        component_name(d).len() > 0,
        d is TypeNs ==> '0' <= component_name(d)[0] <= '9',
        !(d is TypeNs) ==> component_name(d)[0] == component_word(d)[0],
        !(d is TypeNs) ==> component_word(d).len() > 0,
{
    reveal_strlit("_");
    reveal_strlit("value");
    reveal_strlit("macro");
    reveal_strlit("lifetime");
    reveal_strlit("root");
    reveal_strlit("impl");
    reveal_strlit("Misc");
    reveal_strlit("closure");
    reveal_strlit("Ctor");
    reveal_strlit("anon");
    reveal_strlit("Impltrait");
    match d {
        DefPathData::TypeNs(n) => {
            lemma_decimal_digits(n@.len());
            assert(name_code(n@) =~= nat_decimal(n@.len()) + ("_"@ + n@));
            assert(name_code(n@)[0] == nat_decimal(n@.len())[0]);
        },
        DefPathData::ValueNs(n) | DefPathData::MacroNs(n) | DefPathData::LifetimeNs(n) => {
            assert(component_name(d)[0] == component_word(d)[0]);
        },
        _ => {},
    }
}

/// With no name that strips, a key is its start followed by its tail.
proof fn lemma_fold_tail(
    name: Seq<char>,
    type_ns: Option<Seq<char>>,
    comps: Seq<DisambiguatedDefPathData>,
    parent: Option<ParentDef>,
)
    requires
        name.len() > 0,
        !strips(name),
        forall|j: int| 0 <= j < comps.len() ==> component_keeps(#[trigger] comps[j].data),
    ensures
        key_fold(name, type_ns, comps, parent) == name + key_tail(
            name.last() == '.',
            type_ns,
            comps,
            parent,
        ),
    decreases comps.len(),
{
    if comps.len() == 0 {
        assert(name + key_tail(name.last() == '.', type_ns, comps, parent) =~= name);
    } else {
        reveal_strlit(".");
        let c = comps[0];
        let ns = key_type_ns(type_ns, c.data);
        let kc = key_component(c, type_ns, parent);
        let sep: Seq<char> = if name.last() == '.' {
            Seq::empty()
        } else {
            "."@
        };
        assert(has_suffix(name, "."@) ==> name.subrange(name.len() - 1, name.len() as int)[0]
            == name.last());
        assert(!has_suffix(name, "."@) ==> name.last() != '.') by {
            if name.last() == '.' {
                assert(name.subrange(name.len() - 1, name.len() as int) =~= "."@);
            }
        }
        assert(key_separated(name) =~= name + sep);
        assert(component_keeps(comps[0].data));
        lemma_component_keeps(name + sep, c, type_ns, parent);
        let next = name + sep + kc;
        assert(next =~= key_separated(name) + component_name(c.data) + key_disambiguation(
            c,
            ns,
            parent,
        ));
        assert(next.last() == kc.last());
        assert forall|j: int| 0 <= j < comps.drop_first().len() implies component_keeps(
            #[trigger] comps.drop_first()[j].data,
        ) by {
            assert(comps.drop_first()[j] == comps[j + 1]);
        }
        lemma_fold_tail(next, ns, comps.drop_first(), parent);
        assert(name + key_tail(name.last() == '.', type_ns, comps, parent) =~= next + key_tail(
            kc.last() == '.',
            ns,
            comps.drop_first(),
            parent,
        ));
    }
}

/// What follows a component's text in a key: nothing, a `.`, or, after a
/// text that ends with `.`, the next component, which never starts with `_`.
pub open spec fn follows(kc: Seq<char>, t: Seq<char>) -> bool {
    t.len() == 0 || t[0] == '.' || (kc.last() == '.' && t[0] != '_')
}

/// A number's digits, followed by nothing or by a non-digit, are read back in
/// one way.
proof fn lemma_decimal_prefix(m: nat, n: nat, r1: Seq<char>, r2: Seq<char>)
    requires
        nat_decimal(m) + r1 == nat_decimal(n) + r2,
        r1.len() == 0 || !('0' <= r1[0] <= '9'),
        r2.len() == 0 || !('0' <= r2[0] <= '9'),
    ensures
        m == n,
        r1 == r2,
{
    lemma_decimal_digits(m);
    lemma_decimal_digits(n);
    let a = nat_decimal(m);
    let b = nat_decimal(n);
    if a.len() < b.len() {
        assert((b + r2)[a.len() as int] == b[a.len() as int]);
        if r1.len() > 0 {
            assert((a + r1)[a.len() as int] == r1[0]);
        }
    } else if b.len() < a.len() {
        assert((a + r1)[b.len() as int] == a[b.len() as int]);
        if r2.len() > 0 {
            assert((b + r2)[b.len() as int] == r2[0]);
        }
    }
    lemma_split(a, r1, b, r2);
    lemma_decimal_injective(m, n);
}

/// The disambiguations of two components of one kind and name are read back
/// in one way.
#[verifier::spinoff_prover]
proof fn lemma_disambiguation_prefix(
    c1: DisambiguatedDefPathData,
    c2: DisambiguatedDefPathData,
    ns1: Option<Seq<char>>,
    ns2: Option<Seq<char>>,
    p1: Option<ParentDef>,
    p2: Option<ParentDef>,
    t1: Seq<char>,
    t2: Seq<char>,
)
    requires
        key_disambiguation(c1, ns1, p1) + t1 == key_disambiguation(c2, ns2, p2) + t2,
        t1.len() == 0 || t1[0] == '.' || (c1.disambiguator == 0 && t1[0] != '_'),
        t2.len() == 0 || t2[0] == '.' || (c2.disambiguator == 0 && t2[0] != '_'),
    ensures
        c1.disambiguator == c2.disambiguator,
        t1 == t2,
{
    reveal_strlit("_");
    let d1 = key_disambiguation(c1, ns1, p1);
    let d2 = key_disambiguation(c2, ns2, p2);
    if c1.disambiguator == 0 && c2.disambiguator == 0 {
        assert(d1 + t1 =~= t1);
        assert(d2 + t2 =~= t2);
    } else if c1.disambiguator == 0 {
        assert(d1 + t1 =~= t1);
        reveal(key_typed);
        assert(d2[0] == '_');
        assert((d2 + t2)[0] == '_');
    } else if c2.disambiguator == 0 {
        assert(d2 + t2 =~= t2);
        reveal(key_typed);
        assert(d1[0] == '_');
        assert((d1 + t1)[0] == '_');
    } else {
        lemma_marked_prefix(c1, c2, ns1, ns2, p1, p2, t1, t2);
    }
}

/// A mangled type never reads as a number's digits.
proof fn lemma_type_not_digits(ty: TyKind, u: Seq<char>, k: nat, t: Seq<char>)
    ensures
        mangled(ty) + u != nat_decimal(k) + t,
{
    lemma_mangled_first(ty);
    lemma_decimal_digits(k);
    let m = mangled(ty);
    let e = nat_decimal(k);
    assert((m + u)[0] == m[0]);
    assert((e + t)[0] == e[0]);
}

/// The parent's type in a disambiguation, followed by `_` and digits, is read
/// back in one way.
#[verifier::spinoff_prover]
proof fn lemma_typed_prefix(
    c1: DisambiguatedDefPathData,
    c2: DisambiguatedDefPathData,
    ns1: Option<Seq<char>>,
    ns2: Option<Seq<char>>,
    p1: Option<ParentDef>,
    p2: Option<ParentDef>,
    k1: nat,
    k2: nat,
    t1: Seq<char>,
    t2: Seq<char>,
)
    requires
        key_typed(c1, ns1, p1) + ("_"@ + (nat_decimal(k1) + t1)) == key_typed(c2, ns2, p2) + (
        "_"@ + (nat_decimal(k2) + t2)),
    ensures
        "_"@ + (nat_decimal(k1) + t1) == "_"@ + (nat_decimal(k2) + t2),
{
    reveal(key_typed);
    reveal_strlit("_");
    let u1 = "_"@ + (nat_decimal(k1) + t1);
    let u2 = "_"@ + (nat_decimal(k2) + t2);
    let r1 = key_impl_reads_parent(c1, ns1, parent_krate(p1));
    let r2 = key_impl_reads_parent(c2, ns2, parent_krate(p2));
    let ty1 = p1.unwrap().ty.unwrap();
    let ty2 = p2.unwrap().ty.unwrap();
    if r1 && r2 {
        assert(key_typed(c1, ns1, p1) + u1 =~= "_"@ + (mangled(ty1) + u1));
        assert(key_typed(c2, ns2, p2) + u2 =~= "_"@ + (mangled(ty2) + u2));
        lemma_split("_"@, mangled(ty1) + u1, "_"@, mangled(ty2) + u2);
        lemma_mangled_prefix(ty1, ty2, u1, u2);
    } else if r1 {
        assert(key_typed(c1, ns1, p1) + u1 =~= "_"@ + (mangled(ty1) + u1));
        assert(key_typed(c2, ns2, p2) + u2 =~= u2);
        lemma_split("_"@, mangled(ty1) + u1, "_"@, nat_decimal(k2) + t2);
        lemma_type_not_digits(ty1, u1, k2, t2);
    } else if r2 {
        assert(key_typed(c2, ns2, p2) + u2 =~= "_"@ + (mangled(ty2) + u2));
        assert(key_typed(c1, ns1, p1) + u1 =~= u1);
        lemma_split("_"@, nat_decimal(k1) + t1, "_"@, mangled(ty2) + u2);
        lemma_type_not_digits(ty2, u2, k1, t1);
    } else {
        assert(key_typed(c1, ns1, p1) + u1 =~= u1);
        assert(key_typed(c2, ns2, p2) + u2 =~= u2);
    }
}

/// Two non-zero disambiguations are read back in one way.
proof fn lemma_marked_prefix(
    c1: DisambiguatedDefPathData,
    c2: DisambiguatedDefPathData,
    ns1: Option<Seq<char>>,
    ns2: Option<Seq<char>>,
    p1: Option<ParentDef>,
    p2: Option<ParentDef>,
    t1: Seq<char>,
    t2: Seq<char>,
)
    requires
        c1.disambiguator != 0,
        c2.disambiguator != 0,
        key_disambiguation(c1, ns1, p1) + t1 == key_disambiguation(c2, ns2, p2) + t2,
        t1.len() == 0 || t1[0] == '.',
        t2.len() == 0 || t2[0] == '.',
    ensures
        c1.disambiguator == c2.disambiguator,
        t1 == t2,
{
    let k1 = c1.disambiguator as nat;
    let k2 = c2.disambiguator as nat;
    let e1 = nat_decimal(k1);
    let e2 = nat_decimal(k2);
    let y1 = key_typed(c1, ns1, p1);
    let y2 = key_typed(c2, ns2, p2);
    assert(key_disambiguation(c1, ns1, p1) + t1 =~= y1 + ("_"@ + (e1 + t1)));
    assert(key_disambiguation(c2, ns2, p2) + t2 =~= y2 + ("_"@ + (e2 + t2)));
    lemma_typed_prefix(c1, c2, ns1, ns2, p1, p2, k1, k2, t1, t2);
    reveal_strlit("_");
    lemma_split("_"@, e1 + t1, "_"@, e2 + t2);
    lemma_decimal_prefix(k1, k2, t1, t2);
}

/// Two components of the same kind with the same name, whatever their
/// disambiguators.
pub open spec fn data_same(d1: DefPathData, d2: DefPathData) -> bool {
    match (d1, d2) {
        (DefPathData::TypeNs(a), DefPathData::TypeNs(b)) => a@ == b@,
        (DefPathData::ValueNs(a), DefPathData::ValueNs(b)) => a@ == b@,
        (DefPathData::MacroNs(a), DefPathData::MacroNs(b)) => a@ == b@,
        (DefPathData::LifetimeNs(a), DefPathData::LifetimeNs(b)) => a@ == b@,
        (DefPathData::CrateRoot, DefPathData::CrateRoot) => true,
        (DefPathData::Impl, DefPathData::Impl) => true,
        (DefPathData::Misc, DefPathData::Misc) => true,
        (DefPathData::ClosureExpr, DefPathData::ClosureExpr) => true,
        (DefPathData::Ctor, DefPathData::Ctor) => true,
        (DefPathData::AnonConst, DefPathData::AnonConst) => true,
        (DefPathData::ImplTrait, DefPathData::ImplTrait) => true,
        _ => false,
    }
}

/// What a component's kind and name put in a key is read back in one way.
#[verifier::spinoff_prover]
proof fn lemma_head_prefix(d1: DefPathData, d2: DefPathData, x1: Seq<char>, x2: Seq<char>)
    requires
        component_name(d1) + x1 == component_name(d2) + x2,
    ensures
        data_same(d1, d2),
        x1 == x2,
{
    reveal_strlit("value");
    reveal_strlit("macro");
    reveal_strlit("lifetime");
    reveal_strlit("root");
    reveal_strlit("impl");
    reveal_strlit("Misc");
    reveal_strlit("closure");
    reveal_strlit("Ctor");
    reveal_strlit("anon");
    reveal_strlit("Impltrait");
    lemma_component_first(d1);
    lemma_component_first(d2);
    let h1 = component_name(d1);
    let h2 = component_name(d2);
    assert((h1 + x1)[0] == h1[0]);
    assert((h2 + x2)[0] == h2[0]);
    match (d1, d2) {
        (DefPathData::TypeNs(a), DefPathData::TypeNs(b)) => lemma_name_prefix(a@, b@, x1, x2),
        (DefPathData::ValueNs(a), DefPathData::ValueNs(b)) | (DefPathData::MacroNs(a), DefPathData::MacroNs(b))
        | (DefPathData::LifetimeNs(a), DefPathData::LifetimeNs(b)) => {
            let w = component_word(d1);
            assert(h1 + x1 =~= w + (name_code(a@) + x1));
            assert(h2 + x2 =~= w + (name_code(b@) + x2));
            lemma_split(w, name_code(a@) + x1, w, name_code(b@) + x2);
            lemma_name_prefix(a@, b@, x1, x2);
        },
        _ => {
            if data_same(d1, d2) {
                lemma_split(h1, x1, h2, x2);
            }
        },
    }
}

/// A component's text ends with a digit when its disambiguator is not zero,
/// and is its name's text when it is.
proof fn lemma_component_last(
    c: DisambiguatedDefPathData,
    ns: Option<Seq<char>>,
    parent: Option<ParentDef>,
)
    ensures
        c.disambiguator != 0 ==> '0' <= key_component(c, ns, parent).last() <= '9',
        c.disambiguator == 0 ==> key_component(c, ns, parent) == component_name(c.data),
        key_component(c, ns, parent).len() > 0,
{
    lemma_component_first(c.data);
    let kc = key_component(c, ns, parent);
    if c.disambiguator != 0 {
        lemma_decimal_digits(c.disambiguator as nat);
        assert(kc.last() == nat_decimal(c.disambiguator as nat).last());
    } else {
        assert(kc =~= component_name(c.data));
    }
}

/// A component's text, followed by what may follow it, is read back in one
/// way.
proof fn lemma_key_component_prefix(
    c1: DisambiguatedDefPathData,
    c2: DisambiguatedDefPathData,
    ns: Option<Seq<char>>,
    p1: Option<ParentDef>,
    p2: Option<ParentDef>,
    t1: Seq<char>,
    t2: Seq<char>,
)
    requires
        key_component(c1, ns, p1) + t1 == key_component(c2, ns, p2) + t2,
        follows(key_component(c1, ns, p1), t1),
        follows(key_component(c2, ns, p2), t2),
    ensures
        component_same(c1, c2),
        t1 == t2,
{
    let ns1 = key_type_ns(ns, c1.data);
    let ns2 = key_type_ns(ns, c2.data);
    let x1 = key_disambiguation(c1, ns1, p1) + t1;
    let x2 = key_disambiguation(c2, ns2, p2) + t2;
    assert(key_component(c1, ns, p1) + t1 =~= component_name(c1.data) + x1);
    assert(key_component(c2, ns, p2) + t2 =~= component_name(c2.data) + x2);
    lemma_head_prefix(c1.data, c2.data, x1, x2);
    lemma_component_last(c1, ns, p1);
    lemma_component_last(c2, ns, p2);
    lemma_disambiguation_prefix(c1, c2, ns1, ns2, p1, p2, t1, t2);
}

/// What follows a component in a tail: nothing, a `.`, or, after a `.`, a
/// component, which does not start with `_`.
proof fn lemma_tail_start(
    dot: bool,
    type_ns: Option<Seq<char>>,
    comps: Seq<DisambiguatedDefPathData>,
    parent: Option<ParentDef>,
)
    ensures
        ({
            let t = key_tail(dot, type_ns, comps, parent);
            t.len() == 0 || (!dot && t[0] == '.') || (dot && t[0] != '_')
        }),
{
    if comps.len() > 0 {
        reveal_strlit(".");
        reveal_strlit("value");
        reveal_strlit("macro");
        reveal_strlit("lifetime");
        reveal_strlit("root");
        reveal_strlit("impl");
        reveal_strlit("Misc");
        reveal_strlit("closure");
        reveal_strlit("Ctor");
        reveal_strlit("anon");
        reveal_strlit("Impltrait");
        let c = comps[0];
        let kc = key_component(c, type_ns, parent);
        lemma_component_first(c.data);
        lemma_component_last(c, type_ns, parent);
        let rest = key_tail(kc.last() == '.', key_type_ns(type_ns, c.data), comps.drop_first(), parent);
        assert(kc[0] == component_name(c.data)[0]);
        if dot {
            assert(key_tail(dot, type_ns, comps, parent) =~= kc + rest);
        } else {
            assert(key_tail(dot, type_ns, comps, parent) =~= "."@ + (kc + rest));
        }
    }
}

/// Equal tails start with the same component, and what follows it is
/// equal.
#[verifier::spinoff_prover]
proof fn lemma_tails_head(
    dot: bool,
    type_ns: Option<Seq<char>>,
    c1: Seq<DisambiguatedDefPathData>,
    c2: Seq<DisambiguatedDefPathData>,
    p1: Option<ParentDef>,
    p2: Option<ParentDef>,
)
    requires
        c1.len() > 0,
        c2.len() > 0,
        key_tail(dot, type_ns, c1, p1) == key_tail(dot, type_ns, c2, p2),
    ensures
        component_same(c1[0], c2[0]),
        key_type_ns(type_ns, c1[0].data) == key_type_ns(type_ns, c2[0].data),
        key_component(c1[0], type_ns, p1).last() == key_component(c2[0], type_ns, p2).last(),
        key_tail(
            key_component(c1[0], type_ns, p1).last() == '.',
            key_type_ns(type_ns, c1[0].data),
            c1.drop_first(),
            p1,
        ) == key_tail(
            key_component(c2[0], type_ns, p2).last() == '.',
            key_type_ns(type_ns, c2[0].data),
            c2.drop_first(),
            p2,
        ),
{
    reveal_strlit(".");
    let sep: Seq<char> = if dot {
        Seq::empty()
    } else {
        "."@
    };
    let k1 = key_component(c1[0], type_ns, p1);
    let k2 = key_component(c2[0], type_ns, p2);
    let n1 = key_type_ns(type_ns, c1[0].data);
    let n2 = key_type_ns(type_ns, c2[0].data);
    let t1 = key_tail(k1.last() == '.', n1, c1.drop_first(), p1);
    let t2 = key_tail(k2.last() == '.', n2, c2.drop_first(), p2);
    assert(key_tail(dot, type_ns, c1, p1) =~= sep + (k1 + t1));
    assert(key_tail(dot, type_ns, c2, p2) =~= sep + (k2 + t2));
    lemma_split(sep, k1 + t1, sep, k2 + t2);
    lemma_tail_start(k1.last() == '.', n1, c1.drop_first(), p1);
    lemma_tail_start(k2.last() == '.', n2, c2.drop_first(), p2);
    lemma_key_component_prefix(c1[0], c2[0], type_ns, p1, p2, t1, t2);
    lemma_component_last(c1[0], type_ns, p1);
    lemma_component_last(c2[0], type_ns, p2);
    if c1[0].disambiguator != 0 {
        lemma_decimal_digits(c1[0].disambiguator as nat);
        assert(k1.last() == nat_decimal(c1[0].disambiguator as nat).last());
        assert(k2.last() == nat_decimal(c2[0].disambiguator as nat).last());
    } else {
        assert(component_name(c1[0].data) == component_name(c2[0].data));
    }
}

/// Tails that are equal come from the same components.
proof fn lemma_tails_same(
    dot: bool,
    type_ns: Option<Seq<char>>,
    c1: Seq<DisambiguatedDefPathData>,
    c2: Seq<DisambiguatedDefPathData>,
    p1: Option<ParentDef>,
    p2: Option<ParentDef>,
)
    requires
        key_tail(dot, type_ns, c1, p1) == key_tail(dot, type_ns, c2, p2),
    ensures
        c1.len() == c2.len(),
        forall|j: int| 0 <= j < c1.len() ==> component_same(#[trigger] c1[j], c2[j]),
    decreases c1.len(),
{
    if c1.len() > 0 && c2.len() > 0 {
        lemma_tails_head(dot, type_ns, c1, c2, p1, p2);
        let k1 = key_component(c1[0], type_ns, p1);
        lemma_tails_same(
            k1.last() == '.',
            key_type_ns(type_ns, c1[0].data),
            c1.drop_first(),
            c2.drop_first(),
            p1,
            p2,
        );
        assert forall|j: int| 0 <= j < c1.len() implies component_same(#[trigger] c1[j], c2[j]) by {
            if j > 0 {
                assert(c1[j] == c1.drop_first()[j - 1]);
                assert(c2[j] == c2.drop_first()[j - 1]);
            }
        }
    } else if c1.len() > 0 {
        lemma_component_last(c1[0], type_ns, p1);
        let k1 = key_component(c1[0], type_ns, p1);
        assert(key_tail(dot, type_ns, c1, p1).len() >= k1.len());
    } else if c2.len() > 0 {
        lemma_component_last(c2[0], type_ns, p2);
        let k2 = key_component(c2[0], type_ns, p2);
        assert(key_tail(dot, type_ns, c2, p2).len() >= k2.len());
    }
}

/// A crate's name preceded by its length does not end with
/// `foreign_contracts` unless the name does.
proof fn lemma_krate_keeps(k: Seq<char>)
    requires
        !strips(k),
    ensures
        name_code(k).len() > 0,
        !strips(name_code(k)),
{
    lemma_decimal_digits(k.len());
    if strips(name_code(k)) {
        assert(Seq::<char>::empty() + name_code(k) =~= name_code(k));
        lemma_name_code_strips(Seq::empty(), k);
    }
}

/// Summary keys tell definitions apart: two definitions with the same key
/// are the same definition (the same crate name and the same components,
/// each of the same kind, name and disambiguator), whatever their parents.
/// The one exception is the documented stripping of a prefix: a crate or a
/// component whose name ends with `foreign_contracts` drops everything
/// before the next component, so that it can stand for another crate.
pub proof fn law_summary_key_is_unique(
    d1: DefPath,
    d2: DefPath,
    p1: Option<ParentDef>,
    p2: Option<ParentDef>,
)
    requires
        path_keeps(d1),
        path_keeps(d2),
        summary_key(d1, p1) == summary_key(d2, p2),
    ensures
        path_same(d1, d2),
{
    lemma_krate_keeps(d1.krate@);
    lemma_krate_keeps(d2.krate@);
    let k1 = name_code(d1.krate@);
    let k2 = name_code(d2.krate@);
    lemma_fold_tail(k1, None, d1.data@, p1);
    lemma_fold_tail(k2, None, d2.data@, p2);
    let t1 = key_tail(k1.last() == '.', None, d1.data@, p1);
    let t2 = key_tail(k2.last() == '.', None, d2.data@, p2);
    lemma_name_prefix(d1.krate@, d2.krate@, t1, t2);
    lemma_tails_same(k1.last() == '.', None, d1.data@, d2.data@, p1, p2);
}

/// Keys built from components of the same kinds, names and disambiguators,
/// with parents that agree where the key reads them, are equal.
proof fn lemma_fold_same(
    name: Seq<char>,
    type_ns: Option<Seq<char>>,
    c1: Seq<DisambiguatedDefPathData>,
    c2: Seq<DisambiguatedDefPathData>,
    p1: Option<ParentDef>,
    p2: Option<ParentDef>,
)
    requires
        c1.len() == c2.len(),
        forall|j: int| 0 <= j < c1.len() ==> component_same(#[trigger] c1[j], c2[j]),
        parent_krate(p1) == parent_krate(p2),
        key_reads_parent(type_ns, c1, parent_krate(p1)) ==> p1.unwrap().ty == p2.unwrap().ty,
    ensures
        key_fold(name, type_ns, c1, p1) == key_fold(name, type_ns, c2, p2),
    decreases c1.len(),
{
    if c1.len() > 0 {
        reveal(key_typed);
        let a = c1[0];
        let b = c2[0];
        assert(component_same(a, b));
        let ns = key_type_ns(type_ns, a.data);
        assert(key_type_ns(type_ns, b.data) == ns);
        assert(component_name(a.data) == component_name(b.data));
        assert(key_disambiguation(a, ns, p1) == key_disambiguation(b, ns, p2));
        assert forall|j: int| 0 <= j < c1.drop_first().len() implies component_same(
            #[trigger] c1.drop_first()[j],
            c2.drop_first()[j],
        ) by {
            assert(component_same(c1[j + 1], c2[j + 1]));
        }
        lemma_fold_same(
            key_separated(name) + component_name(a.data) + key_disambiguation(a, ns, p1),
            ns,
            c1.drop_first(),
            c2.drop_first(),
            p1,
            p2,
        );
    }
}

/// A summary key depends only on the definition's name and location: the
/// crate's name and the kind, name and disambiguator of each component, and,
/// where the key reads them, the parent's crate and type. So it stays the same
/// from one compilation to the next.
pub proof fn law_summary_key_depends_on_path(
    d1: DefPath,
    d2: DefPath,
    p1: Option<ParentDef>,
    p2: Option<ParentDef>,
)
    requires
        path_same(d1, d2),
        parent_krate(p1) == parent_krate(p2),
        key_reads_parent(None, d1.data@, parent_krate(p1)) ==> p1.unwrap().ty == p2.unwrap().ty,
    ensures
        summary_key(d1, p1) == summary_key(d2, p2),
{
    lemma_fold_same(name_code(d1.krate@), None, d1.data@, d2.data@, p1, p2);
    assert(name_code(d1.krate@) == name_code(d2.krate@));
}

// ---------------------------------------------------------------------------
// The `foreign_contracts` prefix
// ---------------------------------------------------------------------------

/// A name that ends with `foreign_contracts` still does when written with
/// its length after any text.
proof fn lemma_name_code_keeps_suffix(q: Seq<char>, n: Seq<char>)
    requires
        strips(n),
    ensures
        strips(q + name_code(n)),
{
    reveal_strlit("foreign_contracts");
    let s = q + name_code(n);
    assert(s =~= (q + counted_len(n)) + n);
    assert(s.subrange(s.len() - 17, s.len() as int) =~= n.subrange(n.len() - 17, n.len() as int));
}

/// The length prefix of a name.
spec fn counted_len(n: Seq<char>) -> Seq<char> {
    nat_decimal(n.len()) + "_"@
}

/// The type namespace seen before the components matters only when it is
/// `num`: two starting namespaces that are not `num` give the same key.
proof fn lemma_fold_type_ns(
    name: Seq<char>,
    ns1: Option<Seq<char>>,
    ns2: Option<Seq<char>>,
    comps: Seq<DisambiguatedDefPathData>,
    parent: Option<ParentDef>,
)
    requires
        ns1 != Some("num"@),
        ns2 != Some("num"@),
    ensures
        key_fold(name, ns1, comps, parent) == key_fold(name, ns2, comps, parent),
    decreases comps.len(),
{
    if comps.len() > 0 {
        reveal(key_typed);
        let c = comps[0];
        let n1 = key_type_ns(ns1, c.data);
        let n2 = key_type_ns(ns2, c.data);
        assert(key_disambiguation(c, n1, parent) == key_disambiguation(c, n2, parent));
        let next = key_separated(name) + component_name(c.data) + key_disambiguation(c, n1, parent);
        if c.data is TypeNs {
            assert(n1 == n2);
        } else {
            lemma_fold_type_ns(next, n1, n2, comps.drop_first(), parent);
        }
    }
}

/// Past a module whose name ends with `foreign_contracts`, followed by a
/// module `k`, the key is that of a crate `k` with the components after it.
proof fn lemma_strip_at(
    name: Seq<char>,
    ns: Option<Seq<char>>,
    comps: Seq<DisambiguatedDefPathData>,
    j: int,
    k: Seq<char>,
    parent: Option<ParentDef>,
)
    requires
        0 <= j,
        j + 1 < comps.len(),
        comps[j].data is TypeNs,
        strips(component_name_text(comps[j].data)),
        comps[j].disambiguator == 0,
        comps[j + 1].data is TypeNs,
        component_name_text(comps[j + 1].data) == k,
        comps[j + 1].disambiguator == 0,
        k != "num"@,
    ensures
        key_fold(name, ns, comps, parent) == key_fold(name_code(k), None, comps.skip(j + 2), parent),
    decreases j,
{
    let c = comps[0];
    let n1 = key_type_ns(ns, c.data);
    let next = key_separated(name) + component_name(c.data) + key_disambiguation(c, n1, parent);
    if j > 0 {
        let rest = comps.drop_first();
        assert(rest[j - 1] == comps[j]);
        assert(rest[j] == comps[j + 1]);
        assert(rest.skip(j + 1) =~= comps.skip(j + 2));
        lemma_strip_at(next, n1, rest, j - 1, k, parent);
    } else {
        let rest = comps.drop_first();
        let c2 = rest[0];
        assert(c2 == comps[1]);
        assert(key_disambiguation(c, n1, parent) =~= Seq::<char>::empty());
        lemma_name_code_keeps_suffix(key_separated(name), component_name_text(c.data));
        assert(next =~= key_separated(name) + name_code(component_name_text(c.data)));
        assert(key_separated(next) == Seq::<char>::empty());
        let n2 = key_type_ns(n1, c2.data);
        assert(n2 == Some(k));
        assert(key_disambiguation(c2, n2, parent) =~= Seq::<char>::empty());
        let after = key_separated(next) + component_name(c2.data) + key_disambiguation(
            c2,
            n2,
            parent,
        );
        assert(after =~= name_code(k));
        assert(rest.drop_first() =~= comps.skip(2));
        assert(key_fold(next, n1, rest, parent) == key_fold(after, n2, rest.drop_first(), parent));
        lemma_fold_type_ns(name_code(k), n2, None, comps.skip(2), parent);
    }
}

/// The name of a named path component, or nothing.
pub open spec fn component_name_text(d: DefPathData) -> Seq<char> {
    match d {
        DefPathData::TypeNs(n) | DefPathData::ValueNs(n) | DefPathData::MacroNs(n)
        | DefPathData::LifetimeNs(n) => n@,
        _ => Seq::empty(),
    }
}

/// A module whose name ends with `foreign_contracts`, wherever it stands in
/// a path, strips everything before it: when it is followed by a module `k`,
/// the definition gets the key of the definition in a crate `k` with the
/// components after `k` (for `k` other than `num`, whose impls in `core` key
/// the parent's type). So `contracts::foreign_contracts::core::mem::swap` is
/// keyed like `core::mem::swap`.
pub proof fn law_foreign_contracts_module_strips(
    d: DefPath,
    e: DefPath,
    j: int,
    parent: Option<ParentDef>,
)
    requires
        0 <= j,
        j + 1 < d.data@.len(),
        d.data@[j].data is TypeNs,
        strips(component_name_text(d.data@[j].data)),
        d.data@[j].disambiguator == 0,
        d.data@[j + 1].data is TypeNs,
        d.data@[j + 1].disambiguator == 0,
        e.krate@ == component_name_text(d.data@[j + 1].data),
        e.krate@ != "num"@,
        e.data@ == d.data@.skip(j + 2),
    ensures
        summary_key(d, parent) == summary_key(e, parent),
{
    lemma_strip_at(name_code(d.krate@), None, d.data@, j, e.krate@, parent);
}

/// A crate whose name ends with `foreign_contracts` stands for the crate
/// named by its first module: when that module is `k`, the definition gets
/// the key of the definition in a crate `k` with the components after `k`
/// (for `k` other than `num`). So `analyzer_foreign_contracts::core::mem::swap`
/// is keyed like `core::mem::swap`.
pub proof fn law_foreign_contracts_crate_strips(d: DefPath, e: DefPath, parent: Option<ParentDef>)
    requires
        strips(d.krate@),
        0 < d.data@.len(),
        d.data@[0].data is TypeNs,
        d.data@[0].disambiguator == 0,
        e.krate@ == component_name_text(d.data@[0].data),
        e.krate@ != "num"@,
        e.data@ == d.data@.skip(1),
    ensures
        summary_key(d, parent) == summary_key(e, parent),
{
    let comps = d.data@;
    let c = comps[0];
    let k = e.krate@;
    assert(Seq::<char>::empty() + name_code(d.krate@) =~= name_code(d.krate@));
    lemma_name_code_keeps_suffix(Seq::empty(), d.krate@);
    assert(key_separated(name_code(d.krate@)) == Seq::<char>::empty());
    let n1 = key_type_ns(None, c.data);
    assert(n1 == Some(k));
    assert(key_disambiguation(c, n1, parent) =~= Seq::<char>::empty());
    let after = key_separated(name_code(d.krate@)) + component_name(c.data) + key_disambiguation(
        c,
        n1,
        parent,
    );
    assert(after =~= name_code(k));
    assert(comps.drop_first() =~= comps.skip(1));
    lemma_fold_type_ns(name_code(k), n1, None, comps.skip(1), parent);
}

} // verus!
