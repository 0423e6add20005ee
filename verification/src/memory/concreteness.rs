//! What it means for a type to be concrete: no type parameter, bound or
//! inference variable, or error type occurs anywhere in it.

use vstd::prelude::*;

use super::utils::{args_concrete, concrete, tys_concrete, DefPath, GenericArg, TyKind};

verus! {

/// A type that is a type parameter, a bound or inference variable, or an
/// error: the kinds that make a type not concrete wherever they occur.
pub open spec fn generic_leaf(ty: TyKind) -> bool {
    ty is Param || ty is Bound || ty is Infer || ty is Error
}

/// `t` is one of the type arguments in `args`.
pub open spec fn type_arg_in(t: TyKind, args: Seq<GenericArg>) -> bool {
    exists|i: int| 0 <= i < args.len() && args[i] == GenericArg::Type(t)
}

/// `t` is one of the types in `tys`.
pub open spec fn type_in(t: TyKind, tys: Seq<TyKind>) -> bool {
    exists|i: int| 0 <= i < tys.len() && tys[i] == t
}

/// `t` is a type that `ty` is directly built from: a type argument of a
/// definition or of a trait object's principal, a type that a trait object's
/// bound names, a projection's self type or argument, a member of a tuple or
/// a generator witness, the element or pointee type, or an input or the
/// output of a function pointer.
pub open spec fn part_of(t: TyKind, ty: TyKind) -> bool {
    match ty {
        TyKind::Adt(_, args) | TyKind::Closure(_, args) | TyKind::FnDef(_, args)
        | TyKind::Generator(_, args) | TyKind::Opaque(_, args) => type_arg_in(t, args@),
        TyKind::Dynamic(principal, bounds) => type_in(t, bounds@) || match principal {
            Some((_, args)) => type_arg_in(t, args@),
            None => false,
        },
        TyKind::Projection(self_ty, args, _) => *self_ty == t || type_arg_in(t, args@),
        TyKind::Tuple(tys) | TyKind::GeneratorWitness(tys) => type_in(t, tys@),
        TyKind::Array(e, _) | TyKind::Slice(e) | TyKind::RawPtr(e, _) | TyKind::Ref(e, _) => *e
            == t,
        TyKind::FnPtr(inputs, output) => type_in(t, inputs@) || *output == t,
        _ => false,
    }
}

/// A list of generic arguments is concrete exactly when every type argument
/// in it is concrete, however deep its own parameters lie.
pub proof fn law_args_concrete(args: Seq<GenericArg>)
    ensures
        args_concrete(args) <==> (forall|t: TyKind| #[trigger] type_arg_in(t, args) ==> concrete(t)),
    decreases args.len(),
{
    if args.len() > 0 {
        let init = args.drop_last();
        law_args_concrete(init);
        assert forall|t: TyKind| #[trigger] type_arg_in(t, init) implies type_arg_in(t, args) by {
            let i = choose|i: int| 0 <= i < init.len() && init[i] == GenericArg::Type(t);
            assert(args[i] == init[i]);
        }
        if let GenericArg::Type(last) = args.last() {
            assert(args[args.len() - 1] == GenericArg::Type(last));
            assert(type_arg_in(last, args));
        }
        assert forall|t: TyKind| #[trigger] type_arg_in(t, args) implies type_arg_in(t, init) || args.last()
            == GenericArg::Type(t) by {
            let i = choose|i: int| 0 <= i < args.len() && args[i] == GenericArg::Type(t);
            if i < args.len() - 1 {
                assert(init[i] == args[i]);
            }
        }
    }
}

/// A list of types is concrete exactly when every type in it is.
pub proof fn law_tys_concrete(tys: Seq<TyKind>)
    ensures
        tys_concrete(tys) <==> (forall|t: TyKind| #[trigger] type_in(t, tys) ==> concrete(t)),
    decreases tys.len(),
{
    if tys.len() > 0 {
        let init = tys.drop_last();
        law_tys_concrete(init);
        assert forall|t: TyKind| #[trigger] type_in(t, init) implies type_in(t, tys) by {
            let i = choose|i: int| 0 <= i < init.len() && init[i] == t;
            assert(tys[i] == init[i]);
        }
        assert(tys[tys.len() - 1] == tys.last());
        assert(type_in(tys.last(), tys));
        assert forall|t: TyKind| #[trigger] type_in(t, tys) implies type_in(t, init) || tys.last()
            == t by {
            let i = choose|i: int| 0 <= i < tys.len() && tys[i] == t;
            if i < tys.len() - 1 {
                assert(init[i] == tys[i]);
            }
        }
    }
}

/// A type is concrete exactly when it is not itself a type parameter, bound
/// or inference variable, or error, and every type it is directly built from
/// is concrete. So a type is concrete exactly when no such type occurs
/// anywhere in it: a parameter in a projection's self type, in a type
/// argument of a type argument, in an element, pointee, input or output type,
/// or in a trait object's bound makes the whole type not concrete.
pub proof fn law_concrete_parts(ty: TyKind)
    ensures
        generic_leaf(ty) ==> !concrete(ty),
        concrete(ty) <==> (!generic_leaf(ty) && forall|t: TyKind| #[trigger] part_of(t, ty)
            ==> concrete(t)),
{
    match ty {
        TyKind::Adt(_, args) | TyKind::Closure(_, args) | TyKind::FnDef(_, args)
        | TyKind::Generator(_, args) | TyKind::Opaque(_, args) => {
            law_args_concrete(args@);
            assert(concrete(ty) == args_concrete(args@));
            assert(!generic_leaf(ty));
            if concrete(ty) {
                assert forall|t: TyKind| #[trigger] part_of(t, ty) implies concrete(t) by {
                    assert(type_arg_in(t, args@));
                }
            } else {
                let t = choose|t: TyKind| type_arg_in(t, args@) && !concrete(t);
                assert(part_of(t, ty));
            }
            assert(concrete(ty) <==> (!generic_leaf(ty) && forall|t: TyKind| #[trigger] part_of(t, ty)
                ==> concrete(t)));
        },
        TyKind::Dynamic(principal, bounds) => {
            law_tys_concrete(bounds@);
            let args: Seq<GenericArg> = match principal {
                Some((_, a)) => a@,
                None => Seq::empty(),
            };
            law_args_concrete(args);
            assert(concrete(ty) == (tys_concrete(bounds@) && args_concrete(args)));
            if concrete(ty) {
                assert forall|t: TyKind| #[trigger] part_of(t, ty) implies concrete(t) by {
                    if !type_in(t, bounds@) {
                        assert(type_arg_in(t, args));
                    }
                }
            } else if !tys_concrete(bounds@) {
                let t = choose|t: TyKind| type_in(t, bounds@) && !concrete(t);
                assert(part_of(t, ty));
            } else {
                let t = choose|t: TyKind| type_arg_in(t, args) && !concrete(t);
                assert(part_of(t, ty));
            }
            assert(concrete(ty) <==> (!generic_leaf(ty) && forall|t: TyKind| #[trigger] part_of(t, ty)
                ==> concrete(t)));
        },
        TyKind::Projection(self_ty, args, _) => {
            law_args_concrete(args@);
            assert(part_of(*self_ty, ty));
            assert(concrete(ty) == (concrete(*self_ty) && args_concrete(args@)));
            if concrete(ty) {
                assert forall|t: TyKind| #[trigger] part_of(t, ty) implies concrete(t) by {
                    if *self_ty != t {
                        assert(type_arg_in(t, args@));
                    }
                }
            } else if args_concrete(args@) {
                assert(!concrete(*self_ty));
            } else {
                let t = choose|t: TyKind| type_arg_in(t, args@) && !concrete(t);
                assert(part_of(t, ty));
            }
            assert(concrete(ty) <==> (!generic_leaf(ty) && forall|t: TyKind| #[trigger] part_of(t, ty)
                ==> concrete(t)));
        },
        TyKind::Tuple(tys) | TyKind::GeneratorWitness(tys) => {
            law_tys_concrete(tys@);
            assert(concrete(ty) == tys_concrete(tys@));
            if concrete(ty) {
                assert forall|t: TyKind| #[trigger] part_of(t, ty) implies concrete(t) by {
                    assert(type_in(t, tys@));
                }
            } else {
                let t = choose|t: TyKind| type_in(t, tys@) && !concrete(t);
                assert(part_of(t, ty));
            }
            assert(concrete(ty) <==> (!generic_leaf(ty) && forall|t: TyKind| #[trigger] part_of(t, ty)
                ==> concrete(t)));
        },
        TyKind::Array(e, _) | TyKind::Slice(e) | TyKind::RawPtr(e, _) | TyKind::Ref(e, _) => {
            assert(part_of(*e, ty));
            assert(concrete(ty) <==> (!generic_leaf(ty) && forall|t: TyKind| #[trigger] part_of(t, ty)
                ==> concrete(t)));
        },
        TyKind::FnPtr(inputs, output) => {
            law_tys_concrete(inputs@);
            assert(part_of(*output, ty));
            assert(concrete(ty) == (tys_concrete(inputs@) && concrete(*output)));
            if concrete(ty) {
                assert forall|t: TyKind| #[trigger] part_of(t, ty) implies concrete(t) by {
                    if *output != t {
                        assert(type_in(t, inputs@));
                    }
                }
            } else if tys_concrete(inputs@) {
                assert(!concrete(*output));
            } else {
                let t = choose|t: TyKind| type_in(t, inputs@) && !concrete(t);
                assert(part_of(t, ty));
            }
            assert(concrete(ty) <==> (!generic_leaf(ty) && forall|t: TyKind| #[trigger] part_of(t, ty)
                ==> concrete(t)));
        },
        _ => {
            assert(concrete(ty) <==> (!generic_leaf(ty) && forall|t: TyKind| #[trigger] part_of(t, ty)
                ==> concrete(t)));
        },
    }
}

} // verus!
