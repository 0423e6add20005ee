use analysis::memory::utils::{
    are_concrete, is_concrete, summary_key_reads_parent_type, summary_key_str, DefPath, DefPathData, DisambiguatedDefPathData,
    GenericArg, IntTy, Mutability, ParentDef, TyKind, UintTy,
};

fn comp(data: DefPathData, disambiguator: u32) -> DisambiguatedDefPathData {
    DisambiguatedDefPathData { data, disambiguator }
}

fn type_ns(name: &str) -> DefPathData {
    DefPathData::TypeNs(name.to_string())
}

fn path(krate: &str, data: Vec<DisambiguatedDefPathData>) -> DefPath {
    DefPath { krate: krate.to_string(), data }
}

fn key(def: &DefPath, parent: &Option<ParentDef>) -> String {
    (*summary_key_str(def, parent)).clone()
}

#[test]
fn summary_key_of_plain_path() {
    let def = path(
        "std",
        vec![comp(type_ns("vec"), 0), comp(type_ns("Vec"), 0), comp(DefPathData::ValueNs("push".to_string()), 0)],
    );
    assert_eq!(key(&def, &None), "3_std.3_vec.3_Vec.value4_push");
}

#[test]
fn summary_key_of_root_and_special_components() {
    let def = path(
        "krate",
        vec![
            comp(DefPathData::CrateRoot, 0),
            comp(DefPathData::Misc, 0),
            comp(DefPathData::ClosureExpr, 0),
            comp(DefPathData::Ctor, 0),
            comp(DefPathData::AnonConst, 0),
            comp(DefPathData::ImplTrait, 0),
            comp(DefPathData::MacroNs("m".to_string()), 0),
            comp(DefPathData::LifetimeNs("a".to_string()), 0),
        ],
    );
    assert_eq!(
        key(&def, &None),
        "5_krate.root.Misc.closure.Ctor.anon.Impltrait.macro1_m.lifetime1_a"
    );
}

#[test]
fn summary_key_strips_foreign_contracts() {
    let def = path(
        "analyzer_foreign_contracts",
        vec![comp(type_ns("core"), 0), comp(type_ns("mem"), 0), comp(DefPathData::ValueNs("swap".to_string()), 0)],
    );
    // the contracts crate's path is keyed like the crate it stands for
    assert_eq!(key(&def, &None), "4_core.3_mem.value4_swap");
    let real = path("core", vec![comp(type_ns("mem"), 0), comp(DefPathData::ValueNs("swap".to_string()), 0)]);
    assert_eq!(key(&real, &None), "4_core.3_mem.value4_swap");
}

#[test]
fn summary_key_disambiguators() {
    let def = path(
        "k",
        vec![comp(type_ns("m"), 0), comp(DefPathData::ValueNs("f".to_string()), 3)],
    );
    assert_eq!(key(&def, &None), "1_k.1_m.value1_f_3");
    // an impl keeps its disambiguator
    let def = path(
        "k",
        vec![comp(type_ns("option"), 0), comp(DefPathData::Impl, 2), comp(DefPathData::ValueNs("map".to_string()), 0)],
    );
    assert_eq!(key(&def, &None), "1_k.6_option.impl_2.value3_map");
    let def = path("k", vec![comp(DefPathData::Impl, 12)]);
    assert_eq!(key(&def, &None), "1_k.impl_12");
    // two impls of one namespace get two keys
    let first = path("k", vec![comp(type_ns("m"), 0), comp(DefPathData::Impl, 1)]);
    let second = path("k", vec![comp(type_ns("m"), 0), comp(DefPathData::Impl, 2)]);
    assert_eq!(key(&first, &None), "1_k.1_m.impl_1");
    assert_eq!(key(&second, &None), "1_k.1_m.impl_2");
}

#[test]
fn summary_key_of_core_num_impl_uses_parent_type() {
    let def = path(
        "core",
        vec![comp(type_ns("num"), 0), comp(DefPathData::Impl, 5), comp(DefPathData::ValueNs("checked_add".to_string()), 0)],
    );
    let parent = Some(ParentDef { krate: "core".to_string(), ty: Some(TyKind::Uint(UintTy::U32)) });
    assert_eq!(key(&def, &parent), "4_core.3_num.impl_u32_5.value11_checked_add");
    // the same path with a parent in another crate does not read the type
    let other = Some(ParentDef { krate: "alloc".to_string(), ty: Some(TyKind::Uint(UintTy::U32)) });
    assert_eq!(key(&def, &other), "4_core.3_num.impl_5.value11_checked_add");
}

#[test]
fn summary_key_mangles_compound_parent_types() {
    let def = path("core", vec![comp(type_ns("num"), 0), comp(DefPathData::Impl, 1)]);
    let wrapping = path("core", vec![comp(type_ns("num"), 0), comp(type_ns("Wrapping"), 0)]);
    let ty = TyKind::Ref(
        Box::new(TyKind::Tuple(vec![
            TyKind::Adt(wrapping, vec![GenericArg::Type(TyKind::Int(IntTy::I64)), GenericArg::Lifetime]),
            TyKind::Slice(Box::new(TyKind::Bool)),
            TyKind::RawPtr(Box::new(TyKind::Char), Mutability::Not),
        ])),
        Mutability::Mut,
    );
    let parent = Some(ParentDef { krate: "core".to_string(), ty: Some(ty) });
    let k = key(&def, &parent);
    assert_eq!(k, "4_core.3_num.impl_refmtuple3_adt4_99_111_114_101_2_type3_110_117_109_0_type8_87_114_97_112_112_105_110_103_0_2_ti64lSliceboolRawcchar_1");
    // the mangled type is an identifier text
    let mangled = k.rsplit('.').next().unwrap();
    assert!(!mangled.is_empty());
    assert!(mangled.chars().all(|c| c.is_ascii_alphanumeric() || c == '_'));
}

#[test]
fn summary_key_mangles_function_and_other_types() {
    let def = path("core", vec![comp(type_ns("num"), 0), comp(DefPathData::Impl, 1)]);
    let f = path("k", vec![comp(DefPathData::ValueNs("f".to_string()), 2)]);
    let item = path("k", vec![comp(type_ns("Tr"), 0), comp(type_ns("Out"), 0)]);
    let cases: Vec<(TyKind, &str)> = vec![
        (TyKind::FnPtr(vec![TyKind::Str, TyKind::Never], Box::new(TyKind::Param("T".to_string()))), "pfn2_strneverGeneric1_84_"),
        (TyKind::FnDef(path("k", vec![comp(DefPathData::ValueNs("g".to_string()), 0)]), vec![]), "Fndef1_107_1_value1_103_0_0_"),
        (TyKind::Closure(f, vec![GenericArg::Type(TyKind::Float(analysis::memory::utils::FloatTy::F64))]), "Closure1_107_1_value1_102_2_1_tf64"),
        (TyKind::Dynamic(None, vec![]), "dynn0_"),
        (TyKind::Dynamic(None, vec![TyKind::Bool]), "dynn1_bool"),
        (TyKind::Projection(Box::new(TyKind::Param("S".to_string())), vec![], item), "ProjectionGeneric1_83_0_1_107_2_type2_84_114_0_type3_79_117_116_0_"),
        (TyKind::Array(Box::new(TyKind::Uint(UintTy::U8)), "4".to_string()), "Arrayu81_52_"),
        (TyKind::GeneratorWitness(vec![TyKind::Bool, TyKind::Char]), "witness2_boolchar"),
        (TyKind::Infer("_".to_string()), "Infer1_95_"),
        (TyKind::Error("{e}".to_string()), "Error3_123_101_125_"),
        (TyKind::Param("impl Debug".to_string()), "Generic10_105_109_112_108_32_68_101_98_117_103_"),
    ];
    for (ty, expected) in cases {
        let parent = Some(ParentDef { krate: "core".to_string(), ty: Some(ty) });
        let k = key(&def, &parent);
        assert_eq!(k, format!("4_core.3_num.impl_{}_1", expected));
        assert!(k.chars().all(|c| c.is_ascii_alphanumeric() || c == '_' || c == '.'));
    }
}

#[test]
fn manglings_tell_types_apart() {
    let def = path("core", vec![comp(type_ns("num"), 0), comp(DefPathData::Impl, 1)]);
    let mangle = |ty: TyKind| key(&def, &Some(ParentDef { krate: "core".to_string(), ty: Some(ty) }));
    // a name with `_` against two names
    let joined = path("a", vec![comp(type_ns("b_c"), 0)]);
    let split = path("a", vec![comp(type_ns("b"), 0), comp(type_ns("c"), 0)]);
    assert_ne!(mangle(TyKind::Adt(joined, vec![])), mangle(TyKind::Adt(split, vec![])));
    // arrays of two lengths
    let four = TyKind::Array(Box::new(TyKind::Uint(UintTy::U8)), "4".to_string());
    let eight = TyKind::Array(Box::new(TyKind::Uint(UintTy::U8)), "8".to_string());
    assert_ne!(mangle(four), mangle(eight));
    // one tuple of two types against a tuple in a tuple
    let flat = TyKind::Tuple(vec![TyKind::Bool, TyKind::Char]);
    let nested = TyKind::Tuple(vec![TyKind::Tuple(vec![TyKind::Bool]), TyKind::Char]);
    assert_ne!(mangle(flat), mangle(nested));
    // a type namespace against a value namespace of the same name
    let ty_ns = path("a", vec![comp(type_ns("x"), 0)]);
    let value_ns = path("a", vec![comp(DefPathData::ValueNs("x".to_string()), 0)]);
    assert_ne!(mangle(TyKind::FnDef(ty_ns, vec![])), mangle(TyKind::FnDef(value_ns, vec![])));
}

#[test]
fn concreteness() {
    let adt = |args: Vec<GenericArg>| TyKind::Adt(path("k", vec![comp(type_ns("A"), 0)]), args);
    assert!(is_concrete(&TyKind::Bool));
    assert!(!is_concrete(&TyKind::Param("T".to_string())));
    assert!(!is_concrete(&TyKind::Infer("?0".to_string())));
    assert!(is_concrete(&adt(vec![GenericArg::Type(TyKind::Bool), GenericArg::Lifetime])));
    assert!(!is_concrete(&adt(vec![GenericArg::Type(TyKind::Param("T".to_string()))])));
    assert!(!is_concrete(&TyKind::Ref(Box::new(TyKind::Param("T".to_string())), Mutability::Not)));
    assert!(!is_concrete(&TyKind::Tuple(vec![TyKind::Bool, TyKind::Error("e".to_string())])));
    // element, pointee, input and output types are looked into
    let param = || Box::new(TyKind::Param("T".to_string()));
    assert!(!is_concrete(&TyKind::Slice(param())));
    assert!(!is_concrete(&TyKind::Array(param(), "3".to_string())));
    assert!(!is_concrete(&TyKind::RawPtr(param(), Mutability::Mut)));
    assert!(!is_concrete(&TyKind::FnPtr(vec![TyKind::Bool], param())));
    assert!(!is_concrete(&TyKind::FnPtr(vec![TyKind::Bound("b".to_string())], Box::new(TyKind::Bool))));
    assert!(!is_concrete(&TyKind::GeneratorWitness(vec![TyKind::Infer("?1".to_string())])));
    let trait_path = || path("k", vec![comp(type_ns("Tr"), 0)]);
    assert!(!is_concrete(&TyKind::Dynamic(Some((trait_path(), vec![GenericArg::Type(TyKind::Param("T".to_string()))])), vec![])));
    assert!(is_concrete(&TyKind::Dynamic(Some((trait_path(), vec![GenericArg::Type(TyKind::Bool)])), vec![])));
    // the type that an associated type bound names is looked into
    assert!(!is_concrete(&TyKind::Dynamic(Some((trait_path(), vec![])), vec![TyKind::Param("T".to_string())])));
    assert!(is_concrete(&TyKind::Dynamic(Some((trait_path(), vec![])), vec![TyKind::Uint(UintTy::U8)])));
    assert!(is_concrete(&TyKind::Slice(Box::new(TyKind::Uint(UintTy::U8)))));
    assert!(is_concrete(&TyKind::Array(Box::new(TyKind::Bool), "3".to_string())));
    assert!(is_concrete(&TyKind::FnPtr(vec![TyKind::Str], Box::new(TyKind::Never))));
    assert!(are_concrete(&vec![GenericArg::Const, GenericArg::Type(TyKind::Str)]));
    assert!(!are_concrete(&vec![GenericArg::Type(TyKind::Str), GenericArg::Type(TyKind::Bound("b".to_string()))]));
    assert!(are_concrete(&vec![]));
}

#[test]
fn summary_key_reads_parent_type_only_for_core_num_impls() {
    let num_impl = path("core", vec![comp(type_ns("num"), 0), comp(DefPathData::Impl, 5)]);
    assert!(summary_key_reads_parent_type(&num_impl, &Some("core".to_string())));
    assert!(!summary_key_reads_parent_type(&num_impl, &Some("std".to_string())));
    assert!(!summary_key_reads_parent_type(&num_impl, &None));
    let first_impl = path("core", vec![comp(type_ns("num"), 0), comp(DefPathData::Impl, 0)]);
    assert!(!summary_key_reads_parent_type(&first_impl, &Some("core".to_string())));
    let other_ns = path("core", vec![comp(type_ns("option"), 0), comp(DefPathData::Impl, 3)]);
    assert!(!summary_key_reads_parent_type(&other_ns, &Some("core".to_string())));
    // without the type, a key that does not read it is still built
    let parent = Some(ParentDef { krate: "std".to_string(), ty: None });
    assert_eq!(key(&num_impl, &parent), "4_core.3_num.impl_5");
}

#[test]
fn summary_keys_tell_definitions_apart() {
    // a name that ends with a disambiguator's digits against a disambiguator
    let with_digits = path("c", vec![comp(type_ns("m"), 0), comp(DefPathData::ValueNs("baz_1".to_string()), 0)]);
    let disambiguated = path("c", vec![comp(type_ns("m"), 0), comp(DefPathData::ValueNs("baz".to_string()), 1)]);
    assert_eq!(key(&with_digits, &None), "1_c.1_m.value5_baz_1");
    assert_eq!(key(&disambiguated, &None), "1_c.1_m.value3_baz_1");
    // an impl against a value named like an impl's old key
    let imp = path("c", vec![comp(type_ns("m"), 0), comp(DefPathData::Impl, 1)]);
    let value = path("c", vec![comp(type_ns("m"), 0), comp(DefPathData::ValueNs("implement_m".to_string()), 1)]);
    assert_ne!(key(&imp, &None), key(&value, &None));
    // a type and a function of one name
    let ty = path("c", vec![comp(type_ns("x"), 0)]);
    let func = path("c", vec![comp(DefPathData::ValueNs("x".to_string()), 0)]);
    assert_ne!(key(&ty, &None), key(&func, &None));
    // a name with a `.` against two names
    let dotted = path("c", vec![comp(type_ns("a.b"), 0)]);
    let two = path("c", vec![comp(type_ns("a"), 0), comp(type_ns("b"), 0)]);
    assert_ne!(key(&dotted, &None), key(&two, &None));
}

#[test]
fn summary_key_is_the_same_for_the_same_path() {
    let build = || path("c", vec![comp(type_ns("num"), 0), comp(DefPathData::Impl, 3), comp(DefPathData::ValueNs("f".to_string()), 0)]);
    let parent = || Some(ParentDef { krate: "core".to_string(), ty: Some(TyKind::Int(IntTy::I8)) });
    assert_eq!(key(&build(), &parent()), key(&build(), &parent()));
    assert_eq!(key(&build(), &parent()), "1_c.3_num.impl_i8_3.value1_f");
}
