use solcore::ast::{
    AstType, ContractDef, ContractKind, DocTag, EnumDef, EventDef, FunctionDef, SourceUnit,
    StructDef, Visibility,
};
use solcore::diag::{Level, Loc};
use solcore::types::VTy;

fn loc(n: usize) -> Loc {
    Loc { start: n, end: n + 1 }
}

fn empty_unit() -> SourceUnit {
    SourceUnit { contracts: vec![], enums: vec![], structs: vec![], events: vec![] }
}

fn plain_contract(n: usize, name: &str, bases: Vec<&str>, functions: Vec<FunctionDef>) -> ContractDef {
    ContractDef {
        loc: loc(n),
        name: name.to_string(),
        kind: ContractKind::Contract,
        bases: bases.into_iter().map(|b| b.to_string()).collect(),
        variables: vec![],
        functions,
        tags: vec![],
    }
}

fn sig(n: usize, name: &str, params: Vec<AstType>) -> FunctionDef {
    FunctionDef {
        loc: loc(n),
        name: name.to_string(),
        params: params
            .into_iter()
            .enumerate()
            .map(|(i, t)| (format!("p{}", i), t))
            .collect(),
        returns: None,
        visibility: Visibility::Public,
        body: vec![],
    }
}

#[test]
fn circular_bases_are_fatal() {
    // contract a is b; contract b is a: a fatal diagnostic, and the
    // linearizer still returns
    let mut unit = empty_unit();
    unit.contracts.push(plain_contract(1, "a", vec!["b"], vec![]));
    unit.contracts.push(plain_contract(2, "b", vec!["a"], vec![]));
    let ns = solcore::sema::resolver(&vec![unit]);
    assert!(ns
        .diagnostics
        .iter()
        .any(|d| matches!(d.level, Level::Fatal)));
    // the guarded traversal terminates and visits both contracts once
    let order = solcore::bases::visit_bases(0, &ns);
    assert_eq!(order, vec![0, 1]);
}

#[test]
fn linearization_dedups_diamonds() {
    // d is b, c; b is a; c is a: the diamond base a appears once
    let mut unit = empty_unit();
    unit.contracts.push(plain_contract(1, "d", vec!["b", "c"], vec![]));
    unit.contracts.push(plain_contract(2, "b", vec!["a"], vec![]));
    unit.contracts.push(plain_contract(3, "c", vec!["a"], vec![]));
    unit.contracts.push(plain_contract(4, "a", vec![], vec![]));
    let ns = solcore::sema::resolver(&vec![unit]);
    assert!(!solcore::diag::has_error(&ns.diagnostics));
    let order = solcore::bases::visit_bases(0, &ns);
    assert_eq!(order, vec![0, 1, 3, 2]);
}

#[test]
fn overloads_prefer_exact_then_most_derived() {
    // base declares f(uint64); derived declares f(uint32)
    let mut unit = empty_unit();
    unit.contracts.push(plain_contract(
        1,
        "derived",
        vec!["base"],
        vec![sig(10, "f", vec![AstType::Uint(32)])],
    ));
    unit.contracts.push(plain_contract(
        2,
        "base",
        vec![],
        vec![sig(11, "f", vec![AstType::Uint(64)])],
    ));
    let ns = solcore::sema::resolver(&vec![unit]);
    assert!(!solcore::diag::has_error(&ns.diagnostics));
    let order = solcore::bases::visit_bases(0, &ns);
    let mut diags = vec![];
    // a 32-bit argument fits both, but the derived overload needs no widening
    let r = solcore::sema::resolve_call(
        &ns.contracts,
        &order,
        &"f".to_string(),
        &vec![VTy::Uint(32)],
        loc(99),
        &mut diags,
    );
    assert_eq!(r, Ok((0, 0)));
    // a 64-bit argument only fits the base overload
    let r = solcore::sema::resolve_call(
        &ns.contracts,
        &order,
        &"f".to_string(),
        &vec![VTy::Uint(64)],
        loc(99),
        &mut diags,
    );
    assert_eq!(r, Ok((1, 0)));
    assert!(diags.is_empty());
    // no overload takes a boolean: reported, not silently picked
    let r = solcore::sema::resolve_call(
        &ns.contracts,
        &order,
        &"f".to_string(),
        &vec![VTy::Bool],
        loc(99),
        &mut diags,
    );
    assert_eq!(r, Err(()));
    assert!(!diags.is_empty());
}

#[test]
fn diamond_overload_most_derived_wins_among_widening() {
    // both bases declare g(uint64); the call site passes uint32, so both
    // need widening, and the earlier base in the linearization wins
    let mut unit = empty_unit();
    unit.contracts.push(plain_contract(1, "d", vec!["b", "c"], vec![]));
    unit.contracts.push(plain_contract(
        2,
        "b",
        vec![],
        vec![sig(10, "g", vec![AstType::Uint(64)])],
    ));
    unit.contracts.push(plain_contract(
        3,
        "c",
        vec![],
        vec![sig(11, "g", vec![AstType::Uint(64)])],
    ));
    let ns = solcore::sema::resolver(&vec![unit]);
    let order = solcore::bases::visit_bases(0, &ns);
    assert_eq!(order, vec![0, 1, 2]);
    let mut diags = vec![];
    let r = solcore::sema::resolve_call(
        &ns.contracts,
        &order,
        &"g".to_string(),
        &vec![VTy::Uint(32)],
        loc(99),
        &mut diags,
    );
    assert_eq!(r, Ok((1, 0)));
}

#[test]
fn enum_positions_are_authoritative() {
    // values declared out of textual order still land at their positions
    let mut unit = empty_unit();
    unit.enums.push(EnumDef {
        loc: loc(1),
        name: "color".to_string(),
        contract: None,
        values: vec![
            ("blue".to_string(), 2),
            ("red".to_string(), 0),
            ("green".to_string(), 1),
        ],
        tags: vec![],
    });
    let ns = solcore::sema::resolver(&vec![unit]);
    assert!(!solcore::diag::has_error(&ns.diagnostics));
    let top = solcore::docgen::gather_docs(&vec![ns]);
    assert_eq!(top.enums.len(), 1);
    assert_eq!(
        top.enums[0].field,
        vec!["red".to_string(), "green".to_string(), "blue".to_string()]
    );
}

#[test]
fn enum_position_gaps_are_rejected() {
    // two values share position 1 and position 0 is never used
    let mut unit = empty_unit();
    unit.enums.push(EnumDef {
        loc: loc(1),
        name: "bad".to_string(),
        contract: None,
        values: vec![("x".to_string(), 1), ("y".to_string(), 1)],
        tags: vec![],
    });
    let ns = solcore::sema::resolver(&vec![unit]);
    assert!(solcore::diag::has_error(&ns.diagnostics));
    assert_eq!(ns.enums.len(), 0);
}

#[test]
fn param_tags_attach_by_index() {
    // the tag for position 1 arrives before the tag for position 0: each
    // still documents its own field
    let mut unit = empty_unit();
    unit.events.push(EventDef {
        loc: loc(1),
        name: "transfer".to_string(),
        contract: None,
        fields: vec![
            ("from".to_string(), AstType::Uint(256), true),
            ("amount".to_string(), AstType::Uint(256), false),
        ],
        anonymous: false,
        tags: vec![
            DocTag { tag: "param".to_string(), no: 1, value: "the amount moved".to_string() },
            DocTag { tag: "param".to_string(), no: 0, value: "the sender".to_string() },
            DocTag { tag: "notice".to_string(), no: 0, value: "a transfer happened".to_string() },
        ],
    });
    let ns = solcore::sema::resolver(&vec![unit]);
    assert!(!solcore::diag::has_error(&ns.diagnostics));
    let top = solcore::docgen::gather_docs(&vec![ns]);
    assert_eq!(top.events.len(), 1);
    let ev = &top.events[0];
    assert_eq!(ev.field[0].doc, Some("the sender".to_string()));
    assert_eq!(ev.field[1].doc, Some("the amount moved".to_string()));
    assert_eq!(ev.notice, Some("a transfer happened".to_string()));
}

#[test]
fn param_tag_beyond_fields_is_reported() {
    let mut unit = empty_unit();
    unit.structs.push(StructDef {
        loc: loc(1),
        name: "pair".to_string(),
        contract: None,
        fields: vec![
            ("x".to_string(), AstType::Uint(32)),
            ("y".to_string(), AstType::Uint(32)),
        ],
        tags: vec![DocTag { tag: "param".to_string(), no: 5, value: "nothing".to_string() }],
    });
    let ns = solcore::sema::resolver(&vec![unit]);
    // never a silent drop: a diagnostic records the malformed tag
    assert!(solcore::diag::has_error(&ns.diagnostics));
}

#[test]
fn own_and_inherited_variables_are_disjoint() {
    let base_var = solcore::ast::VariableDef {
        loc: loc(20),
        name: "x".to_string(),
        ty: AstType::Uint(32),
        constant: false,
        visibility: Visibility::Public,
        initializer: None,
        tags: vec![],
    };
    let own_var = solcore::ast::VariableDef {
        loc: loc(21),
        name: "y".to_string(),
        ty: AstType::Uint(32),
        constant: false,
        visibility: Visibility::Public,
        initializer: None,
        tags: vec![],
    };
    let mut unit = empty_unit();
    let mut derived = plain_contract(1, "derived", vec!["base"], vec![]);
    derived.variables.push(own_var);
    let mut base = plain_contract(2, "base", vec![], vec![]);
    base.variables.push(base_var);
    unit.contracts.push(derived);
    unit.contracts.push(base);
    let ns = solcore::sema::resolver(&vec![unit]);
    assert!(!solcore::diag::has_error(&ns.diagnostics));
    let top = solcore::docgen::gather_docs(&vec![ns]);
    let d = &top.contracts[0];
    assert_eq!(d.name, "derived");
    // its own variable carries no base name; the inherited one names "base"
    assert_eq!(d.variables.len(), 1);
    assert_eq!(d.variables[0].name, "y");
    assert!(d.variables[0].base_contract.is_none());
    assert_eq!(d.base_variables.len(), 1);
    assert_eq!(d.base_variables[0].name, "x");
    assert_eq!(d.base_variables[0].base_contract, Some("base".to_string()));
    // together: every member visible on an instance, exactly once
    assert_eq!(d.variables.len() + d.base_variables.len(), 2);
}

#[test]
fn duplicate_locations_are_recorded_once() {
    // the same declarations observed through two inclusion paths
    let mk = || {
        let mut unit = empty_unit();
        unit.enums.push(EnumDef {
            loc: loc(1),
            name: "e".to_string(),
            contract: None,
            values: vec![("a".to_string(), 0)],
            tags: vec![],
        });
        unit.contracts.push(plain_contract(2, "c", vec![], vec![]));
        unit
    };
    let ns = solcore::sema::resolver(&vec![mk(), mk()]);
    assert!(!solcore::diag::has_error(&ns.diagnostics));
    assert_eq!(ns.enums.len(), 1);
    assert_eq!(ns.contracts.len(), 1);
    // deduplication also applies across already-resolved namespaces
    let ns2 = solcore::sema::resolver(&vec![mk()]);
    let top = solcore::docgen::gather_docs(&vec![ns, ns2]);
    assert_eq!(top.enums.len(), 1);
    assert_eq!(top.contracts.len(), 1);
}

#[test]
fn wide_arithmetic_wraps_at_the_declared_width() {
    // at width 256: b = 2^64, c = 2 * 2^64, b * 2 == c
    let b = vec![0u32, 0, 1, 0, 0, 0, 0, 0];
    let two = {
        let mut v = vec![2u32];
        v.resize(8, 0);
        v
    };
    let c = vec![0u32, 0, 2, 0, 0, 0, 0, 0];
    let prod = solcore::wide::wide_mul(&b, &two);
    assert!(solcore::wide::wide_eq(&prod, &c));

    // addition wraps modulo 2^256: all ones plus one is zero
    let ones = vec![u32::MAX; 8];
    let one = {
        let mut v = vec![1u32];
        v.resize(8, 0);
        v
    };
    let sum = solcore::wide::wide_add(&ones, &one);
    assert_eq!(sum, vec![0u32; 8]);

    // multiplication wraps too: 2^192 * 2^128 has every in-range bit cut off
    let p192 = {
        let mut v = vec![0u32; 8];
        v[6] = 1;
        v
    };
    let p128 = {
        let mut v = vec![0u32; 8];
        v[4] = 1;
        v
    };
    assert_eq!(solcore::wide::wide_mul(&p192, &p128), vec![0u32; 8]);

    // subtraction wraps upward: 0 - 1 is 2^256 - 1
    let zero = vec![0u32; 8];
    assert_eq!(solcore::wide::wide_sub(&zero, &one), vec![u32::MAX; 8]);
}

#[test]
fn unresolved_namespaces_never_reach_codegen() {
    let mut unit = empty_unit();
    unit.contracts.push(plain_contract(
        1,
        "broken",
        vec!["nowhere"],
        vec![],
    ));
    let ns = solcore::sema::resolver(&vec![unit]);
    assert!(solcore::diag::has_error(&ns.diagnostics));
    assert!(solcore::cfg::emit_contract(&ns, 0).is_err());
}

#[test]
fn narrowing_is_explicit_and_wraps() {
    // 5 + 7 * 2^32 at width 128
    let v = vec![5u32, 7, 0, 0];
    assert!(!solcore::wide::fits(&v, 1));
    assert!(solcore::wide::fits(&v, 2));
    // explicit narrowing keeps the value modulo 2^32
    let t = solcore::wide::truncate(&v, 1);
    assert_eq!(t, vec![5u32]);
    // widening never changes the value
    let w = solcore::wide::widen(&t, 4);
    assert_eq!(w, vec![5u32, 0, 0, 0]);
}
