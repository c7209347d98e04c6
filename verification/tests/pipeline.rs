use solcore::ast::{
    AstType, ContractDef, ContractKind, Expr, FunctionDef, SourceUnit, Stmt, Visibility,
};
use solcore::diag::{has_error, Loc};
use solcore::vm::{Instance, Value};

fn loc(n: usize) -> Loc {
    Loc { start: n, end: n + 1 }
}

fn unit_of(contract: ContractDef) -> SourceUnit {
    SourceUnit { contracts: vec![contract], enums: vec![], structs: vec![], events: vec![] }
}

fn build_contract(unit: SourceUnit) -> Instance {
    let units = vec![unit];
    let ns = solcore::sema::resolver(&units);
    assert!(!has_error(&ns.diagnostics), "resolve should succeed");
    assert_eq!(ns.contracts.len(), 1);
    let obj = solcore::cfg::emit_contract(&ns, 0)
        .unwrap_or_else(|_| panic!("emit should work"));
    let module = solcore::link::link(vec![obj]).unwrap_or_else(|_| panic!("link should work"));
    let mut main = solcore::vm::instantiate(module);
    main.run_start().expect("Failed to run start function in module");
    main
}

fn num(v: Vec<u32>) -> Expr {
    Expr::NumberLiteral(v)
}

fn var(n: &str) -> Expr {
    Expr::Variable(n.to_string())
}

fn u32val(ret: Option<Value>) -> u32 {
    match ret {
        Some(Value::Int(limbs)) => {
            assert_eq!(limbs.len(), 1);
            limbs[0]
        }
        _ => panic!("expected a one-limb integer result"),
    }
}

fn boolval(ret: Option<Value>) -> bool {
    match ret {
        Some(Value::Bool(b)) => b,
        _ => panic!("expected a boolean result"),
    }
}

#[test]
fn simple_solidiy_compile_and_run() {
    let main = build_contract(unit_of(ContractDef {
        loc: loc(1),
        name: "test".to_string(),
        kind: ContractKind::Contract,
        bases: vec![],
        variables: vec![],
        functions: vec![FunctionDef {
            loc: loc(2),
            name: "foo".to_string(),
            params: vec![],
            returns: Some(AstType::Uint(32)),
            visibility: Visibility::Public,
            body: vec![Stmt::Return(Some(num(vec![2])))],
        }],
        tags: vec![],
    }));

    let mut main = main;
    let ret = main.invoke_export("foo", vec![], 1_000_000).expect("failed to call function");

    assert_eq!(u32val(ret), 2);
}

fn loops_contract() -> ContractDef {
    // function foo(uint32 a) returns (uint32) {
    //     uint32 b = 50 - a; uint32 c; c = 100 * b; c += 5;
    //     return a * 1000 + c;
    // }
    let foo = FunctionDef {
        loc: loc(2),
        name: "foo".to_string(),
        params: vec![("a".to_string(), AstType::Uint(32))],
        returns: Some(AstType::Uint(32)),
        visibility: Visibility::Public,
        body: vec![
            Stmt::VarDecl(
                "b".to_string(),
                AstType::Uint(32),
                Some(Expr::Sub(Box::new(num(vec![50])), Box::new(var("a")))),
            ),
            Stmt::VarDecl("c".to_string(), AstType::Uint(32), None),
            Stmt::Assign(
                "c".to_string(),
                Expr::Mul(Box::new(num(vec![100])), Box::new(var("b"))),
            ),
            Stmt::Assign(
                "c".to_string(),
                Expr::Add(Box::new(var("c")), Box::new(num(vec![5]))),
            ),
            Stmt::Return(Some(Expr::Add(
                Box::new(Expr::Mul(Box::new(var("a")), Box::new(num(vec![1000])))),
                Box::new(var("c")),
            ))),
        ],
    };
    // function bar(uint32 b, bool x) returns (uint32) {
    //     uint32 i = 1;
    //     if (x) { do { i += 10; } while (b-- > 0); }
    //     else { uint32 j; for (j = 2; j < 10; j++) { i *= 3; } }
    //     return i;
    // }
    let bar = FunctionDef {
        loc: loc(3),
        name: "bar".to_string(),
        params: vec![
            ("b".to_string(), AstType::Uint(32)),
            ("x".to_string(), AstType::Bool),
        ],
        returns: Some(AstType::Uint(32)),
        visibility: Visibility::Public,
        body: vec![
            Stmt::VarDecl("i".to_string(), AstType::Uint(32), Some(num(vec![1]))),
            Stmt::If(
                var("x"),
                vec![Stmt::DoWhile(
                    vec![Stmt::Assign(
                        "i".to_string(),
                        Expr::Add(Box::new(var("i")), Box::new(num(vec![10]))),
                    )],
                    Expr::Gt(
                        Box::new(Expr::PostDecr("b".to_string())),
                        Box::new(num(vec![0])),
                    ),
                )],
                vec![
                    Stmt::VarDecl("j".to_string(), AstType::Uint(32), None),
                    Stmt::For(
                        Some(Box::new(Stmt::Assign("j".to_string(), num(vec![2])))),
                        Some(Expr::Lt(Box::new(var("j")), Box::new(num(vec![10])))),
                        Some(Box::new(Stmt::Expression(Expr::PostIncr("j".to_string())))),
                        vec![Stmt::Assign(
                            "i".to_string(),
                            Expr::Mul(Box::new(var("i")), Box::new(num(vec![3]))),
                        )],
                    ),
                ],
            ),
            Stmt::Return(Some(var("i"))),
        ],
    };
    // function baz(uint32 x) returns (uint32) {
    //     for (uint32 i = 0; i < 100; i++) {
    //         x *= 7; if (x > 200) { break; } x++;
    //     }
    //     return x;
    // }
    let baz = FunctionDef {
        loc: loc(4),
        name: "baz".to_string(),
        params: vec![("x".to_string(), AstType::Uint(32))],
        returns: Some(AstType::Uint(32)),
        visibility: Visibility::Public,
        body: vec![
            Stmt::For(
                Some(Box::new(Stmt::VarDecl(
                    "i".to_string(),
                    AstType::Uint(32),
                    Some(num(vec![0])),
                ))),
                Some(Expr::Lt(Box::new(var("i")), Box::new(num(vec![100])))),
                Some(Box::new(Stmt::Expression(Expr::PostIncr("i".to_string())))),
                vec![
                    Stmt::Assign(
                        "x".to_string(),
                        Expr::Mul(Box::new(var("x")), Box::new(num(vec![7]))),
                    ),
                    Stmt::If(
                        Expr::Gt(Box::new(var("x")), Box::new(num(vec![200]))),
                        vec![Stmt::Break],
                        vec![],
                    ),
                    Stmt::Assign(
                        "x".to_string(),
                        Expr::Add(Box::new(var("x")), Box::new(num(vec![1]))),
                    ),
                ],
            ),
            Stmt::Return(Some(var("x"))),
        ],
    };
    ContractDef {
        loc: loc(1),
        name: "test3".to_string(),
        kind: ContractKind::Contract,
        bases: vec![],
        variables: vec![],
        functions: vec![foo, bar, baz],
        tags: vec![],
    }
}

#[test]
fn simple_loops() {
    let mut main = build_contract(unit_of(loops_contract()));

    for i in 0..=50u32 {
        let res = ((50 - i) * 100 + 5) + i * 1000;

        let ret = main
            .invoke_export("foo", vec![Value::Int(vec![i])], 1_000_000)
            .expect("failed to call function");

        assert_eq!(u32val(ret), res);
    }

    for i in 0..=50u32 {
        let res = (i + 1) * 10 + 1;

        let ret = main
            .invoke_export(
                "bar",
                vec![Value::Int(vec![i]), Value::Bool(true)],
                1_000_000,
            )
            .expect("failed to call function");

        assert_eq!(u32val(ret), res);
    }

    for i in 0..=50u32 {
        let mut res = 1;

        for _ in 2..10 {
            res *= 3;
        }

        let ret = main
            .invoke_export(
                "bar",
                vec![Value::Int(vec![i]), Value::Bool(false)],
                1_000_000,
            )
            .expect("failed to call function");

        assert_eq!(u32val(ret), res);
    }

    for i in 1..=50u32 {
        let mut res = i;

        for _ in 0..100 {
            res = res * 7;
            if res > 200 {
                break;
            }
            res += 1;
        }

        let ret = main
            .invoke_export("baz", vec![Value::Int(vec![i])], 1_000_000)
            .expect("failed to call function");

        assert_eq!(u32val(ret), res);
    }
}

#[test]
fn stack_test() {
    // uint b = 18446744073709551616; uint c = 36893488147419103232;
    // return b * 2 == c;
    let main = build_contract(unit_of(ContractDef {
        loc: loc(1),
        name: "test3".to_string(),
        kind: ContractKind::Contract,
        bases: vec![],
        variables: vec![],
        functions: vec![FunctionDef {
            loc: loc(2),
            name: "foo".to_string(),
            params: vec![],
            returns: Some(AstType::Bool),
            visibility: Visibility::Public,
            body: vec![
                Stmt::VarDecl(
                    "b".to_string(),
                    AstType::Uint(256),
                    Some(num(vec![0, 0, 1])),
                ),
                Stmt::VarDecl(
                    "c".to_string(),
                    AstType::Uint(256),
                    Some(num(vec![0, 0, 2])),
                ),
                Stmt::Return(Some(Expr::Eq(
                    Box::new(Expr::Mul(Box::new(var("b")), Box::new(num(vec![2])))),
                    Box::new(var("c")),
                ))),
            ],
        }],
        tags: vec![],
    }));

    let mut main = main;
    let ret = main.invoke_export("foo", vec![], 1_000_000).expect("failed to call function");

    assert_eq!(boolval(ret), true);
}

#[test]
fn break_exits_innermost_loop() {
    // nested loops: the inner break must resume after the inner loop, so
    // the outer loop still runs all three rounds
    let main = build_contract(unit_of(ContractDef {
        loc: loc(1),
        name: "nest".to_string(),
        kind: ContractKind::Contract,
        bases: vec![],
        variables: vec![],
        functions: vec![FunctionDef {
            loc: loc(2),
            name: "nested".to_string(),
            params: vec![("n".to_string(), AstType::Uint(32))],
            returns: Some(AstType::Uint(32)),
            visibility: Visibility::Public,
            body: vec![
                Stmt::VarDecl("total".to_string(), AstType::Uint(32), Some(num(vec![0]))),
                Stmt::VarDecl("i".to_string(), AstType::Uint(32), Some(num(vec![0]))),
                Stmt::While(
                    Expr::Lt(Box::new(var("i")), Box::new(num(vec![3]))),
                    vec![
                        Stmt::VarDecl("j".to_string(), AstType::Uint(32), Some(num(vec![0]))),
                        Stmt::While(
                            Expr::Lt(Box::new(var("j")), Box::new(num(vec![10]))),
                            vec![
                                Stmt::If(
                                    Expr::Eq(Box::new(var("j")), Box::new(var("n"))),
                                    vec![Stmt::Break],
                                    vec![],
                                ),
                                Stmt::Expression(Expr::PostIncr("j".to_string())),
                            ],
                        ),
                        Stmt::Assign(
                            "total".to_string(),
                            Expr::Add(Box::new(var("total")), Box::new(var("j"))),
                        ),
                        Stmt::Expression(Expr::PostIncr("i".to_string())),
                    ],
                ),
                Stmt::Return(Some(var("total"))),
            ],
        }],
        tags: vec![],
    }));

    let mut main = main;
    // inner loop stops at j == 4 each round; three outer rounds proceed
    let ret = main
        .invoke_export("nested", vec![Value::Int(vec![4])], 1_000_000)
        .expect("failed to call function");
    assert_eq!(u32val(ret), 12);

    // n beyond the inner bound: the inner loop runs to 10, three rounds
    let ret = main
        .invoke_export("nested", vec![Value::Int(vec![11])], 1_000_000)
        .expect("failed to call function");
    assert_eq!(u32val(ret), 30);
}

#[test]
fn startup_gates_exports() {
    let obj = solcore::cfg::emit_contract(
        &solcore::sema::resolver(&vec![unit_of(loops_contract())]),
        0,
    )
    .unwrap_or_else(|_| panic!("emit should work"));
    let module = solcore::link::link(vec![obj]).unwrap_or_else(|_| panic!("link should work"));
    let mut inst = solcore::vm::instantiate(module);
    // before the startup routine completes, no export is callable
    let r = inst.invoke_export("foo", vec![Value::Int(vec![1])], 1_000_000);
    assert!(r.is_err());
    inst.run_start().expect("start should succeed");
    let ret = inst
        .invoke_export("foo", vec![Value::Int(vec![1])], 1_000_000)
        .expect("failed to call function");
    assert_eq!(u32val(ret), 1 * 1000 + (100 * 49 + 5));
}

#[test]
fn storage_variables_persist() {
    // contract with a storage counter and a constant
    let c = ContractDef {
        loc: loc(1),
        name: "counter".to_string(),
        kind: ContractKind::Contract,
        bases: vec![],
        variables: vec![
            solcore::ast::VariableDef {
                loc: loc(10),
                name: "count".to_string(),
                ty: AstType::Uint(32),
                constant: false,
                visibility: Visibility::Public,
                initializer: Some(num(vec![7])),
                tags: vec![],
            },
            solcore::ast::VariableDef {
                loc: loc(11),
                name: "step".to_string(),
                ty: AstType::Uint(32),
                constant: true,
                visibility: Visibility::Internal,
                initializer: Some(num(vec![2])),
                tags: vec![],
            },
        ],
        functions: vec![
            FunctionDef {
                loc: loc(2),
                name: "bump".to_string(),
                params: vec![],
                returns: None,
                visibility: Visibility::Public,
                body: vec![Stmt::Assign(
                    "count".to_string(),
                    Expr::Add(Box::new(var("count")), Box::new(var("step"))),
                )],
            },
            FunctionDef {
                loc: loc(3),
                name: "get".to_string(),
                params: vec![],
                returns: Some(AstType::Uint(32)),
                visibility: Visibility::Public,
                body: vec![Stmt::Return(Some(var("count")))],
            },
        ],
        tags: vec![],
    };
    let mut main = build_contract(unit_of(c));
    // the initializer ran at startup
    let ret = main.invoke_export("get", vec![], 1_000_000).expect("failed to call function");
    assert_eq!(u32val(ret), 7);
    main.invoke_export("bump", vec![], 1_000_000).expect("failed to call function");
    main.invoke_export("bump", vec![], 1_000_000).expect("failed to call function");
    let ret = main.invoke_export("get", vec![], 1_000_000).expect("failed to call function");
    assert_eq!(u32val(ret), 11);
}

#[test]
fn missing_symbol_is_a_link_error() {
    // an object calling a symbol nothing defines must fail to link, naming it
    let obj = solcore::cfg::Object {
        contract_no: 0,
        name: "lonely".to_string(),
        funcs: vec![solcore::cfg::FuncObj {
            contract_no: 0,
            fn_no: 0,
            name: "caller".to_string(),
            export: true,
            params: vec![],
            ret: None,
            reg_tys: vec![],
            blocks: vec![solcore::cfg::Block {
                ins: vec![solcore::cfg::Ins::Call(0, None, vec![])],
                term: solcore::cfg::Term::Ret(None),
            }],
            symbols: vec![(0, 9, "ghostly".to_string())],
        }],
        storage: vec![],
    };
    match solcore::link::link(vec![obj]) {
        Err(solcore::link::LinkError::Unresolved(name)) => assert_eq!(name, "ghostly"),
        _ => panic!("link must fail on the unresolved symbol"),
    }
}

#[test]
fn calls_dispatch_to_resolved_overloads() {
    // an internal helper is callable from inside but never exported
    let main = build_contract(unit_of(ContractDef {
        loc: loc(1),
        name: "dispatch".to_string(),
        kind: ContractKind::Contract,
        bases: vec![],
        variables: vec![],
        functions: vec![
            FunctionDef {
                loc: loc(2),
                name: "double".to_string(),
                params: vec![("x".to_string(), AstType::Uint(32))],
                returns: Some(AstType::Uint(32)),
                visibility: Visibility::Internal,
                body: vec![Stmt::Return(Some(Expr::Mul(
                    Box::new(var("x")),
                    Box::new(num(vec![2])),
                )))],
            },
            FunctionDef {
                loc: loc(3),
                name: "quad".to_string(),
                params: vec![("a".to_string(), AstType::Uint(32))],
                returns: Some(AstType::Uint(32)),
                visibility: Visibility::Public,
                body: vec![Stmt::Return(Some(Expr::Call(
                    "double".to_string(),
                    vec![Expr::Call("double".to_string(), vec![var("a")])],
                )))],
            },
        ],
        tags: vec![],
    }));

    let mut main = main;
    let ret = main
        .invoke_export("quad", vec![Value::Int(vec![5])], 1_000_000)
        .expect("failed to call function");
    assert_eq!(u32val(ret), 20);

    // internal functions are not entry points
    assert!(main
        .invoke_export("double", vec![Value::Int(vec![5])], 1_000_000)
        .is_err());
}

#[test]
fn inherited_functions_are_compiled_in() {
    // the derived contract calls a function it only inherits
    let base = ContractDef {
        loc: loc(10),
        name: "base".to_string(),
        kind: ContractKind::Contract,
        bases: vec![],
        variables: vec![],
        functions: vec![FunctionDef {
            loc: loc(11),
            name: "two".to_string(),
            params: vec![],
            returns: Some(AstType::Uint(32)),
            visibility: Visibility::Internal,
            body: vec![Stmt::Return(Some(num(vec![2])))],
        }],
        tags: vec![],
    };
    let derived = ContractDef {
        loc: loc(1),
        name: "derived".to_string(),
        kind: ContractKind::Contract,
        bases: vec!["base".to_string()],
        variables: vec![],
        functions: vec![FunctionDef {
            loc: loc(2),
            name: "six".to_string(),
            params: vec![],
            returns: Some(AstType::Uint(32)),
            visibility: Visibility::Public,
            body: vec![Stmt::Return(Some(Expr::Mul(
                Box::new(Expr::Call("two".to_string(), vec![])),
                Box::new(num(vec![3])),
            )))],
        }],
        tags: vec![],
    };
    let unit = SourceUnit {
        contracts: vec![derived, base],
        enums: vec![],
        structs: vec![],
        events: vec![],
    };
    let ns = solcore::sema::resolver(&vec![unit]);
    assert!(!has_error(&ns.diagnostics), "resolve should succeed");
    let obj = solcore::cfg::emit_contract(&ns, 0)
        .unwrap_or_else(|_| panic!("emit should work"));
    let module = solcore::link::link(vec![obj]).unwrap_or_else(|_| panic!("link should work"));
    let mut main = solcore::vm::instantiate(module);
    main.run_start().expect("Failed to run start function in module");
    let ret = main.invoke_export("six", vec![], 1_000_000).expect("failed to call function");
    assert_eq!(u32val(ret), 6);
}

#[test]
fn startup_failure_is_reported() {
    // a storage image whose initializer does not fit its declared type
    let module = solcore::link::Module {
        funcs: vec![],
        exports: vec![],
        storage: vec![(solcore::types::VTy::Bool, solcore::cfg::InitVal::Int(vec![1]))],
    };
    let mut inst = solcore::vm::instantiate(module);
    assert!(matches!(inst.run_start(), Err(solcore::vm::Trap::StartupFailure)));
    // and the instance stays unusable
    assert!(inst.invoke_export("foo", vec![], 10).is_err());
}

#[test]
fn execution_is_fuel_bounded() {
    // while (true) {} never returns a wrong answer: it runs out of fuel
    let mut main = build_contract(unit_of(ContractDef {
        loc: loc(1),
        name: "spin".to_string(),
        kind: ContractKind::Contract,
        bases: vec![],
        variables: vec![],
        functions: vec![FunctionDef {
            loc: loc(2),
            name: "forever".to_string(),
            params: vec![],
            returns: None,
            visibility: Visibility::Public,
            body: vec![Stmt::While(Expr::BoolLiteral(true), vec![])],
        }],
        tags: vec![],
    }));
    let r = main.invoke_export("forever", vec![], 10_000);
    assert!(matches!(r, Err(solcore::vm::Trap::OutOfFuel)));
}
