use rupair::analyzer::find_buffer_overflows;
use rupair::ast::{Expr, FnItem, Program, SrcPos, Stmt};
use rupair::frontend::Frontend;
use rupair::solver::BufferSolver;

fn pos(line: usize, column: usize) -> SrcPos {
    SrcPos { line, column }
}

/// A function body declaring a buffer of `count` elements, extracting a
/// pointer from it, and writing through the pointer at `offset`.
fn overflow_program(count: usize, offset: usize) -> Program {
    Program {
        functions: vec![FnItem {
            name: "main".to_string(),
            body: vec![
                Stmt::Local {
                    name: "buffer".to_string(),
                    mutable: true,
                    init: Some(Expr::BufferInit {
                        count: Some(count),
                        text: format!("vec![0u8; {}]", count),
                        pos: pos(2, 4),
                    }),
                    pos: pos(2, 4),
                },
                Stmt::Local {
                    name: "ptr".to_string(),
                    mutable: false,
                    init: Some(Expr::PtrExtract {
                        buffer: "buffer".to_string(),
                        mutable: true,
                        pos: pos(3, 4),
                    }),
                    pos: pos(3, 4),
                },
                Stmt::Unsafe {
                    body: vec![Stmt::ExprStmt {
                        expr: Expr::PtrWrite {
                            receiver: "ptr".to_string(),
                            offset: Some(offset),
                            arg: format!("{}", offset),
                            value: "42".to_string(),
                            pos: pos(5, 8),
                        },
                        pos: pos(5, 8),
                    }],
                    pos: pos(4, 4),
                },
            ],
            pos: pos(1, 0),
        }],
    }
}

#[test]
fn scenario_a_detects_and_confirms() {
    // buffer of 5 elements, offset literal 15 on a pointer derived from it
    let program = overflow_program(5, 15);
    let candidates = find_buffer_overflows(&program, Vec::new());
    assert_eq!(candidates.len(), 1);
    assert_eq!(candidates[0].buffer_name, "buffer");
    assert_eq!(candidates[0].buffer_size, Some(5));
    assert_eq!(candidates[0].offset, Some(15));
    assert_eq!(candidates[0].location, "main");

    let solver = BufferSolver::new();
    let constraint = solver.check_candidate(&candidates[0]);
    assert!(constraint.is_overflow);
}

#[test]
fn scenario_b_safe_offset_not_confirmed() {
    // buffer of 10 elements, offset literal 5: detected but not an overflow
    let program = overflow_program(10, 5);
    let candidates = find_buffer_overflows(&program, Vec::new());
    assert_eq!(candidates.len(), 1);

    let solver = BufferSolver::new();
    let constraint = solver.check_candidate(&candidates[0]);
    assert!(!constraint.is_overflow);
}

#[test]
fn scenario_c_boundary_offset_overflows() {
    // offset equal to the buffer size: overflow, buffers are zero-indexed
    let program = overflow_program(10, 10);
    let candidates = find_buffer_overflows(&program, Vec::new());
    assert_eq!(candidates.len(), 1);

    let solver = BufferSolver::new();
    let constraint = solver.check_candidate(&candidates[0]);
    assert!(constraint.is_overflow);
}

#[test]
fn scenario_d_two_buffers_one_confirmed() {
    // one buffer of 5 at offset 6 (overflow), one of 15 at offset 6 (safe)
    let program = Program {
        functions: vec![FnItem {
            name: "main".to_string(),
            body: vec![
                Stmt::Local {
                    name: "first".to_string(),
                    mutable: true,
                    init: Some(Expr::BufferInit {
                        count: Some(5),
                        text: "vec![0u8; 5]".to_string(),
                        pos: pos(2, 4),
                    }),
                    pos: pos(2, 4),
                },
                Stmt::Local {
                    name: "second".to_string(),
                    mutable: true,
                    init: Some(Expr::BufferInit {
                        count: Some(15),
                        text: "vec![0u8; 15]".to_string(),
                        pos: pos(3, 4),
                    }),
                    pos: pos(3, 4),
                },
                Stmt::Local {
                    name: "p1".to_string(),
                    mutable: false,
                    init: Some(Expr::PtrExtract {
                        buffer: "first".to_string(),
                        mutable: true,
                        pos: pos(4, 4),
                    }),
                    pos: pos(4, 4),
                },
                Stmt::Local {
                    name: "p2".to_string(),
                    mutable: false,
                    init: Some(Expr::PtrExtract {
                        buffer: "second".to_string(),
                        mutable: true,
                        pos: pos(5, 4),
                    }),
                    pos: pos(5, 4),
                },
                Stmt::ExprStmt {
                    expr: Expr::PtrWrite {
                        receiver: "p1".to_string(),
                        offset: Some(6),
                        arg: "6".to_string(),
                        value: "1".to_string(),
                        pos: pos(6, 4),
                    },
                    pos: pos(6, 4),
                },
                Stmt::ExprStmt {
                    expr: Expr::PtrWrite {
                        receiver: "p2".to_string(),
                        offset: Some(6),
                        arg: "6".to_string(),
                        value: "2".to_string(),
                        pos: pos(7, 4),
                    },
                    pos: pos(7, 4),
                },
            ],
            pos: pos(1, 0),
        }],
    };
    let candidates = find_buffer_overflows(&program, Vec::new());
    assert_eq!(candidates.len(), 2);

    let solver = BufferSolver::new();
    let confirmed: Vec<bool> = candidates
        .iter()
        .map(|c| solver.check_candidate(c).is_overflow)
        .collect();
    assert_eq!(confirmed.iter().filter(|b| **b).count(), 1);
    assert!(confirmed[0]); // the size-5 buffer at offset 6
    assert!(!confirmed[1]); // the size-15 buffer at offset 6
}

#[test]
fn pointer_from_unknown_origin_has_no_size() {
    // a pointer extracted from a name that was never bound still yields a
    // candidate when offset, with unknown size
    let program = Program {
        functions: vec![FnItem {
            name: "main".to_string(),
            body: vec![
                Stmt::Local {
                    name: "ptr".to_string(),
                    mutable: false,
                    init: Some(Expr::PtrExtract {
                        buffer: "mystery".to_string(),
                        mutable: false,
                        pos: pos(2, 4),
                    }),
                    pos: pos(2, 4),
                },
                Stmt::ExprStmt {
                    expr: Expr::PtrAdd {
                        receiver: "ptr".to_string(),
                        offset: Some(3),
                        arg: "3".to_string(),
                        pos: pos(3, 4),
                    },
                    pos: pos(3, 4),
                },
            ],
            pos: pos(1, 0),
        }],
    };
    let candidates = find_buffer_overflows(&program, Vec::new());
    assert_eq!(candidates.len(), 1);
    assert_eq!(candidates[0].buffer_size, None);
    assert_eq!(candidates[0].offset, Some(3));
}

#[test]
fn alias_model_is_function_scoped() {
    // a binding made in one function is not visible in the next
    let mut program = overflow_program(5, 15);
    program.functions.push(FnItem {
        name: "other".to_string(),
        body: vec![Stmt::ExprStmt {
            expr: Expr::PtrAdd {
                receiver: "ptr".to_string(),
                offset: Some(1),
                arg: "1".to_string(),
                pos: pos(10, 4),
            },
            pos: pos(10, 4),
        }],
        pos: pos(9, 0),
    });
    let candidates = find_buffer_overflows(&program, Vec::new());
    // only the first function's write is a candidate: `ptr` is unbound in `other`
    assert_eq!(candidates.len(), 1);
    assert_eq!(candidates[0].location, "main");
}

#[test]
fn test_parse_ast() {
    let mut frontend = Frontend::new();
    frontend.set_source_file("examples/test.rs".to_string());

    let program = overflow_program(10, 15);
    let result = frontend.analyze(&program);
    assert!(!result.unsafe_blocks.is_empty());
}

#[test]
fn frontend_collects_allocations_and_candidates() {
    let mut frontend = Frontend::new();
    let program = overflow_program(10, 15);
    let result = frontend.analyze(&program);
    assert_eq!(result.allocations, vec!["vec![0u8; 10]".to_string()]);
    assert_eq!(result.overflow_candidates.len(), 1);
    assert_eq!(result.overflow_candidates[0].offset, Some(15));
}
