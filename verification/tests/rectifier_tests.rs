use rupair::analyzer::{find_buffer_overflows, OverflowCandidate};
use rupair::ast::{BinOp, Expr, FnItem, Program, SrcPos, Stmt};
use rupair::rectifier::{lift_and_guard_expr, rectify_block, FixType, Rectifier};
use rupair::solver::{BufferConstraint, BufferSolver};

fn pos(line: usize, column: usize) -> SrcPos {
    SrcPos { line, column }
}

fn candidate(size: Option<usize>, offset: Option<usize>, line: usize) -> OverflowCandidate {
    OverflowCandidate {
        location: "main".to_string(),
        buffer_name: "buffer".to_string(),
        operation: "pointer_offset".to_string(),
        line,
        column: 8,
        buffer_size: size,
        offset,
    }
}

fn classic_source() -> String {
    "fn main() {\n    let mut buffer = vec![0u8; 10];\n    unsafe {\n        let ptr = buffer.as_mut_ptr();\n        *ptr.add(15) = 42;\n    }\n    println!(\"done\");\n}\n"
    .to_string()
}

fn overflow_tree() -> Program {
    Program {
        functions: vec![FnItem {
            name: "main".to_string(),
            body: vec![
                Stmt::Local {
                    name: "buffer".to_string(),
                    mutable: true,
                    init: Some(Expr::BufferInit {
                        count: Some(5),
                        text: "vec![0u8; 5]".to_string(),
                        pos: pos(2, 4),
                    }),
                    pos: pos(2, 4),
                },
                Stmt::Local {
                    name: "ptr".to_string(),
                    mutable: false,
                    init: Some(Expr::PtrExtract {
                        buffer: "buffer".to_string(),
                        mutable: true,
                        pos: pos(3, 4),
                    }),
                    pos: pos(3, 4),
                },
                Stmt::Unsafe {
                    body: vec![Stmt::ExprStmt {
                        expr: Expr::PtrWrite {
                            receiver: "ptr".to_string(),
                            offset: Some(15),
                            arg: "15".to_string(),
                            value: "42".to_string(),
                            pos: pos(5, 8),
                        },
                        pos: pos(5, 8),
                    }],
                    pos: pos(4, 4),
                },
            ],
            pos: pos(1, 0),
        }],
    }
}

#[test]
fn fix_type_overflow_past_size_resizes() {
    let rectifier = Rectifier::new(classic_source());
    let c = candidate(Some(5), Some(15), 5);
    let k = BufferConstraint {
        buffer_size: 5,
        offset: 15,
        is_overflow: true,
    };
    assert_eq!(rectifier.determine_fix_type(&c, &k), FixType::VecResize);
}

#[test]
fn fix_type_boundary_gets_bound_check() {
    let rectifier = Rectifier::new(classic_source());
    let c = candidate(Some(10), Some(10), 5);
    let k = BufferConstraint {
        buffer_size: 10,
        offset: 10,
        is_overflow: true,
    };
    assert_eq!(rectifier.determine_fix_type(&c, &k), FixType::BoundCheck);
}

#[test]
fn fix_type_unconfirmed_gets_safe_access() {
    let rectifier = Rectifier::new(classic_source());
    let c = candidate(Some(10), Some(5), 5);
    let k = BufferConstraint {
        buffer_size: 10,
        offset: 5,
        is_overflow: false,
    };
    assert_eq!(rectifier.determine_fix_type(&c, &k), FixType::SafeAccess);
}

#[test]
fn fix_type_unsafe_operation_sheds_marker() {
    let rectifier = Rectifier::new(classic_source());
    let mut c = candidate(Some(5), Some(15), 5);
    c.operation = "unsafe_pointer_offset".to_string();
    let k = BufferConstraint {
        buffer_size: 5,
        offset: 15,
        is_overflow: true,
    };
    assert_eq!(rectifier.determine_fix_type(&c, &k), FixType::UnsafeToSafe);
}

#[test]
fn bound_check_replacement_text() {
    let rectifier = Rectifier::new(classic_source());
    let c = candidate(Some(10), Some(10), 5);
    let k = BufferConstraint {
        buffer_size: 10,
        offset: 10,
        is_overflow: true,
    };
    let code = rectifier.generate_fixed_code(&c, &k, &FixType::BoundCheck);
    assert_eq!(
        code,
        "if 10 < buffer.len() {\n    buffer[10] = 42;\n} else {\n    eprintln!(\"Buffer overflow prevented: index 10\");\n}"
    );
}

#[test]
fn vec_resize_replacement_text() {
    let rectifier = Rectifier::new(classic_source());
    let c = candidate(Some(5), Some(15), 5);
    let k = BufferConstraint {
        buffer_size: 5,
        offset: 15,
        is_overflow: true,
    };
    let code = rectifier.generate_fixed_code(&c, &k, &FixType::VecResize);
    assert_eq!(code, "let mut buffer = vec![0; 16];\n    buffer[15] = 42;");
}

#[test]
fn scenario_a_generate_fix_guards_the_index() {
    // size 5, offset 15: the replacement must guard index 15
    let rectifier = Rectifier::new(classic_source());
    let c = candidate(Some(5), Some(15), 5);
    let solver = BufferSolver::new();
    let k = solver.check_candidate(&c);
    assert!(k.is_overflow);
    let fix = rectifier.generate_fix(&c, &k);
    assert!(matches!(fix.fix_type, FixType::BoundCheck | FixType::VecResize));
    assert!(fix.fixed_code.contains("buffer[15]"));
    assert_eq!(fix.location, "Line 5");
    assert_eq!(fix.original_code, "        *ptr.add(15) = 42;");
}

#[test]
fn generate_fix_out_of_range_line_falls_back() {
    let rectifier = Rectifier::new("one line".to_string());
    let c = candidate(Some(5), Some(15), 99);
    let k = BufferConstraint {
        buffer_size: 5,
        offset: 15,
        is_overflow: true,
    };
    let fix = rectifier.generate_fix(&c, &k);
    assert_eq!(fix.original_code, "main"); // the candidate's own location text
}

#[test]
fn error_report_fields() {
    let rectifier = Rectifier::new(classic_source());
    let c = candidate(Some(5), Some(15), 5);
    let report = rectifier.generate_error_report(&c);
    assert_eq!(report.issue_type, "pointer_offset");
    assert_eq!(report.location, "Line 5");
    assert_eq!(report.risk_level, "Critical");
    assert_eq!(
        report.description,
        "Detected unchecked pointer offset operation: Some(15)"
    );
    assert_eq!(
        report.impact,
        "May cause undefined behavior and memory access violations"
    );
    assert_eq!(
        report.recommendation,
        "Add an explicit bounds check before performing pointer operations"
    );
}

#[test]
fn error_report_allocation_risk() {
    let rectifier = Rectifier::new(classic_source());
    let mut c = candidate(None, None, 2);
    c.operation = "allocation".to_string();
    let report = rectifier.generate_error_report(&c);
    assert_eq!(report.risk_level, "Medium");
    assert_eq!(
        report.description,
        "Detected unchecked pointer offset operation: None"
    );
    assert_eq!(report.impact, "Potential memory safety risk");
}

#[test]
fn rectify_without_overflows_rerenders_unchanged() {
    // zero confirmed overflows: the output is exactly the canonical
    // re-rendering of the unchanged tree
    let rectifier = Rectifier::new(String::new());
    let program = overflow_tree();
    let rendered = rectifier.rectify(&program, &Vec::new());
    assert_eq!(
        rendered,
        "fn main() {\n    let mut buffer = vec![0u8; 5];\n    let ptr = buffer.as_mut_ptr();\n    unsafe {\n        *ptr.add(15) = 42;\n    }\n}\n"
    );
}

#[test]
fn rectify_replaces_matched_write() {
    let rectifier = Rectifier::new(String::new());
    let program = overflow_tree();
    let candidates = find_buffer_overflows(&program, Vec::new());
    assert_eq!(candidates.len(), 1);
    let rendered = rectifier.rectify(&program, &candidates);
    assert!(rendered.contains(
        "if 15 < buffer.len() { buffer[15] = 42; } else { eprintln!(\"Buffer overflow prevented: index 15\"); }"
    ));
    assert!(!rendered.contains("*ptr.add(15)"));
}

#[test]
fn rectified_tree_is_no_longer_flagged() {
    // a synthesized guarded access keeps its "no issue" classification:
    // the detector emits nothing for it
    let program = Program {
        functions: vec![FnItem {
            name: "main".to_string(),
            body: vec![Stmt::ExprStmt {
                expr: Expr::Guarded {
                    buffer: "buffer".to_string(),
                    index: 15,
                    value: "42".to_string(),
                    pos: pos(5, 8),
                },
                pos: pos(5, 8),
            }],
            pos: pos(1, 0),
        }],
    };
    let candidates = find_buffer_overflows(&program, Vec::new());
    assert!(candidates.is_empty());
}

#[test]
fn complete_fix_replaces_unsafe_block() {
    let rectifier = Rectifier::new(classic_source());
    let c = candidate(None, Some(15), 5);
    let fixed = rectifier.generate_complete_fix(&c);
    assert!(fixed.contains("if 15 < buffer.len()"));
    assert!(!fixed.contains("*ptr.add(15)"));
    assert!(fixed.contains("println!"));
}

#[test]
fn complete_fix_keeps_clean_source() {
    let source = "fn main() {\n    let x = 1;\n    println!(\"{}\", x);\n}\n".to_string();
    let rectifier = Rectifier::new(source.clone());
    let c = candidate(None, None, 1);
    let fixed = rectifier.generate_complete_fix(&c);
    assert_eq!(fixed, source);
}

#[test]
fn find_line_with_context_locates_write() {
    let rectifier = Rectifier::new(String::new());
    let lines = vec![
        "fn main() {".to_string(),
        "    *ptr.add(15) = 42;".to_string(),
        "}".to_string(),
    ];
    let (line_no, text) = rectifier.find_line_with_context(&lines, "");
    assert_eq!(line_no, 2);
    assert_eq!(text, "    *ptr.add(15) = 42;");

    let clean = vec!["fn main() {}".to_string()];
    let (none_no, none_text) = rectifier.find_line_with_context(&clean, "");
    assert_eq!(none_no, 0);
    assert_eq!(none_text, "");
}

fn opaque(text: &str, line: usize, column: usize) -> Expr {
    Expr::Opaque {
        text: text.to_string(),
        pos: pos(line, column),
    }
}

#[test]
fn lift_binary_expression() {
    // `a + b` becomes two operand bindings and one checked operation
    let e = Expr::Binary {
        op: BinOp::Add,
        left: Box::new(opaque("a", 1, 0)),
        right: Box::new(opaque("b", 1, 4)),
        pos: pos(1, 0),
    };
    let mut temps: Vec<String> = Vec::new();
    let mut counter: u64 = 0;
    let result = lift_and_guard_expr(&e, &mut temps, &mut counter);
    assert_eq!(result, "y3");
    assert_eq!(counter, 3);
    assert_eq!(
        temps,
        vec![
            "let x1 = a;".to_string(),
            "let x2 = b;".to_string(),
            "let y3 = x1.checked_add(x2).on_flow(OverflowError::new(\"Overflow for operation\"))?;"
                .to_string(),
        ]
    );
}

#[test]
fn lift_nested_arithmetic() {
    // `(a - b) * c`: the inner subtraction is lifted first, then the product
    let inner = Expr::Binary {
        op: BinOp::Sub,
        left: Box::new(opaque("a", 1, 0)),
        right: Box::new(opaque("b", 1, 4)),
        pos: pos(1, 0),
    };
    let e = Expr::Binary {
        op: BinOp::Mul,
        left: Box::new(inner),
        right: Box::new(opaque("c", 1, 10)),
        pos: pos(1, 0),
    };
    let mut temps: Vec<String> = Vec::new();
    let mut counter: u64 = 0;
    let result = lift_and_guard_expr(&e, &mut temps, &mut counter);
    assert_eq!(result, "y6");
    assert_eq!(counter, 6);
    assert_eq!(temps.len(), 6);
    assert!(temps[2].contains("checked_sub"));
    assert_eq!(temps[3], "let x4 = y3;");
    assert_eq!(temps[4], "let x5 = c;");
    assert!(temps[5].contains("y6 = x4.checked_mul(x5)"));
}

#[test]
fn rectify_block_lifts_expression_statements() {
    let stmts = vec![
        Stmt::Local {
            name: "z".to_string(),
            mutable: false,
            init: Some(opaque("1", 1, 8)),
            pos: pos(1, 4),
        },
        Stmt::ExprStmt {
            expr: Expr::Binary {
                op: BinOp::Add,
                left: Box::new(opaque("z", 2, 4)),
                right: Box::new(opaque("2", 2, 8)),
                pos: pos(2, 4),
            },
            pos: pos(2, 4),
        },
    ];
    let out = rectify_block(&stmts);
    assert_eq!(out.len(), 5);
    assert_eq!(out[0], "    let z = 1;\n");
    assert_eq!(out[1], "let x1 = z;");
    assert_eq!(out[2], "let x2 = 2;");
    assert!(out[3].contains("checked_add"));
    assert_eq!(out[4], "y3");
}
