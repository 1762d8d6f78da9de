use rupair::analyzer::OverflowCandidate;
use rupair::solver::BufferSolver;

#[test]
fn test_safe_buffer_access() {
    let mut solver = BufferSolver::new();
    solver.add_buffer("safe_buffer", 10);

    let result = solver.check_overflow("safe_buffer", 5);
    assert!(!result.is_overflow);
}

#[test]
fn test_buffer_overflow() {
    let mut solver = BufferSolver::new();
    solver.add_buffer("overflow_buffer", 10);

    let result = solver.check_overflow("overflow_buffer", 15);
    assert!(result.is_overflow);
}

#[test]
fn test_edge_case() {
    let mut solver = BufferSolver::new();
    solver.add_buffer("edge_buffer", 10);

    let result = solver.check_overflow("edge_buffer", 10);
    assert!(result.is_overflow); // zero-indexed: an offset equal to the size overflows
}

#[test]
fn test_multiple_buffers() {
    let mut solver = BufferSolver::new();
    solver.add_buffer("buffer1", 5);
    solver.add_buffer("buffer2", 15);

    let result1 = solver.check_overflow("buffer1", 6);
    let result2 = solver.check_overflow("buffer2", 6);

    assert!(result1.is_overflow);
    assert!(!result2.is_overflow);
}

#[test]
fn test_generated_test_cases() {
    let mut solver = BufferSolver::new();
    solver.add_buffer("test_buffer", 8);

    let test_case = solver.generate_test_case("test_buffer", 12);
    println!("Generated test case:\n{}", test_case);

    assert!(test_case.contains("vec![0u8; 8]"));
    assert!(test_case.contains("ptr.add(12)"));
}

#[test]
fn test_unknown_buffer_is_conservative() {
    let solver = BufferSolver::new();
    let result = solver.check_overflow("never_registered", 3);
    assert_eq!(result.buffer_size, 0);
    assert!(result.is_overflow);
}

#[test]
fn test_zero_offset_is_conservative() {
    let mut solver = BufferSolver::new();
    solver.add_buffer("buf", 10);
    let result = solver.check_overflow("buf", 0);
    assert!(result.is_overflow); // zero is the unknown sentinel, resolved conservatively
}

#[test]
fn test_reregistration_overrides() {
    let mut solver = BufferSolver::new();
    solver.add_buffer("buf", 5);
    solver.add_buffer("buf", 20);
    let result = solver.check_overflow("buf", 10);
    assert_eq!(result.buffer_size, 20);
    assert!(!result.is_overflow);
}

#[test]
fn test_candidate_with_unknown_size() {
    let solver = BufferSolver::new();
    let candidate = OverflowCandidate {
        location: "main".to_string(),
        buffer_name: "buffer".to_string(),
        operation: "pointer_offset".to_string(),
        line: 4,
        column: 8,
        buffer_size: None,
        offset: Some(15),
    };
    let constraint = solver.check_candidate(&candidate);
    assert_eq!(constraint.buffer_size, 0);
    assert_eq!(constraint.offset, 15);
    assert!(constraint.is_overflow);
}

#[test]
fn test_candidate_with_known_safe_values() {
    let solver = BufferSolver::new();
    let candidate = OverflowCandidate {
        location: "main".to_string(),
        buffer_name: "buffer".to_string(),
        operation: "pointer_offset".to_string(),
        line: 4,
        column: 8,
        buffer_size: Some(10),
        offset: Some(5),
    };
    let constraint = solver.check_candidate(&candidate);
    assert!(!constraint.is_overflow);
}
