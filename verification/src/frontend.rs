//! The analysis surface over one parsed program: collects the unsafe
//! regions and the buffer allocations a program declares, and runs the
//! candidate detector over it.
//!
//! Parsing program text into the tree happens outside this crate; this
//! module consumes the tree vocabulary of [`crate::ast`].

use vstd::prelude::*;

use crate::analyzer::{detect_program, find_buffer_overflows, CandidateModel, OverflowCandidate};
use crate::ast::{Expr, FnItem, Program, Stmt};
use crate::rectifier::{render_stmt, render_stmt_into};
use crate::text::chars_to_string;

verus! {

/// What one analysis pass surfaces: the rendered unsafe regions, the
/// buffer-allocation texts, and the detector's candidates.
#[derive(Debug)]
pub struct AnalysisResult {
    pub unsafe_blocks: Vec<String>,
    pub allocations: Vec<String>,
    pub overflow_candidates: Vec<OverflowCandidate>,
}

/// The renderings of the unsafe regions among the first `k` statements.
pub open spec fn stmt_unsafe_blocks(ss: Seq<Stmt>, k: int) -> Seq<Seq<char>>
    decreases k,
{
    if k <= 0 {
        Seq::empty()
    } else {
        stmt_unsafe_blocks(ss, k - 1) + match ss[k - 1] {
            Stmt::Unsafe { .. } => seq![
                render_stmt(ss[k - 1], Seq::<OverflowCandidate>::empty(), false),
            ],
            _ => Seq::<Seq<char>>::empty(),
        }
    }
}

/// The allocation text a statement carries, if any: a buffer construction
/// standing as an initializer or as an expression statement.
pub open spec fn stmt_allocation(s: Stmt) -> Option<Seq<char>> {
    match s {
        Stmt::Local { init: Some(Expr::BufferInit { text, .. }), .. } => Some(text@),
        Stmt::ExprStmt { expr: Expr::BufferInit { text, .. }, .. } => Some(text@),
        _ => None,
    }
}

/// The allocation texts among the first `k` statements.
pub open spec fn stmt_allocations(ss: Seq<Stmt>, k: int) -> Seq<Seq<char>>
    decreases k,
{
    if k <= 0 {
        Seq::empty()
    } else {
        stmt_allocations(ss, k - 1) + match stmt_allocation(ss[k - 1]) {
            Some(t) => seq![t],
            None => Seq::<Seq<char>>::empty(),
        }
    }
}

/// The unsafe-region renderings of the first `k` functions.
pub open spec fn program_unsafe_blocks(fns: Seq<FnItem>, k: int) -> Seq<Seq<char>>
    decreases k,
{
    if k <= 0 {
        Seq::empty()
    } else {
        program_unsafe_blocks(fns, k - 1) + stmt_unsafe_blocks(
            fns[k - 1].body@,
            fns[k - 1].body@.len() as int,
        )
    }
}

/// The allocation texts of the first `k` functions.
pub open spec fn program_allocations(fns: Seq<FnItem>, k: int) -> Seq<Seq<char>>
    decreases k,
{
    if k <= 0 {
        Seq::empty()
    } else {
        program_allocations(fns, k - 1) + stmt_allocations(
            fns[k - 1].body@,
            fns[k - 1].body@.len() as int,
        )
    }
}

/// The front of the pipeline: remembers which file is under analysis and
/// runs one pass over its parsed tree.
pub struct Frontend {
    source_file: String,
}

impl View for Frontend {
    type V = Seq<char>;

    closed spec fn view(&self) -> Seq<char> {
        self.source_file@
    }
}

/// Collects unsafe-region renderings and allocation texts from one
/// function body.
fn collect_stmt_items(dst_unsafe: &mut Vec<String>, dst_alloc: &mut Vec<String>, ss: &Vec<Stmt>)
    ensures
        final(dst_unsafe).deep_view() == old(dst_unsafe).deep_view() + stmt_unsafe_blocks(
            ss@,
            ss@.len() as int,
        ),
        final(dst_alloc).deep_view() == old(dst_alloc).deep_view() + stmt_allocations(
            ss@,
            ss@.len() as int,
        ),
{
    let empty_cs: Vec<OverflowCandidate> = Vec::new();
    let ghost ubase = dst_unsafe.deep_view();
    let ghost abase = dst_alloc.deep_view();
    let n = ss.len();
    let mut i: usize = 0;
    while i < n
        invariant
            i <= n,
            n == ss@.len(),
            empty_cs@ == Seq::<OverflowCandidate>::empty(),
            ubase == old(dst_unsafe).deep_view(),
            abase == old(dst_alloc).deep_view(),
            dst_unsafe.deep_view() == ubase + stmt_unsafe_blocks(ss@, i as int),
            dst_alloc.deep_view() == abase + stmt_allocations(ss@, i as int),
        decreases n - i,
    {
        let ghost uprev = dst_unsafe.deep_view();
        let ghost aprev = dst_alloc.deep_view();
        match &ss[i] {
            Stmt::Unsafe { .. } => {
                let mut rendered = String::new();
                render_stmt_into(&mut rendered, &ss[i], &empty_cs, false);
                dst_unsafe.push(rendered);
                proof {
                    assert(dst_unsafe.deep_view() =~~= uprev.push(
                        render_stmt(ss@[i as int], Seq::<OverflowCandidate>::empty(), false),
                    ));
                    assert(stmt_unsafe_blocks(ss@, i + 1) == stmt_unsafe_blocks(ss@, i as int)
                        + seq![
                        render_stmt(ss@[i as int], Seq::<OverflowCandidate>::empty(), false),
                    ]);
                    assert(dst_unsafe.deep_view() =~~= ubase + stmt_unsafe_blocks(ss@, i + 1));
                    assert(dst_alloc.deep_view() =~~= abase + stmt_allocations(ss@, i + 1));
                }
            },
            _ => {
                let allocation: Option<String> = match &ss[i] {
                    Stmt::Local { init: Some(Expr::BufferInit { text, .. }), .. } => Some(
                        text.clone(),
                    ),
                    Stmt::ExprStmt { expr: Expr::BufferInit { text, .. }, .. } => Some(
                        text.clone(),
                    ),
                    _ => None,
                };
                match allocation {
                    Some(t) => {
                        dst_alloc.push(t);
                        proof {
                            assert(stmt_allocation(ss@[i as int]) is Some);
                            assert(dst_alloc.deep_view() =~~= aprev.push(
                                stmt_allocation(ss@[i as int])->0,
                            ));
                            assert(stmt_allocations(ss@, i + 1) == stmt_allocations(ss@, i as int)
                                + seq![stmt_allocation(ss@[i as int])->0]);
                            assert(dst_alloc.deep_view() =~~= abase + stmt_allocations(
                                ss@,
                                i + 1,
                            ));
                            assert(dst_unsafe.deep_view() =~~= ubase + stmt_unsafe_blocks(
                                ss@,
                                i + 1,
                            ));
                        }
                    },
                    None => {
                        proof {
                            assert(dst_alloc.deep_view() =~~= abase + stmt_allocations(
                                ss@,
                                i + 1,
                            ));
                            assert(dst_unsafe.deep_view() =~~= ubase + stmt_unsafe_blocks(
                                ss@,
                                i + 1,
                            ));
                        }
                    },
                }
            },
        }
        i = i + 1;
    }
}

impl Frontend {
    pub fn new() -> (r: Frontend)
        ensures
            r@ == Seq::<char>::empty(),
    {
        Frontend { source_file: String::new() }
    }

    /// Records which source file the findings will be attributed to.
    pub fn set_source_file(&mut self, path: String)
        ensures
            final(self)@ == path@,
    {
        self.source_file = path;
    }

    /// One pass over a parsed program: surfaces its unsafe regions and
    /// buffer allocations, and every candidate the detector finds.
    pub fn analyze(&mut self, program: &Program) -> (r: AnalysisResult)
        ensures
            r.unsafe_blocks.deep_view() == program_unsafe_blocks(
                program.functions@,
                program.functions@.len() as int,
            ),
            r.allocations.deep_view() == program_allocations(
                program.functions@,
                program.functions@.len() as int,
            ),
            r.overflow_candidates.deep_view() == detect_program(program.functions@),
    {
        let mut unsafe_blocks: Vec<String> = Vec::new();
        let mut allocations: Vec<String> = Vec::new();
        let n = program.functions.len();
        let mut i: usize = 0;
        while i < n
            invariant
                i <= n,
                n == program.functions@.len(),
                unsafe_blocks.deep_view() == program_unsafe_blocks(program.functions@, i as int),
                allocations.deep_view() == program_allocations(program.functions@, i as int),
            decreases n - i,
        {
            collect_stmt_items(&mut unsafe_blocks, &mut allocations, &program.functions[i].body);
            i = i + 1;
        }
        let empty_mir: Vec<OverflowCandidate> = Vec::new();
        proof {
            assert(empty_mir.deep_view() =~~= Seq::<CandidateModel>::empty());
        }
        let overflow_candidates = find_buffer_overflows(program, empty_mir);
        proof {
            assert(overflow_candidates.deep_view() =~~= detect_program(program.functions@));
        }
        AnalysisResult { unsafe_blocks, allocations, overflow_candidates }
    }
}

} // verus!
