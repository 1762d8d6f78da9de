//! Rectification: classifying the fix a confirmed candidate needs and
//! synthesizing bounds-safe replacement code.
//!
//! Two independent strategies are supported. Fragment-level replacement
//! renders a safe code fragment and locates the original line by source
//! position. Tree-level rewriting walks the parsed tree, finds the
//! offending call node — matched by exact source position or by identifier
//! equality with the candidate's buffer, never by substring containment —
//! replaces it with a safe equivalent subtree, and re-renders the whole
//! tree. On the safe path a replacement performs the same write as the
//! original; on the unsafe path it emits a diagnostic on standard error
//! instead of overflowing.

use vstd::prelude::*;
use vstd::string::StringExecFns;

use crate::analyzer::{scan_expr, DetectState, OverflowCandidate};
use crate::ast::{BinOp, Expr, FnItem, Program, SrcPos, Stmt};
use crate::solver::BufferConstraint;
use crate::text::{
    append_chars, chars_to_string, contains_pattern, contains_seq, dec_digits, lines_of,
    split_lines, str_eq, to_chars, trim_chars, trim_of, u128_to_chars, u64_to_string,
};

verus! {

/// One synthesized repair for one confirmed candidate.
#[derive(Debug)]
pub struct CodeFix {
    pub original_code: String,
    pub fixed_code: String,
    pub location: String,
    pub fix_type: FixType,
}

/// The shape of the repair a candidate needs.
#[derive(Debug, Clone, Copy, PartialEq, Eq, Structural)]
pub enum FixType {
    /// Guard the offset against the buffer's current length.
    BoundCheck,
    /// Grow the buffer past the offset before the access.
    VecResize,
    /// Go through the container's bounds-checked accessor.
    SafeAccess,
    /// The bound-check guard, for an access inside a marked-unsafe region.
    UnsafeToSafe,
}

/// Human-facing summary of one candidate.
#[derive(Debug)]
pub struct ErrorReport {
    pub issue_type: String,
    pub location: String,
    pub risk_level: String,
    pub description: String,
    pub impact: String,
    pub recommendation: String,
}

/// The error the checked-arithmetic surface reports on overflow.
#[derive(Debug)]
pub struct OverflowError {
    pub message: String,
}

impl OverflowError {
    pub fn new(message: &str) -> (r: OverflowError)
        ensures
            r.message@ == message@,
    {
        OverflowError { message: String::from_str(message) }
    }
}

/// Checked-arithmetic surface rectified code goes through: fallible
/// versions of the operators, and a lift from an absent value to an error.
/// Consumers of rectified programs implement it for their numeric types.
pub trait SafeLib<T>: Sized {
    fn checked_add(&self, y: T) -> Option<T>;

    fn checked_sub(&self, y: T) -> Option<T>;

    fn on_flow(self, err: OverflowError) -> Result<T, OverflowError>;
}

/// Which fix shape a candidate/verdict pair calls for: an access inside a
/// marked-unsafe operation sheds the marker; a confirmed overflow past the
/// static size grows the buffer, one at the boundary gets a guard; an
/// unconfirmed candidate falls back to the bounds-checked accessor.
pub open spec fn fix_type_for(c: OverflowCandidate, k: BufferConstraint) -> FixType {
    if contains_seq(c.operation@, "unsafe"@) {
        FixType::UnsafeToSafe
    } else if k.is_overflow {
        if k.offset > k.buffer_size {
            FixType::VecResize
        } else {
            FixType::BoundCheck
        }
    } else {
        FixType::SafeAccess
    }
}

/// The bound-check replacement: guard the index, write on the safe path,
/// report on standard error on the unsafe path.
pub open spec fn bound_check_text(o: nat) -> Seq<char> {
    "if "@ + dec_digits(o) + " < buffer.len() {\n    buffer["@ + dec_digits(o)
        + "] = 42;\n} else {\n    eprintln!(\"Buffer overflow prevented: index "@ + dec_digits(o)
        + "\");\n}"@
}

/// The resize replacement: grow the buffer to one past the offset, then
/// perform the access.
pub open spec fn vec_resize_text(o: nat) -> Seq<char> {
    "let mut buffer = vec![0; "@ + dec_digits((o + 1) as nat) + "];\n    buffer["@ + dec_digits(o)
        + "] = 42;"@
}

/// The safe-accessor replacement: go through `get_mut`, defaulting on an
/// out-of-range query.
pub open spec fn safe_access_text(o: nat) -> Seq<char> {
    "if let Some(value) = buffer.get_mut("@ + dec_digits(o)
        + ") {\n    *value = 42;\n} else {\n    eprintln!(\"Buffer overflow prevented: index "@
        + dec_digits(o) + "\");\n}"@
}

/// The replacement text each fix shape renders for offset `o`.
pub open spec fn fixed_code_text(o: nat, ft: FixType) -> Seq<char> {
    match ft {
        FixType::BoundCheck => bound_check_text(o),
        FixType::VecResize => vec_resize_text(o),
        FixType::SafeAccess => safe_access_text(o),
        FixType::UnsafeToSafe => bound_check_text(o),
    }
}

/// The line a candidate's source position selects from the source text,
/// with the candidate's own location text as fallback for a position that
/// names no line.
pub open spec fn selected_line(src: Seq<char>, line: nat, fallback: Seq<char>) -> Seq<char> {
    let ls = lines_of(src);
    if 1 <= line && line <= ls.len() {
        ls[line - 1]
    } else {
        fallback
    }
}

/// First line, if any, on which `pat` occurs, searching from line `i`.
pub open spec fn first_containing_from(ls: Seq<Seq<char>>, pat: Seq<char>, i: nat) -> Option<nat>
    decreases ls.len() - i,
{
    if i >= ls.len() {
        None
    } else if contains_seq(ls[i as int], pat) {
        Some(i)
    } else {
        first_containing_from(ls, pat, (i + 1) as nat)
    }
}

proof fn lemma_first_containing_prefix(ls: Seq<Seq<char>>, pat: Seq<char>, i: nat)
    requires
        i <= ls.len(),
        forall|k: int| 0 <= k < i ==> !contains_seq(#[trigger] ls[k], pat),
    ensures
        first_containing_from(ls, pat, 0) == first_containing_from(ls, pat, i),
    decreases i,
{
    if i > 0 {
        lemma_first_containing_prefix(ls, pat, (i - 1) as nat);
    }
}

/// The qualitative risk level each operation kind is reported with.
pub open spec fn risk_level_text(op: Seq<char>) -> Seq<char> {
    if op == "pointer_offset"@ {
        "Critical"@
    } else if op == "allocation"@ {
        "Medium"@
    } else {
        "Unknown"@
    }
}

/// A possibly-absent count, rendered for a report.
pub open spec fn opt_count_text(o: Option<usize>) -> Seq<char> {
    match o {
        Some(n) => "Some("@ + dec_digits(n as nat) + ")"@,
        None => "None"@,
    }
}

/// The impact statement each operation kind is reported with.
pub open spec fn impact_text(op: Seq<char>) -> Seq<char> {
    if op == "pointer_offset"@ {
        "May cause undefined behavior and memory access violations"@
    } else if op == "allocation"@ {
        "Potential memory safety risk"@
    } else {
        "Unknown impact"@
    }
}

/// Does a call node answer for a candidate? Either the exact source
/// position agrees, or the call's receiver is — by identifier equality,
/// never substring containment — the candidate's recorded buffer.
pub open spec fn node_matches(receiver: String, pos: SrcPos, c: OverflowCandidate) -> bool {
    (pos.line == c.line && pos.column == c.column) || receiver@ == c.buffer_name@
}

/// The index the synthesized guard checks: the call's own literal operand
/// when there is one, else the candidate's recorded offset, else the zero
/// sentinel.
pub open spec fn fix_index(offset: Option<usize>, c: OverflowCandidate) -> usize {
    match offset {
        Some(o) => o,
        None => match c.offset {
            Some(o) => o,
            None => 0,
        },
    }
}

/// One rewriting pass of one candidate over one expression: a matched
/// write through an offset pointer becomes a guarded access on the
/// candidate's buffer; every other expression is left in place.
pub open spec fn rewrite_expr(e: Expr, c: OverflowCandidate) -> Expr {
    match e {
        Expr::PtrWrite { receiver, offset, arg, value, pos } => {
            if node_matches(receiver, pos, c) {
                Expr::Guarded { buffer: c.buffer_name, index: fix_index(offset, c), value, pos }
            } else {
                Expr::PtrWrite { receiver, offset, arg, value, pos }
            }
        },
        _ => e,
    }
}

/// Rewriting passes for a sequence of candidates, applied in order.
pub open spec fn rewrite_expr_all(e: Expr, cs: Seq<OverflowCandidate>) -> Expr
    decreases cs.len(),
{
    if cs.len() == 0 {
        e
    } else {
        rewrite_expr(rewrite_expr_all(e, cs.drop_last()), cs.last())
    }
}

/// The guarded access a rewritten node renders: check the index against
/// the buffer's current length, write on the safe path, report on
/// standard error on the unsafe path.
pub open spec fn guard_text(buffer: Seq<char>, o: nat, value: Seq<char>) -> Seq<char> {
    "if "@ + dec_digits(o) + " < "@ + buffer + ".len() { "@ + buffer + "["@ + dec_digits(o)
        + "] = "@ + value + "; } else { eprintln!(\"Buffer overflow prevented: index "@
        + dec_digits(o) + "\"); }"@
}

/// The source text of an arithmetic operator.
pub open spec fn op_text(op: BinOp) -> Seq<char> {
    match op {
        BinOp::Add => " + "@,
        BinOp::Sub => " - "@,
        BinOp::Mul => " * "@,
        BinOp::Div => " / "@,
    }
}

/// The canonical rendering of one expression.
pub open spec fn render_expr(e: Expr) -> Seq<char>
    decreases e,
{
    match e {
        Expr::Binary { op, left, right, .. } => render_expr(*left) + op_text(op) + render_expr(
            *right,
        ),
        Expr::BufferInit { text, .. } => text@,
        Expr::PtrExtract { buffer, mutable, .. } => buffer@ + if mutable {
            ".as_mut_ptr()"@
        } else {
            ".as_ptr()"@
        },
        Expr::PtrAdd { receiver, arg, .. } => receiver@ + ".add("@ + arg@ + ")"@,
        Expr::PtrWrite { receiver, arg, value, .. } => "*"@ + receiver@ + ".add("@ + arg@ + ") = "@
            + value@,
        Expr::Guarded { buffer, index, value, .. } => guard_text(buffer@, index as nat, value@),
        Expr::Opaque { text, .. } => text@,
    }
}

/// The indentation of a statement: one level inside a function body, two
/// inside an unsafe region.
pub open spec fn indent_text(nested: bool) -> Seq<char> {
    if nested {
        "        "@
    } else {
        "    "@
    }
}

/// The canonical rendering of one statement, with every expression put
/// through the rewriting passes for `cs` first.
pub open spec fn render_stmt(s: Stmt, cs: Seq<OverflowCandidate>, nested: bool) -> Seq<char>
    decreases s,
{
    match s {
        Stmt::Local { name, mutable, init, .. } => indent_text(nested) + "let "@ + (if mutable {
            "mut "@
        } else {
            Seq::<char>::empty()
        }) + name@ + (match init {
            Some(e) => " = "@ + render_expr(rewrite_expr_all(e, cs)),
            None => Seq::<char>::empty(),
        }) + ";\n"@,
        Stmt::ExprStmt { expr, .. } => indent_text(nested) + render_expr(rewrite_expr_all(expr, cs))
            + ";\n"@,
        Stmt::Unsafe { body, .. } => indent_text(nested) + "unsafe {\n"@ + render_stmts(
            body@,
            cs,
            true,
        ) + indent_text(nested) + "}\n"@,
    }
}

/// The canonical rendering of a statement sequence, in order.
pub open spec fn render_stmts(ss: Seq<Stmt>, cs: Seq<OverflowCandidate>, nested: bool) -> Seq<char>
    decreases ss,
{
    if ss.len() == 0 {
        Seq::empty()
    } else {
        render_stmts(ss.drop_last(), cs, nested) + render_stmt(ss.last(), cs, nested)
    }
}

/// The canonical rendering of one function item.
pub open spec fn render_fn(f: FnItem, cs: Seq<OverflowCandidate>) -> Seq<char> {
    "fn "@ + f.name@ + "() {\n"@ + render_stmts(f.body@, cs, false) + "}\n"@
}

/// The canonical rendering of a whole program, rewritten for `cs`.
pub open spec fn render_functions(fns: Seq<FnItem>, cs: Seq<OverflowCandidate>) -> Seq<char>
    decreases fns.len(),
{
    if fns.len() == 0 {
        Seq::empty()
    } else {
        render_functions(fns.drop_last(), cs) + render_fn(fns.last(), cs)
    }
}

/// The canonical rendering of a program with nothing rewritten.
pub open spec fn render_program(fns: Seq<FnItem>) -> Seq<char> {
    render_functions(fns, Seq::empty())
}

impl Clone for Expr {
    fn clone(&self) -> (r: Expr)
        ensures
            r == *self,
        decreases *self,
    {
        match self {
            Expr::Binary { op, left, right, pos } => Expr::Binary {
                op: *op,
                left: Box::new((**left).clone()),
                right: Box::new((**right).clone()),
                pos: *pos,
            },
            Expr::BufferInit { count, text, pos } => Expr::BufferInit {
                count: *count,
                text: text.clone(),
                pos: *pos,
            },
            Expr::PtrExtract { buffer, mutable, pos } => Expr::PtrExtract {
                buffer: buffer.clone(),
                mutable: *mutable,
                pos: *pos,
            },
            Expr::PtrAdd { receiver, offset, arg, pos } => Expr::PtrAdd {
                receiver: receiver.clone(),
                offset: *offset,
                arg: arg.clone(),
                pos: *pos,
            },
            Expr::PtrWrite { receiver, offset, arg, value, pos } => Expr::PtrWrite {
                receiver: receiver.clone(),
                offset: *offset,
                arg: arg.clone(),
                value: value.clone(),
                pos: *pos,
            },
            Expr::Guarded { buffer, index, value, pos } => Expr::Guarded {
                buffer: buffer.clone(),
                index: *index,
                value: value.clone(),
                pos: *pos,
            },
            Expr::Opaque { text, pos } => Expr::Opaque { text: text.clone(), pos: *pos },
        }
    }
}

/// One rewriting pass of one candidate over one expression node.
fn rewrite_one(e: &Expr, c: &OverflowCandidate) -> (r: Expr)
    ensures
        r == rewrite_expr(*e, *c),
{
    match e {
        Expr::PtrWrite { receiver, offset, arg, value, pos } => {
            let position_match = pos.line == c.line && pos.column == c.column;
            if position_match || str_eq(receiver.as_str(), c.buffer_name.as_str()) {
                let index = match offset {
                    Some(o) => *o,
                    None => match c.offset {
                        Some(o) => o,
                        None => 0,
                    },
                };
                Expr::Guarded {
                    buffer: c.buffer_name.clone(),
                    index,
                    value: value.clone(),
                    pos: *pos,
                }
            } else {
                e.clone()
            }
        },
        _ => e.clone(),
    }
}

/// All rewriting passes over one expression node, in candidate order.
fn rewrite_all(e: &Expr, cs: &Vec<OverflowCandidate>) -> (r: Expr)
    ensures
        r == rewrite_expr_all(*e, cs@),
{
    let n = cs.len();
    let mut r = e.clone();
    let mut i: usize = 0;
    while i < n
        invariant
            i <= n,
            n == cs@.len(),
            r == rewrite_expr_all(*e, cs@.take(i as int)),
        decreases n - i,
    {
        proof {
            assert(cs@.take(i + 1).drop_last() =~= cs@.take(i as int));
            assert(cs@.take(i + 1).last() == cs@[i as int]);
        }
        r = rewrite_one(&r, &cs[i]);
        i = i + 1;
    }
    proof {
        assert(cs@.take(n as int) =~= cs@);
    }
    r
}

/// Appends the rendering of one expression.
fn render_expr_into(out: &mut String, e: &Expr)
    ensures
        final(out)@ == old(out)@ + render_expr(*e),
    decreases *e,
{
    match e {
        Expr::Binary { op, left, right, .. } => {
            render_expr_into(out, left);
            match op {
                BinOp::Add => out.append(" + "),
                BinOp::Sub => out.append(" - "),
                BinOp::Mul => out.append(" * "),
                BinOp::Div => out.append(" / "),
            }
            render_expr_into(out, right);
            proof {
                assert(final(out)@ =~= old(out)@ + render_expr(*e));
            }
        },
        Expr::BufferInit { text, .. } => {
            out.append(text.as_str());
        },
        Expr::PtrExtract { buffer, mutable, .. } => {
            out.append(buffer.as_str());
            if *mutable {
                out.append(".as_mut_ptr()");
            } else {
                out.append(".as_ptr()");
            }
        },
        Expr::PtrAdd { receiver, arg, .. } => {
            out.append(receiver.as_str());
            out.append(".add(");
            out.append(arg.as_str());
            out.append(")");
            proof {
                assert(final(out)@ =~= old(out)@ + render_expr(*e));
            }
        },
        Expr::PtrWrite { receiver, arg, value, .. } => {
            out.append("*");
            out.append(receiver.as_str());
            out.append(".add(");
            out.append(arg.as_str());
            out.append(") = ");
            out.append(value.as_str());
            proof {
                assert(final(out)@ =~= old(out)@ + render_expr(*e));
            }
        },
        Expr::Guarded { buffer, index, value, .. } => {
            let o = u64_to_string(*index as u64);
            out.append("if ");
            out.append(o.as_str());
            out.append(" < ");
            out.append(buffer.as_str());
            out.append(".len() { ");
            out.append(buffer.as_str());
            out.append("[");
            out.append(o.as_str());
            out.append("] = ");
            out.append(value.as_str());
            out.append("; } else { eprintln!(\"Buffer overflow prevented: index ");
            out.append(o.as_str());
            out.append("\"); }");
            proof {
                assert(final(out)@ =~= old(out)@ + render_expr(*e));
            }
        },
        Expr::Opaque { text, .. } => {
            out.append(text.as_str());
        },
    }
}

/// Appends the indentation for one nesting level.
fn indent_into(out: &mut String, nested: bool)
    ensures
        final(out)@ == old(out)@ + indent_text(nested),
{
    if nested {
        out.append("        ");
    } else {
        out.append("    ");
    }
}

/// Appends the rendering of one statement, rewriting its expressions.
pub(crate) fn render_stmt_into(out: &mut String, s: &Stmt, cs: &Vec<OverflowCandidate>, nested: bool)
    ensures
        final(out)@ == old(out)@ + render_stmt(*s, cs@, nested),
    decreases *s,
{
    match s {
        Stmt::Local { name, mutable, init, .. } => {
            indent_into(out, nested);
            out.append("let ");
            if *mutable {
                out.append("mut ");
            }
            out.append(name.as_str());
            match init {
                Some(e) => {
                    out.append(" = ");
                    let rewritten = rewrite_all(e, cs);
                    render_expr_into(out, &rewritten);
                },
                None => {},
            }
            out.append(";\n");
            proof {
                assert(final(out)@ =~= old(out)@ + render_stmt(*s, cs@, nested));
            }
        },
        Stmt::ExprStmt { expr, .. } => {
            indent_into(out, nested);
            let rewritten = rewrite_all(expr, cs);
            render_expr_into(out, &rewritten);
            out.append(";\n");
            proof {
                assert(final(out)@ =~= old(out)@ + render_stmt(*s, cs@, nested));
            }
        },
        Stmt::Unsafe { body, .. } => {
            indent_into(out, nested);
            out.append("unsafe {\n");
            render_stmts_into(out, body, cs, true);
            indent_into(out, nested);
            out.append("}\n");
            proof {
                assert(final(out)@ =~= old(out)@ + render_stmt(*s, cs@, nested));
            }
        },
    }
}

/// Appends the rendering of a statement sequence, in order.
fn render_stmts_into(out: &mut String, ss: &Vec<Stmt>, cs: &Vec<OverflowCandidate>, nested: bool)
    ensures
        final(out)@ == old(out)@ + render_stmts(ss@, cs@, nested),
    decreases ss@,
{
    let n = ss.len();
    let mut i: usize = 0;
    while i < n
        invariant
            i <= n,
            n == ss@.len(),
            out@ == old(out)@ + render_stmts(ss@.take(i as int), cs@, nested),
        decreases n - i,
    {
        proof {
            assert(ss@.take(i + 1).drop_last() =~= ss@.take(i as int));
            assert(ss@.take(i + 1).last() == ss@[i as int]);
        }
        render_stmt_into(out, &ss[i], cs, nested);
        proof {
            assert(out@ =~= old(out)@ + render_stmts(ss@.take(i + 1), cs@, nested));
        }
        i = i + 1;
    }
    proof {
        assert(ss@.take(n as int) =~= ss@);
    }
}

/// Rewriting a synthesized guarded access changes nothing: a second
/// rectification pass leaves a repaired node exactly as it stands.
pub proof fn lemma_guarded_is_fixpoint(
    buffer: String,
    index: usize,
    value: String,
    pos: SrcPos,
    c: OverflowCandidate,
)
    ensures
        rewrite_expr((Expr::Guarded { buffer, index, value, pos }), c) == (Expr::Guarded {
            buffer,
            index,
            value,
            pos,
        }),
{
}

/// A synthesized guarded access is no candidate: the detector's traversal
/// passes over it without emitting anything, so a repaired access keeps
/// its "no issue" classification.
pub proof fn lemma_guarded_not_flagged(
    st: DetectState,
    func: Seq<char>,
    buffer: String,
    index: usize,
    value: String,
    pos: SrcPos,
)
    ensures
        scan_expr(st, func, (Expr::Guarded { buffer, index, value, pos })) == st,
{
}

/// With no confirmed overflows the rewriting passes vanish: the rectifier
/// returns exactly the canonical re-rendering of the unchanged tree.
pub proof fn lemma_rectify_nothing(fns: Seq<FnItem>)
    ensures
        render_functions(fns, Seq::empty()) == render_program(fns),
{
}

/// The checked version of an arithmetic operator, as rectified code calls
/// it through the [`SafeLib`] surface.
pub open spec fn checked_name(op: BinOp) -> Seq<char> {
    match op {
        BinOp::Add => "checked_add"@,
        BinOp::Sub => "checked_sub"@,
        BinOp::Mul => "checked_mul"@,
        BinOp::Div => "checked_div"@,
    }
}

/// How many arithmetic nodes an expression holds.
pub open spec fn bin_count(e: Expr) -> nat
    decreases e,
{
    match e {
        Expr::Binary { left, right, .. } => 1 + bin_count(*left) + bin_count(*right),
        _ => 0,
    }
}

/// The checked-arithmetic lift of one expression, with `n` temporaries
/// already handed out: the temporary declarations it emits, the expression
/// text that stands for the result, and the new temporary count. Every
/// arithmetic node becomes two bindings of its operands and one binding of
/// the checked operation, which surfaces an overflow as an error instead
/// of wrapping.
pub open spec fn lift_expr(e: Expr, n: nat) -> (Seq<Seq<char>>, Seq<char>, nat)
    decreases e,
{
    match e {
        Expr::Binary { op, left, right, .. } => {
            let lo = lift_expr(*left, n);
            let hi = lift_expr(*right, lo.2);
            let x1 = "x"@ + dec_digits((hi.2 + 1) as nat);
            let x2 = "x"@ + dec_digits((hi.2 + 2) as nat);
            let y = "y"@ + dec_digits((hi.2 + 3) as nat);
            (
                lo.0 + hi.0 + seq![
                    "let "@ + x1 + " = "@ + lo.1 + ";"@,
                    "let "@ + x2 + " = "@ + hi.1 + ";"@,
                    "let "@ + y + " = "@ + x1 + "."@ + checked_name(op) + "("@ + x2
                        + ").on_flow(OverflowError::new(\"Overflow for operation\"))?;"@,
                ],
                y,
                (hi.2 + 3) as nat,
            )
        },
        _ => (Seq::empty(), render_expr(e), n),
    }
}

/// The lift hands out exactly three temporaries per arithmetic node.
pub proof fn lemma_lift_counter(e: Expr, n: nat)
    ensures
        lift_expr(e, n).2 == n + 3 * bin_count(e),
    decreases e,
{
    match e {
        Expr::Binary { op, left, right, pos } => {
            lemma_lift_counter(*left, n);
            lemma_lift_counter(*right, lift_expr(*left, n).2);
        },
        _ => {},
    }
}

/// How many arithmetic nodes the expression statements among the first `k`
/// statements hold.
pub open spec fn stmts_bin_count(ss: Seq<Stmt>, k: int) -> nat
    decreases k,
{
    if k <= 0 {
        0
    } else {
        stmts_bin_count(ss, k - 1) + match ss[k - 1] {
            Stmt::ExprStmt { expr, .. } => bin_count(expr),
            _ => 0,
        }
    }
}

proof fn lemma_stmts_bin_count_mono(ss: Seq<Stmt>, a: int, b: int)
    requires
        a <= b,
    ensures
        stmts_bin_count(ss, a) <= stmts_bin_count(ss, b),
    decreases b - a,
{
    if a < b {
        lemma_stmts_bin_count_mono(ss, a, b - 1);
    }
}

/// The checked-arithmetic lift of the first `k` statements: each
/// expression statement contributes its temporaries and then the
/// expression standing for its result; every other statement passes
/// through in its canonical rendering.
pub open spec fn lift_stmts(ss: Seq<Stmt>, k: int, n: nat) -> (Seq<Seq<char>>, nat)
    decreases k,
{
    if k <= 0 {
        (Seq::empty(), n)
    } else {
        let prev = lift_stmts(ss, k - 1, n);
        match ss[k - 1] {
            Stmt::ExprStmt { expr, .. } => {
                let l = lift_expr(expr, prev.1);
                (prev.0 + l.0 + seq![l.1], l.2)
            },
            _ => (prev.0.push(render_stmt(ss[k - 1], Seq::empty(), false)), prev.1),
        }
    }
}

proof fn lemma_lift_stmts_counter(ss: Seq<Stmt>, k: int, n: nat)
    ensures
        lift_stmts(ss, k, n).1 == n + 3 * stmts_bin_count(ss, k),
    decreases k,
{
    if k > 0 {
        lemma_lift_stmts_counter(ss, k - 1, n);
        match ss[k - 1] {
            Stmt::ExprStmt { expr, .. } => {
                lemma_lift_counter(expr, lift_stmts(ss, k - 1, n).1);
            },
            _ => {},
        }
    }
}

/// A temporary's name: the prefix and its number.
fn var_name(prefix: &str, n: u64) -> (r: String)
    ensures
        r@ == prefix@ + dec_digits(n as nat),
{
    let digits = u64_to_string(n);
    let mut r = String::from_str(prefix);
    r.append(digits.as_str());
    r
}

/// The rendering of one expression, as a fresh string.
fn render_expr_text(e: &Expr) -> (r: String)
    ensures
        r@ == render_expr(*e),
{
    let mut r = String::new();
    render_expr_into(&mut r, e);
    r
}

/// Lifts one expression into checked-arithmetic form: appends the
/// temporary declarations to `temp_vars`, counts the temporaries through
/// `var_count`, and returns the expression text standing for the result.
pub fn lift_and_guard_expr(e: &Expr, temp_vars: &mut Vec<String>, var_count: &mut u64) -> (r:
    String)
    requires
        *old(var_count) + 3 * bin_count(*e) <= u64::MAX,
    ensures
        ({
            let l = lift_expr(*e, *old(var_count) as nat);
            &&& final(temp_vars).deep_view() == old(temp_vars).deep_view() + l.0
            &&& r@ == l.1
            &&& *final(var_count) == l.2
        }),
    decreases *e,
{
    match e {
        Expr::Binary { op, left, right, .. } => {
            let ghost n0 = *var_count as nat;
            let ghost base = temp_vars.deep_view();
            let ghost lo = lift_expr(**left, n0);
            let ghost hi = lift_expr(**right, lo.2);
            proof {
                lemma_lift_counter(**left, n0);
                lemma_lift_counter(**right, lo.2);
            }
            let left_text = lift_and_guard_expr(left, temp_vars, var_count);
            let right_text = lift_and_guard_expr(right, temp_vars, var_count);
            *var_count = *var_count + 1;
            let x1 = var_name("x", *var_count);
            *var_count = *var_count + 1;
            let x2 = var_name("x", *var_count);
            *var_count = *var_count + 1;
            let y = var_name("y", *var_count);
            let checked = match op {
                BinOp::Add => "checked_add",
                BinOp::Sub => "checked_sub",
                BinOp::Mul => "checked_mul",
                BinOp::Div => "checked_div",
            };
            let mut t1 = String::from_str("let ");
            t1.append(x1.as_str());
            t1.append(" = ");
            t1.append(left_text.as_str());
            t1.append(";");
            let mut t2 = String::from_str("let ");
            t2.append(x2.as_str());
            t2.append(" = ");
            t2.append(right_text.as_str());
            t2.append(";");
            let mut t3 = String::from_str("let ");
            t3.append(y.as_str());
            t3.append(" = ");
            t3.append(x1.as_str());
            t3.append(".");
            t3.append(checked);
            t3.append("(");
            t3.append(x2.as_str());
            t3.append(").on_flow(OverflowError::new(\"Overflow for operation\"))?;");
            let ghost mid = temp_vars.deep_view();
            let ghost t1v = t1@;
            let ghost t2v = t2@;
            let ghost t3v = t3@;
            temp_vars.push(t1);
            temp_vars.push(t2);
            temp_vars.push(t3);
            proof {
                let l = lift_expr(*e, n0);
                let s1 = "let "@ + ("x"@ + dec_digits((hi.2 + 1) as nat)) + " = "@ + lo.1 + ";"@;
                let s2 = "let "@ + ("x"@ + dec_digits((hi.2 + 2) as nat)) + " = "@ + hi.1 + ";"@;
                let s3 = "let "@ + ("y"@ + dec_digits((hi.2 + 3) as nat)) + " = "@ + ("x"@
                    + dec_digits((hi.2 + 1) as nat)) + "."@ + checked_name(*op) + "("@ + ("x"@
                    + dec_digits((hi.2 + 2) as nat))
                    + ").on_flow(OverflowError::new(\"Overflow for operation\"))?;"@;
                assert(t1v =~= s1);
                assert(t2v =~= s2);
                assert(t3v =~= s3);
                assert(l.0 =~~= lo.0 + hi.0 + seq![s1, s2, s3]);
                assert(mid =~~= base + lo.0 + hi.0);
                assert(temp_vars.deep_view() =~~= mid.push(t1v).push(t2v).push(t3v));
                assert(temp_vars.deep_view() =~~= base + l.0);
                assert(*var_count as nat == l.2);
            }
            y
        },
        _ => {
            proof {
                assert(temp_vars.deep_view() =~~= old(temp_vars).deep_view()
                    + Seq::<Seq<char>>::empty());
            }
            render_expr_text(e)
        },
    }
}

/// Lifts a whole statement sequence into checked-arithmetic form,
/// returning the new statement texts in order.
pub fn rectify_block(stmts: &Vec<Stmt>) -> (r: Vec<String>)
    requires
        3 * stmts_bin_count(stmts@, stmts@.len() as int) <= u64::MAX,
    ensures
        r.deep_view() == lift_stmts(stmts@, stmts@.len() as int, 0).0,
{
    let empty_cs: Vec<OverflowCandidate> = Vec::new();
    let mut r: Vec<String> = Vec::new();
    let mut var_count: u64 = 0;
    let n = stmts.len();
    let mut i: usize = 0;
    while i < n
        invariant
            i <= n,
            n == stmts@.len(),
            empty_cs@ == Seq::<OverflowCandidate>::empty(),
            3 * stmts_bin_count(stmts@, stmts@.len() as int) <= u64::MAX,
            r.deep_view() == lift_stmts(stmts@, i as int, 0).0,
            var_count as nat == lift_stmts(stmts@, i as int, 0).1,
        decreases n - i,
    {
        let ghost prev = lift_stmts(stmts@, i as int, 0);
        let ghost rbase = r.deep_view();
        match &stmts[i] {
            Stmt::ExprStmt { expr, .. } => {
                proof {
                    lemma_lift_stmts_counter(stmts@, i as int, 0);
                    lemma_stmts_bin_count_mono(stmts@, i + 1, stmts@.len() as int);
                }
                let mut temps: Vec<String> = Vec::new();
                let ghost l = lift_expr(*expr, var_count as nat);
                let guarded = lift_and_guard_expr(expr, &mut temps, &mut var_count);
                let ghost tdv = temps.deep_view();
                r.append(&mut temps);
                r.push(guarded);
                proof {
                    assert(tdv =~~= Seq::<Seq<char>>::empty() + l.0);
                    assert(r.deep_view() =~~= rbase + tdv + seq![l.1]);
                    assert(r.deep_view() =~~= lift_stmts(stmts@, i + 1, 0).0);
                }
            },
            _ => {
                let mut text = String::new();
                render_stmt_into(&mut text, &stmts[i], &empty_cs, false);
                r.push(text);
                proof {
                    assert(r.deep_view() =~~= rbase.push(
                        render_stmt(stmts@[i as int], Seq::empty(), false),
                    ));
                    assert(r.deep_view() =~~= lift_stmts(stmts@, i + 1, 0).0);
                }
            },
        }
        i = i + 1;
    }
    r
}

/// The running state of the line-oriented repair pass: the output built so
/// far, whether the scan stands inside an unsafe region, the region's
/// accumulated text, and whether the region holds a write through an
/// offset pointer.
pub struct CompleteFixState {
    pub result: Seq<char>,
    pub in_unsafe: bool,
    pub block: Seq<char>,
    pub found: bool,
}

/// One line of the line-oriented repair pass. A line mentioning `unsafe`
/// opens a region; lines inside a region accumulate; the line closing the
/// region flushes it — replaced by a bound check when it wrote through an
/// offset pointer with a parsable offset, dropped when the write's offset
/// was unparsable, kept verbatim otherwise; lines outside regions pass
/// through unchanged.
pub open spec fn complete_fix_step(st: CompleteFixState, line: Seq<char>) -> CompleteFixState {
    let t = trim_of(line);
    let opened = if contains_seq(t, "unsafe"@) {
        CompleteFixState { in_unsafe: true, block: Seq::empty(), ..st }
    } else {
        st
    };
    if opened.in_unsafe {
        let block = opened.block + line + seq!['\n'];
        let found = opened.found || contains_seq(t, "*ptr.add("@);
        if contains_seq(t, "}"@) {
            let result = if found {
                match crate::mir_analyzer::offset_call_value(block, "*ptr.add("@) {
                    Some(v) => opened.result + bound_check_text(v),
                    None => opened.result,
                }
            } else {
                opened.result + block
            };
            CompleteFixState { result, in_unsafe: false, block, found: false }
        } else {
            CompleteFixState { result: opened.result, in_unsafe: true, block, found }
        }
    } else {
        CompleteFixState {
            result: opened.result + line + seq!['\n'],
            in_unsafe: false,
            block: opened.block,
            found: opened.found,
        }
    }
}

/// The repair pass over the first `k` lines.
pub open spec fn complete_fix_run(lines: Seq<Seq<char>>, k: int) -> CompleteFixState
    decreases k,
{
    if k <= 0 {
        CompleteFixState {
            result: Seq::empty(),
            in_unsafe: false,
            block: Seq::empty(),
            found: false,
        }
    } else {
        complete_fix_step(complete_fix_run(lines, k - 1), lines[k - 1])
    }
}

/// The full line-oriented repair of one source text.
pub open spec fn complete_fix_text(src: Seq<char>) -> Seq<char> {
    complete_fix_run(lines_of(src), lines_of(src).len() as int).result
}

/// The bound-check replacement, as characters.
fn bound_check_chars(v: usize) -> (r: Vec<char>)
    ensures
        r@ == bound_check_text(v as nat),
{
    let text = u64_to_string(v as u64);
    let mut r = to_chars("if ");
    let digits = to_chars(text.as_str());
    append_chars(&mut r, &digits);
    let mut piece = to_chars(" < buffer.len() {\n    buffer[");
    append_chars(&mut r, &piece);
    append_chars(&mut r, &digits);
    piece = to_chars("] = 42;\n} else {\n    eprintln!(\"Buffer overflow prevented: index ");
    append_chars(&mut r, &piece);
    append_chars(&mut r, &digits);
    piece = to_chars("\");\n}");
    append_chars(&mut r, &piece);
    proof {
        assert(r@ =~= bound_check_text(v as nat));
    }
    r
}

/// Synthesizes repairs against one source text.
pub struct Rectifier {
    source: String,
}

impl View for Rectifier {
    type V = Seq<char>;

    closed spec fn view(&self) -> Seq<char> {
        self.source@
    }
}

impl Rectifier {
    pub fn new(source: String) -> (r: Rectifier)
        ensures
            r@ == source@,
    {
        Rectifier { source }
    }

    /// Tree-level rectification: applies one rewriting pass per detected
    /// overflow to every expression of the tree and re-renders the whole
    /// program. With no overflows the output is exactly the canonical
    /// rendering of the unchanged tree.
    pub fn rectify(&self, ast: &Program, overflows: &Vec<OverflowCandidate>) -> (r: String)
        ensures
            r@ == render_functions(ast.functions@, overflows@),
            overflows@.len() == 0 ==> r@ == render_program(ast.functions@),
    {
        let mut out = String::new();
        let n = ast.functions.len();
        let mut i: usize = 0;
        while i < n
            invariant
                i <= n,
                n == ast.functions@.len(),
                out@ == render_functions(ast.functions@.take(i as int), overflows@),
            decreases n - i,
        {
            proof {
                assert(ast.functions@.take(i + 1).drop_last() =~= ast.functions@.take(i as int));
                assert(ast.functions@.take(i + 1).last() == ast.functions@[i as int]);
            }
            out.append("fn ");
            out.append(ast.functions[i].name.as_str());
            out.append("() {\n");
            render_stmts_into(&mut out, &ast.functions[i].body, overflows, false);
            out.append("}\n");
            proof {
                assert(out@ =~= render_functions(ast.functions@.take(i + 1), overflows@));
            }
            i = i + 1;
        }
        proof {
            assert(ast.functions@.take(n as int) =~= ast.functions@);
            if overflows@.len() == 0 {
                assert(overflows@ =~= Seq::<OverflowCandidate>::empty());
            }
        }
        out
    }

    /// Classifies the fix shape for a candidate/verdict pair.
    pub fn determine_fix_type(&self, candidate: &OverflowCandidate, constraint: &BufferConstraint)
        -> (r: FixType)
        ensures
            r == fix_type_for(*candidate, *constraint),
    {
        let op = to_chars(candidate.operation.as_str());
        let pat = to_chars("unsafe");
        if contains_pattern(&op, &pat) {
            FixType::UnsafeToSafe
        } else if constraint.is_overflow {
            if constraint.offset > constraint.buffer_size {
                FixType::VecResize
            } else {
                FixType::BoundCheck
            }
        } else {
            FixType::SafeAccess
        }
    }

    /// Renders the replacement code for a fix shape at the constraint's
    /// offset.
    pub fn generate_fixed_code(
        &self,
        _candidate: &OverflowCandidate,
        constraint: &BufferConstraint,
        fix_type: &FixType,
    ) -> (r: String)
        ensures
            r@ == fixed_code_text(constraint.offset as nat, *fix_type),
    {
        let o = u64_to_string(constraint.offset);
        match fix_type {
            FixType::BoundCheck | FixType::UnsafeToSafe => {
                let mut r = String::from_str("if ");
                r.append(o.as_str());
                r.append(" < buffer.len() {\n    buffer[");
                r.append(o.as_str());
                r.append("] = 42;\n} else {\n    eprintln!(\"Buffer overflow prevented: index ");
                r.append(o.as_str());
                r.append("\");\n}");
                proof {
                    assert(r@ =~= bound_check_text(constraint.offset as nat));
                }
                r
            },
            FixType::VecResize => {
                let next_digits = u128_to_chars(constraint.offset as u128 + 1);
                let next = chars_to_string(&next_digits);
                let mut r = String::from_str("let mut buffer = vec![0; ");
                r.append(next.as_str());
                r.append("];\n    buffer[");
                r.append(o.as_str());
                r.append("] = 42;");
                proof {
                    assert(r@ =~= vec_resize_text(constraint.offset as nat));
                }
                r
            },
            FixType::SafeAccess => {
                let mut r = String::from_str("if let Some(value) = buffer.get_mut(");
                r.append(o.as_str());
                r.append(") {\n    *value = 42;\n} else {\n    eprintln!(\"Buffer overflow prevented: index ");
                r.append(o.as_str());
                r.append("\");\n}");
                proof {
                    assert(r@ =~= safe_access_text(constraint.offset as nat));
                }
                r
            },
        }
    }

    /// Produces the fragment-level repair for a confirmed candidate: the
    /// line the candidate points at, the rendered replacement, and the fix
    /// classification.
    pub fn generate_fix(&self, candidate: &OverflowCandidate, constraint: &BufferConstraint) -> (r:
        CodeFix)
        ensures
            r.fix_type == fix_type_for(*candidate, *constraint),
            r.fixed_code@ == fixed_code_text(
                constraint.offset as nat,
                fix_type_for(*candidate, *constraint),
            ),
            r.location@ == "Line "@ + dec_digits(candidate.line as nat),
            r.original_code@ == selected_line(self@, candidate.line as nat, candidate.location@),
    {
        let chars = to_chars(self.source.as_str());
        let lines = split_lines(&chars);
        let original_code = if candidate.line >= 1 && candidate.line <= lines.len() {
            proof {
                assert(lines.deep_view()[candidate.line - 1] == lines@[candidate.line - 1]@);
            }
            chars_to_string(&lines[candidate.line - 1])
        } else {
            candidate.location.clone()
        };
        let fix_type = self.determine_fix_type(candidate, constraint);
        let fixed_code = self.generate_fixed_code(candidate, constraint, &fix_type);
        let digits = u64_to_string(candidate.line as u64);
        let mut location = String::from_str("Line ");
        location.append(digits.as_str());
        CodeFix { original_code, fixed_code, location, fix_type }
    }

    /// Builds the human-facing report for one candidate.
    pub fn generate_error_report(&self, candidate: &OverflowCandidate) -> (r: ErrorReport)
        ensures
            r.issue_type@ == candidate.operation@,
            r.location@ == "Line "@ + dec_digits(candidate.line as nat),
            r.risk_level@ == risk_level_text(candidate.operation@),
            r.description@ == "Detected unchecked pointer offset operation: "@ + opt_count_text(
                candidate.offset,
            ),
            r.impact@ == impact_text(candidate.operation@),
            r.recommendation@
                == "Add an explicit bounds check before performing pointer operations"@,
    {
        let digits = u64_to_string(candidate.line as u64);
        let mut location = String::from_str("Line ");
        location.append(digits.as_str());
        let risk_level = if str_eq(candidate.operation.as_str(), "pointer_offset") {
            String::from_str("Critical")
        } else if str_eq(candidate.operation.as_str(), "allocation") {
            String::from_str("Medium")
        } else {
            String::from_str("Unknown")
        };
        let impact = if str_eq(candidate.operation.as_str(), "pointer_offset") {
            String::from_str("May cause undefined behavior and memory access violations")
        } else if str_eq(candidate.operation.as_str(), "allocation") {
            String::from_str("Potential memory safety risk")
        } else {
            String::from_str("Unknown impact")
        };
        let mut description = String::from_str("Detected unchecked pointer offset operation: ");
        match candidate.offset {
            Some(n) => {
                let digits = u64_to_string(n as u64);
                description.append("Some(");
                description.append(digits.as_str());
                description.append(")");
                proof {
                    assert(description@ =~= "Detected unchecked pointer offset operation: "@
                        + opt_count_text(candidate.offset));
                }
            },
            None => {
                description.append("None");
            },
        }
        ErrorReport {
            issue_type: candidate.operation.clone(),
            location,
            risk_level,
            description,
            impact,
            recommendation: String::from_str(
                "Add an explicit bounds check before performing pointer operations",
            ),
        }
    }

    /// The line-oriented repair of the whole stored source: every
    /// brace-terminated unsafe region writing through an offset pointer is
    /// replaced by a bound check; everything else passes through.
    pub fn generate_complete_fix(&self, _candidate: &OverflowCandidate) -> (r: String)
        ensures
            r@ == complete_fix_text(self@),
    {
        let chars = to_chars(self.source.as_str());
        let lines = split_lines(&chars);
        let unsafe_pat = to_chars("unsafe");
        let star_pat = to_chars("*ptr.add(");
        let close_pat = to_chars("}");
        let ghost ldv = lines.deep_view();
        let mut result: Vec<char> = Vec::new();
        let mut in_unsafe = false;
        let mut block: Vec<char> = Vec::new();
        let mut found = false;
        let n = lines.len();
        let mut i: usize = 0;
        while i < n
            invariant
                i <= n,
                n == lines@.len(),
                ldv == lines.deep_view(),
                unsafe_pat@ == "unsafe"@,
                star_pat@ == "*ptr.add("@,
                close_pat@ == "}"@,
                result@ == complete_fix_run(ldv, i as int).result,
                in_unsafe == complete_fix_run(ldv, i as int).in_unsafe,
                block@ == complete_fix_run(ldv, i as int).block,
                found == complete_fix_run(ldv, i as int).found,
            decreases n - i,
        {
            proof {
                assert(ldv[i as int] == lines@[i as int]@);
            }
            let ghost st = complete_fix_run(ldv, i as int);
            let ghost line = ldv[i as int];
            let t = trim_chars(&lines[i]);
            if contains_pattern(&t, &unsafe_pat) {
                in_unsafe = true;
                block = Vec::new();
                proof {
                    assert(block@ =~= Seq::<char>::empty());
                }
            }
            let ghost opened = (if contains_seq(trim_of(line), "unsafe"@) {
                CompleteFixState { in_unsafe: true, block: Seq::empty(), ..st }
            } else {
                st
            });
            if in_unsafe {
                append_chars(&mut block, &lines[i]);
                block.push('\n');
                proof {
                    assert(block@ =~= opened.block + line + seq!['\n']);
                }
                if contains_pattern(&t, &star_pat) {
                    found = true;
                }
                if contains_pattern(&t, &close_pat) {
                    in_unsafe = false;
                    if found {
                        match crate::mir_analyzer::find_offset_call(&block, &star_pat) {
                            Some(v) => {
                                let fixed = bound_check_chars(v);
                                append_chars(&mut result, &fixed);
                            },
                            None => {},
                        }
                    } else {
                        append_chars(&mut result, &block);
                    }
                    found = false;
                }
            } else {
                append_chars(&mut result, &lines[i]);
                result.push('\n');
                proof {
                    assert(result@ =~= opened.result + line + seq!['\n']);
                }
            }
            proof {
                let next = complete_fix_step(st, line);
                assert(result@ =~= next.result);
                assert(block@ =~= next.block);
                assert(complete_fix_run(ldv, i + 1) == next);
            }
            i = i + 1;
        }
        chars_to_string(&result)
    }

    /// First line holding a write through an offset pointer, one-based,
    /// with its text; line zero and empty text when there is none.
    pub fn find_line_with_context(&self, lines: &Vec<String>, _target: &str) -> (r: (usize, String))
        ensures
            match first_containing_from(lines.deep_view(), "*ptr.add"@, 0) {
                Some(i) => r.0 == i + 1 && r.1@ == lines.deep_view()[i as int],
                None => r.0 == 0 && r.1@.len() == 0,
            },
    {
        let pat = to_chars("*ptr.add");
        let n = lines.len();
        let mut i: usize = 0;
        while i < n
            invariant
                i <= n,
                n == lines@.len(),
                pat@ == "*ptr.add"@,
                forall|k: int|
                    0 <= k < i ==> !contains_seq(#[trigger] lines.deep_view()[k], "*ptr.add"@),
            decreases n - i,
        {
            let line_chars = to_chars(lines[i].as_str());
            proof {
                assert(lines.deep_view()[i as int] == lines@[i as int]@);
            }
            if contains_pattern(&line_chars, &pat) {
                proof {
                    lemma_first_containing_prefix(lines.deep_view(), "*ptr.add"@, i as nat);
                }
                return (i + 1, lines[i].clone());
            }
            i = i + 1;
        }
        proof {
            lemma_first_containing_prefix(lines.deep_view(), "*ptr.add"@, n as nat);
        }
        (0, String::new())
    }
}

} // verus!
