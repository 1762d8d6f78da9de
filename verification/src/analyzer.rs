//! Candidate detection: a single forward pass over a parsed program tree
//! that tracks which local names are fixed-size buffers, which are pointers
//! derived from those buffers, and emits an [`OverflowCandidate`] for every
//! pointer-offset operation on a tracked pointer.
//!
//! The alias model is scoped to one function traversal: bindings made while
//! walking one function are never visible in another, and a binding becomes
//! visible only at its declaration, in lexical order. Unsafe markers are
//! recorded as plain statements and never gate detection.

use vstd::prelude::*;
use vstd::string::StringExecFns;

use crate::ast::{Expr, FnItem, Program, SrcPos, Stmt};
use crate::text::str_eq;

verus! {

/// A syntactic site that may perform an out-of-bounds access, before
/// confirmation by the feasibility checker.
#[derive(Debug)]
pub struct OverflowCandidate {
    /// Enclosing function of the offending site.
    pub location: String,
    /// Identity of the buffer the access goes through.
    pub buffer_name: String,
    /// Operation kind: a pointer offset or an allocation.
    pub operation: String,
    pub line: usize,
    pub column: usize,
    /// Statically known element count of the buffer, when the declaration
    /// carried a literal count.
    pub buffer_size: Option<usize>,
    /// Statically known offset, when the operand was a literal.
    pub offset: Option<usize>,
}

/// A possibly-absent count, as an unbounded natural.
pub open spec fn opt_nat(o: Option<usize>) -> Option<nat> {
    match o {
        Some(n) => Some(n as nat),
        None => None,
    }
}

/// Mathematical shadow of an [`OverflowCandidate`]: every text field as a
/// character sequence, every count as an unbounded natural.
pub struct CandidateModel {
    pub location: Seq<char>,
    pub buffer_name: Seq<char>,
    pub operation: Seq<char>,
    pub line: nat,
    pub column: nat,
    pub buffer_size: Option<nat>,
    pub offset: Option<nat>,
}

impl DeepView for OverflowCandidate {
    type V = CandidateModel;

    open spec fn deep_view(&self) -> CandidateModel {
        CandidateModel {
            location: self.location@,
            buffer_name: self.buffer_name@,
            operation: self.operation@,
            line: self.line as nat,
            column: self.column as nat,
            buffer_size: opt_nat(self.buffer_size),
            offset: opt_nat(self.offset),
        }
    }
}

impl Clone for OverflowCandidate {
    fn clone(&self) -> (r: OverflowCandidate)
        ensures
            r == *self,
    {
        OverflowCandidate {
            location: self.location.clone(),
            buffer_name: self.buffer_name.clone(),
            operation: self.operation.clone(),
            line: self.line,
            column: self.column,
            buffer_size: self.buffer_size,
            offset: self.offset,
        }
    }
}

/// What the alias model records under a bound name: the identity of the
/// buffer the binding ultimately refers to, and that buffer's statically
/// known size at the time of derivation.
pub struct PointerInfo {
    pub buffer_name: String,
    pub buffer_size: Option<usize>,
}

/// Mathematical shadow of a [`PointerInfo`].
pub struct PtrInfoModel {
    pub buffer_name: Seq<char>,
    pub buffer_size: Option<nat>,
}

impl DeepView for PointerInfo {
    type V = PtrInfoModel;

    open spec fn deep_view(&self) -> PtrInfoModel {
        PtrInfoModel { buffer_name: self.buffer_name@, buffer_size: opt_nat(self.buffer_size) }
    }
}

/// The alias model a sequence of bindings denotes: later bindings of the
/// same name shadow earlier ones.
pub open spec fn aliases_of(s: Seq<(String, PointerInfo)>) -> Map<Seq<char>, PtrInfoModel>
    decreases s.len(),
{
    if s.len() == 0 {
        Map::empty()
    } else {
        aliases_of(s.drop_last()).insert(s.last().0@, s.last().1.deep_view())
    }
}

/// Bindings after position `i` that never bind `name` do not affect what
/// the alias model holds for `name`.
proof fn lemma_aliases_skip_suffix(s: Seq<(String, PointerInfo)>, name: Seq<char>, i: int)
    requires
        0 <= i <= s.len(),
        forall|k: int| i <= k < s.len() ==> #[trigger] s[k].0@ != name,
    ensures
        aliases_of(s).contains_key(name) == aliases_of(s.take(i)).contains_key(name),
        aliases_of(s).contains_key(name) ==> aliases_of(s)[name] == aliases_of(s.take(i))[name],
    decreases s.len() - i,
{
    if i == s.len() {
        assert(s.take(i) =~= s);
    } else {
        let shorter = s.drop_last();
        assert(shorter.take(i) =~= s.take(i));
        lemma_aliases_skip_suffix(shorter, name, i);
    }
}

/// The detector's traversal state: the alias model so far, and the
/// candidates emitted so far.
pub struct DetectState {
    pub aliases: Map<Seq<char>, PtrInfoModel>,
    pub candidates: Seq<CandidateModel>,
}

/// The state a function traversal starts from: nothing bound, nothing
/// emitted.
pub open spec fn init_detect_state() -> DetectState {
    DetectState { aliases: Map::empty(), candidates: Seq::empty() }
}

/// The size a pointer extraction inherits from its origin buffer: the
/// origin's known size, or unknown for an unbound origin.
pub open spec fn inherited_size(aliases: Map<Seq<char>, PtrInfoModel>, buffer: Seq<char>) -> Option<
    nat,
> {
    if aliases.contains_key(buffer) {
        aliases[buffer].buffer_size
    } else {
        None
    }
}

/// The effect of a local declaration on the alias model. A buffer
/// construction binds the name as a buffer of the declared count; a pointer
/// extraction binds the name to the origin buffer with its inherited size;
/// any other initializer binds nothing.
pub open spec fn bind_local(st: DetectState, name: Seq<char>, init: Option<Expr>) -> DetectState {
    match init {
        Some(Expr::BufferInit { count, .. }) => DetectState {
            aliases: st.aliases.insert(
                name,
                PtrInfoModel { buffer_name: name, buffer_size: opt_nat(count) },
            ),
            candidates: st.candidates,
        },
        Some(Expr::PtrExtract { buffer, .. }) => DetectState {
            aliases: st.aliases.insert(
                name,
                PtrInfoModel {
                    buffer_name: buffer@,
                    buffer_size: inherited_size(st.aliases, buffer@),
                },
            ),
            candidates: st.candidates,
        },
        _ => st,
    }
}

/// The candidate a pointer-offset call on a tracked pointer contributes: the
/// origin buffer's identity and known size, and the literal offset when
/// there is one. A call on an untracked receiver contributes nothing.
pub open spec fn offset_candidate(
    st: DetectState,
    func: Seq<char>,
    receiver: Seq<char>,
    offset: Option<usize>,
    pos: SrcPos,
) -> DetectState {
    if st.aliases.contains_key(receiver) {
        let info = st.aliases[receiver];
        DetectState {
            aliases: st.aliases,
            candidates: st.candidates.push(
                CandidateModel {
                    location: func,
                    buffer_name: info.buffer_name,
                    operation: "pointer_offset"@,
                    line: pos.line as nat,
                    column: pos.column as nat,
                    buffer_size: info.buffer_size,
                    offset: opt_nat(offset),
                },
            ),
        }
    } else {
        st
    }
}

/// The candidates an expression contributes: a pointer-offset call, bare or
/// inside a write through the pointer, is a candidate site; everything else
/// contributes nothing.
pub open spec fn scan_expr(st: DetectState, func: Seq<char>, e: Expr) -> DetectState {
    match e {
        Expr::PtrAdd { receiver, offset, pos, .. } => offset_candidate(
            st,
            func,
            receiver@,
            offset,
            pos,
        ),
        Expr::PtrWrite { receiver, offset, pos, .. } => offset_candidate(
            st,
            func,
            receiver@,
            offset,
            pos,
        ),
        _ => st,
    }
}

/// One traversal step: a declaration first binds, then its initializer is
/// scanned; an expression statement is scanned; an unsafe region's body is
/// traversed like any other statement sequence.
pub open spec fn step_stmt(st: DetectState, func: Seq<char>, s: Stmt) -> DetectState
    decreases s,
{
    match s {
        Stmt::Local { name, init, .. } => {
            let bound = bind_local(st, name@, init);
            match init {
                Some(e) => scan_expr(bound, func, e),
                None => bound,
            }
        },
        Stmt::ExprStmt { expr, .. } => scan_expr(st, func, expr),
        Stmt::Unsafe { body, .. } => step_stmts(st, func, body@),
    }
}

/// Traversal of a statement sequence, in lexical order.
pub open spec fn step_stmts(st: DetectState, func: Seq<char>, ss: Seq<Stmt>) -> DetectState
    decreases ss,
{
    if ss.len() == 0 {
        st
    } else {
        step_stmt(step_stmts(st, func, ss.drop_last()), func, ss.last())
    }
}

/// The full traversal of one function, from the empty state.
pub open spec fn fn_detect_state(f: FnItem) -> DetectState {
    step_stmts(init_detect_state(), f.name@, f.body@)
}

/// The candidates of a whole program: each function traversed with its own
/// fresh alias model, candidates concatenated in program order.
pub open spec fn detect_program(fns: Seq<FnItem>) -> Seq<CandidateModel>
    decreases fns.len(),
{
    if fns.len() == 0 {
        Seq::empty()
    } else {
        detect_program(fns.drop_last()) + fn_detect_state(fns.last()).candidates
    }
}

/// The binding recorded for `name`, if any: its origin buffer's identity
/// and known size.
fn lookup_alias(aliases: &Vec<(String, PointerInfo)>, name: &str) -> (r: Option<
    (String, Option<usize>),
>)
    ensures
        match r {
            Some(info) => aliases_of(aliases@).contains_key(name@) && info.0@ == aliases_of(
                aliases@,
            )[name@].buffer_name && opt_nat(info.1) == aliases_of(aliases@)[name@].buffer_size,
            None => !aliases_of(aliases@).contains_key(name@),
        },
{
    let ghost s = aliases@;
    let mut i: usize = aliases.len();
    while i > 0
        invariant
            i <= s.len(),
            s == aliases@,
            forall|k: int| i <= k < s.len() ==> #[trigger] s[k].0@ != name@,
        decreases i,
    {
        i = i - 1;
        if str_eq(aliases[i].0.as_str(), name) {
            proof {
                lemma_aliases_skip_suffix(s, name@, i + 1);
                assert(s.take(i + 1).drop_last() =~= s.take(i as int));
                assert(aliases_of(s.take(i + 1)) == aliases_of(s.take(i as int)).insert(
                    s[i as int].0@,
                    s[i as int].1.deep_view(),
                ));
            }
            return Some((aliases[i].1.buffer_name.clone(), aliases[i].1.buffer_size));
        }
    }
    proof {
        lemma_aliases_skip_suffix(s, name@, 0);
        assert(s.take(0) =~= Seq::<(String, PointerInfo)>::empty());
    }
    None
}

/// The state pair the executable traversal carries, as one ghost value.
pub open spec fn state_of(
    aliases: Seq<(String, PointerInfo)>,
    candidates: Seq<CandidateModel>,
) -> DetectState {
    DetectState { aliases: aliases_of(aliases), candidates }
}

/// Scans one expression for a candidate site.
fn run_expr(
    aliases: &Vec<(String, PointerInfo)>,
    candidates: &mut Vec<OverflowCandidate>,
    func: &str,
    e: &Expr,
)
    ensures
        ({
            let st = scan_expr(state_of(aliases@, old(candidates).deep_view()), func@, *e);
            aliases_of(aliases@) == st.aliases && final(candidates).deep_view() == st.candidates
        }),
{
    match e {
        Expr::PtrAdd { receiver, offset, pos, .. } | Expr::PtrWrite {
            receiver,
            offset,
            pos,
            ..
        } => {
            match lookup_alias(aliases, receiver.as_str()) {
                Some(info) => {
                    let candidate = OverflowCandidate {
                        location: String::from_str(func),
                        buffer_name: info.0,
                        operation: String::from_str("pointer_offset"),
                        line: pos.line,
                        column: pos.column,
                        buffer_size: info.1,
                        offset: *offset,
                    };
                    candidates.push(candidate);
                    proof {
                        let st = scan_expr(
                            state_of(aliases@, old(candidates).deep_view()),
                            func@,
                            *e,
                        );
                        assert(final(candidates).deep_view() =~= st.candidates);
                    }
                },
                None => {},
            }
        },
        _ => {},
    }
}

/// Runs one statement of the traversal.
fn run_stmt(
    aliases: &mut Vec<(String, PointerInfo)>,
    candidates: &mut Vec<OverflowCandidate>,
    func: &str,
    s: &Stmt,
)
    ensures
        ({
            let st = step_stmt(state_of(old(aliases)@, old(candidates).deep_view()), func@, *s);
            aliases_of(final(aliases)@) == st.aliases && final(candidates).deep_view()
                == st.candidates
        }),
    decreases *s,
{
    match s {
        Stmt::Local { name, init, .. } => {
            match init {
                Some(Expr::BufferInit { count, .. }) => {
                    let entry = (
                        name.clone(),
                        PointerInfo { buffer_name: name.clone(), buffer_size: *count },
                    );
                    aliases.push(entry);
                    proof {
                        assert(aliases@.drop_last() =~= old(aliases)@);
                    }
                },
                Some(Expr::PtrExtract { buffer, .. }) => {
                    let inherited = match lookup_alias(aliases, buffer.as_str()) {
                        Some(info) => info.1,
                        None => None,
                    };
                    let entry = (
                        name.clone(),
                        PointerInfo { buffer_name: buffer.clone(), buffer_size: inherited },
                    );
                    aliases.push(entry);
                    proof {
                        assert(aliases@.drop_last() =~= old(aliases)@);
                    }
                },
                _ => {},
            }
            match init {
                Some(e) => run_expr(aliases, candidates, func, e),
                None => {},
            }
        },
        Stmt::ExprStmt { expr, .. } => {
            run_expr(aliases, candidates, func, expr);
        },
        Stmt::Unsafe { body, .. } => {
            run_stmts(aliases, candidates, func, body);
        },
    }
}

/// Runs a statement sequence of the traversal, in lexical order.
fn run_stmts(
    aliases: &mut Vec<(String, PointerInfo)>,
    candidates: &mut Vec<OverflowCandidate>,
    func: &str,
    ss: &Vec<Stmt>,
)
    ensures
        ({
            let st = step_stmts(state_of(old(aliases)@, old(candidates).deep_view()), func@, ss@);
            aliases_of(final(aliases)@) == st.aliases && final(candidates).deep_view()
                == st.candidates
        }),
    decreases ss@,
{
    let ghost st0 = state_of(old(aliases)@, old(candidates).deep_view());
    let n = ss.len();
    let mut i: usize = 0;
    while i < n
        invariant
            i <= n,
            n == ss@.len(),
            ({
                let st = step_stmts(st0, func@, ss@.take(i as int));
                aliases_of(aliases@) == st.aliases && candidates.deep_view() == st.candidates
            }),
        decreases n - i,
    {
        proof {
            assert(ss@.take(i + 1).drop_last() =~= ss@.take(i as int));
            assert(ss@.take(i + 1).last() == ss@[i as int]);
        }
        run_stmt(aliases, candidates, func, &ss[i]);
        i = i + 1;
    }
    proof {
        assert(ss@.take(n as int) =~= ss@);
    }
}

/// Detects the candidates of one function body, and exposes the alias
/// model the traversal built, for reuse by later stages.
pub fn detect_function(f: &FnItem) -> (r: (Vec<(String, PointerInfo)>, Vec<OverflowCandidate>))
    ensures
        aliases_of(r.0@) == fn_detect_state(*f).aliases,
        r.1.deep_view() == fn_detect_state(*f).candidates,
{
    let mut aliases: Vec<(String, PointerInfo)> = Vec::new();
    let mut candidates: Vec<OverflowCandidate> = Vec::new();
    proof {
        assert(aliases@ =~= Seq::<(String, PointerInfo)>::empty());
        assert(candidates.deep_view() =~= Seq::<CandidateModel>::empty());
        assert(state_of(aliases@, candidates.deep_view()) == init_detect_state());
    }
    run_stmts(&mut aliases, &mut candidates, f.name.as_str(), &f.body);
    (aliases, candidates)
}

/// Detects every candidate of a parsed program — each function traversed
/// with its own fresh alias model — and appends the externally supplied
/// candidates from the fallback signal source.
pub fn find_buffer_overflows(program: &Program, mir_candidates: Vec<OverflowCandidate>) -> (r: Vec<
    OverflowCandidate,
>)
    ensures
        r.deep_view() == detect_program(program.functions@) + mir_candidates.deep_view(),
{
    let mut result: Vec<OverflowCandidate> = Vec::new();
    let n = program.functions.len();
    let mut i: usize = 0;
    while i < n
        invariant
            i <= n,
            n == program.functions@.len(),
            result.deep_view() == detect_program(program.functions@.take(i as int)),
        decreases n - i,
    {
        proof {
            assert(program.functions@.take(i + 1).drop_last() =~= program.functions@.take(i as int));
            assert(program.functions@.take(i + 1).last() == program.functions@[i as int]);
        }
        let (_model, mut fn_candidates) = detect_function(&program.functions[i]);
        let ghost before = result.deep_view();
        let ghost fresh = fn_candidates.deep_view();
        result.append(&mut fn_candidates);
        proof {
            assert(result.deep_view() =~= before + fresh);
        }
        i = i + 1;
    }
    proof {
        assert(program.functions@.take(n as int) =~= program.functions@);
    }
    let ghost before = result.deep_view();
    let ghost fresh = mir_candidates.deep_view();
    let mut tail = mir_candidates;
    result.append(&mut tail);
    proof {
        assert(result.deep_view() =~= before + fresh);
    }
    result
}

} // verus!
