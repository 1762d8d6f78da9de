//! The fallback signal source: a line-oriented scan over program text and
//! over a lowered intermediate representation, surfacing vector-style
//! allocations, pointer-arithmetic call sites, and unsafe regions that
//! write through an offset pointer. It is a weaker, pattern-based signal
//! feeding the same candidate list as the tree-based detector.

use vstd::prelude::*;
use vstd::string::StringExecFns;

use crate::analyzer::{CandidateModel, OverflowCandidate};
use crate::rectifier::Rectifier;
use crate::solver::BufferSolver;
use crate::text::{
    chars_to_string, check_match_at, clone_chars, contains_pattern, contains_seq, copy_range,
    digit_run_end, digit_val_of, is_digit, join_lines, join_lines_exec, lines_of, matches_at,
    parse_digits, parsed_value, scan_digit_run, split_lines, to_chars, trim_chars, trim_of,
    u64_to_string,
};

verus! {

/// Is there a `<pat><digits>)` call at position `j`: the pattern, then a
/// nonempty digit run, then a closing parenthesis?
pub open spec fn offset_call_at(s: Seq<char>, pat: Seq<char>, j: int) -> bool {
    &&& matches_at(s, pat, j)
    &&& j + pat.len() < s.len()
    &&& is_digit(s[j + pat.len()])
    &&& digit_run_end(s, j + pat.len()) < s.len()
    &&& s[digit_run_end(s, j + pat.len())] == ')'
}

/// Position of the first such call at or after `j`.
pub open spec fn first_offset_call_from(s: Seq<char>, pat: Seq<char>, j: int) -> Option<int>
    decreases s.len() - j,
{
    if j >= s.len() {
        None
    } else if offset_call_at(s, pat, j) {
        Some(j)
    } else {
        first_offset_call_from(s, pat, j + 1)
    }
}

proof fn lemma_first_offset_call_prefix(s: Seq<char>, pat: Seq<char>, j: int)
    requires
        0 <= j <= s.len(),
        forall|k: int| 0 <= k < j ==> !offset_call_at(s, pat, k),
    ensures
        first_offset_call_from(s, pat, 0) == first_offset_call_from(s, pat, j),
    decreases j,
{
    if j > 0 {
        lemma_first_offset_call_prefix(s, pat, j - 1);
    }
}

/// The parsed offset of the first `<pat><digits>)` call in `s`, if any.
pub open spec fn offset_call_value(s: Seq<char>, pat: Seq<char>) -> Option<nat> {
    match first_offset_call_from(s, pat, 0) {
        Some(j) => Some(parsed_value(s, j + pat.len(), digit_run_end(s, j + pat.len()))),
        None => None,
    }
}

/// Finds the first `<pat><digits>)` call and parses its offset.
pub(crate) fn find_offset_call(s: &Vec<char>, pat: &Vec<char>) -> (r: Option<usize>)
    ensures
        match r {
            Some(v) => offset_call_value(s@, pat@) == Some(v as nat),
            None => offset_call_value(s@, pat@) is None,
        },
{
    let n = s.len();
    let mut j: usize = 0;
    while j < n
        invariant
            j <= n,
            n == s@.len(),
            forall|k: int| 0 <= k < j ==> !offset_call_at(s@, pat@, k),
        decreases n - j,
    {
        if check_match_at(s, pat, j) {
            let d0 = j + pat.len();
            if d0 < n && digit_val_of(s[d0]) < 10 {
                let e = scan_digit_run(s, d0);
                if e < n && s[e] == ')' {
                    proof {
                        lemma_first_offset_call_prefix(s@, pat@, j as int);
                    }
                    return Some(parse_digits(s, d0, e));
                }
            }
        }
        j = j + 1;
    }
    proof {
        lemma_first_offset_call_prefix(s@, pat@, n as int);
    }
    None
}

/// The first `]` at or after `i`, or the end of the text.
pub open spec fn close_bracket_from(s: Seq<char>, i: int) -> int
    decreases s.len() - i,
{
    if i < 0 || i >= s.len() || s[i] == ']' {
        i
    } else {
        close_bracket_from(s, i + 1)
    }
}

/// Scans to the first `]` at or after `i`.
fn scan_to_close(s: &Vec<char>, i: usize) -> (r: usize)
    requires
        i <= s@.len(),
    ensures
        r == close_bracket_from(s@, i as int),
        i <= r <= s@.len(),
{
    let n = s.len();
    let mut j = i;
    while j < n && s[j] != ']'
        invariant
            i <= j <= n,
            n == s@.len(),
            close_bracket_from(s@, i as int) == close_bracket_from(s@, j as int),
        decreases n - j,
    {
        j = j + 1;
    }
    j
}

/// Is there a vector-style allocation at position `j`: the constructor
/// opening, then anything up to a closing bracket?
pub open spec fn vec_alloc_at(s: Seq<char>, j: int) -> bool {
    matches_at(s, "vec!["@, j) && close_bracket_from(s, j + 5) < s.len()
}

/// Position of the first vector-style allocation at or after `j`.
pub open spec fn first_vec_alloc_from(s: Seq<char>, j: int) -> Option<int>
    decreases s.len() - j,
{
    if j >= s.len() {
        None
    } else if vec_alloc_at(s, j) {
        Some(j)
    } else {
        first_vec_alloc_from(s, j + 1)
    }
}

proof fn lemma_first_vec_alloc_prefix(s: Seq<char>, j: int)
    requires
        0 <= j <= s.len(),
        forall|k: int| 0 <= k < j ==> !vec_alloc_at(s, k),
    ensures
        first_vec_alloc_from(s, 0) == first_vec_alloc_from(s, j),
    decreases j,
{
    if j > 0 {
        lemma_first_vec_alloc_prefix(s, j - 1);
    }
}

/// The text of the first vector-style allocation in `s`, if any.
pub open spec fn line_vec_alloc(s: Seq<char>) -> Option<Seq<char>> {
    match first_vec_alloc_from(s, 0) {
        Some(j) => Some(s.subrange(j, close_bracket_from(s, j + 5) + 1)),
        None => None,
    }
}

/// Finds the first vector-style allocation on one line.
fn find_vec_alloc(s: &Vec<char>) -> (r: Option<Vec<char>>)
    ensures
        match r {
            Some(t) => line_vec_alloc(s@) == Some(t@),
            None => line_vec_alloc(s@) is None,
        },
{
    let pat = to_chars("vec![");
    let n = s.len();
    let mut j: usize = 0;
    while j < n
        invariant
            j <= n,
            n == s@.len(),
            pat@ == "vec!["@,
            forall|k: int| 0 <= k < j ==> !vec_alloc_at(s@, k),
        decreases n - j,
    {
        if check_match_at(s, &pat, j) {
            proof {
                reveal_strlit("vec![");
            }
            let e = scan_to_close(s, j + 5);
            if e < n {
                proof {
                    lemma_first_vec_alloc_prefix(s@, j as int);
                }
                return Some(copy_range(s, j, e + 1));
            }
        }
        j = j + 1;
    }
    proof {
        lemma_first_vec_alloc_prefix(s@, n as int);
    }
    None
}

/// The allocation texts the first `k` lines contribute.
pub open spec fn vec_allocs_upto(lines: Seq<Seq<char>>, k: int) -> Seq<Seq<char>>
    decreases k,
{
    if k <= 0 {
        Seq::empty()
    } else {
        vec_allocs_upto(lines, k - 1) + match line_vec_alloc(lines[k - 1]) {
            Some(t) => seq![t],
            None => Seq::<Seq<char>>::empty(),
        }
    }
}

/// A candidate the line scan emits: the trimmed site text, the canonical
/// buffer identity of the lowered form, a one-based line, and the parsed
/// offset; the size is unknown to this signal source.
pub open spec fn scan_candidate(loc: Seq<char>, line_no: nat, off: nat) -> CandidateModel {
    CandidateModel {
        location: loc,
        buffer_name: "buffer"@,
        operation: "pointer_offset"@,
        line: line_no,
        column: 0,
        buffer_size: None,
        offset: Some(off),
    }
}

/// The pointer-operation site texts the first `k` lines contribute.
pub open spec fn ptr_ops_upto(lines: Seq<Seq<char>>, k: int) -> Seq<Seq<char>>
    decreases k,
{
    if k <= 0 {
        Seq::empty()
    } else {
        ptr_ops_upto(lines, k - 1) + match offset_call_value(lines[k - 1], "ptr.add("@) {
            Some(_) => seq![trim_of(lines[k - 1])],
            None => Seq::<Seq<char>>::empty(),
        }
    }
}

/// The candidates the first `k` lines contribute, one per line with a
/// pointer-offset call.
pub open spec fn ptr_op_cands_upto(lines: Seq<Seq<char>>, k: int) -> Seq<CandidateModel>
    decreases k,
{
    if k <= 0 {
        Seq::empty()
    } else {
        ptr_op_cands_upto(lines, k - 1) + match offset_call_value(lines[k - 1], "ptr.add("@) {
            Some(v) => seq![scan_candidate(trim_of(lines[k - 1]), k as nat, v)],
            None => Seq::<CandidateModel>::empty(),
        }
    }
}

/// Scans lines for vector-style allocations.
fn find_vec_allocations(dst: &mut Vec<String>, lines: &Vec<Vec<char>>)
    ensures
        final(dst).deep_view() == old(dst).deep_view() + vec_allocs_upto(
            lines.deep_view(),
            lines.deep_view().len() as int,
        ),
{
    let ghost base = dst.deep_view();
    let n = lines.len();
    let mut i: usize = 0;
    while i < n
        invariant
            i <= n,
            n == lines@.len(),
            base == old(dst).deep_view(),
            dst.deep_view() == base + vec_allocs_upto(lines.deep_view(), i as int),
        decreases n - i,
    {
        let ghost ldv = lines.deep_view();
        let ghost prev = dst.deep_view();
        proof {
            assert(ldv[i as int] == lines@[i as int]@);
        }
        match find_vec_alloc(&lines[i]) {
            Some(t) => {
                let text = chars_to_string(&t);
                dst.push(text);
                proof {
                    assert(dst.deep_view() =~~= prev.push(t@));
                    assert(vec_allocs_upto(ldv, i + 1) == vec_allocs_upto(ldv, i as int) + seq![
                        t@,
                    ]);
                    assert(dst.deep_view() =~~= base + vec_allocs_upto(ldv, i + 1));
                }
            },
            None => {
                proof {
                    assert(vec_allocs_upto(ldv, i + 1) =~~= vec_allocs_upto(ldv, i as int));
                    assert(dst.deep_view() =~~= base + vec_allocs_upto(ldv, i + 1));
                }
            },
        }
        i = i + 1;
    }
}

/// Scans lines for pointer-offset call sites, recording each site's
/// trimmed text and a candidate with its parsed offset.
fn find_pointer_operations(
    ops: &mut Vec<String>,
    cands: &mut Vec<OverflowCandidate>,
    lines: &Vec<Vec<char>>,
)
    ensures
        final(ops).deep_view() == old(ops).deep_view() + ptr_ops_upto(
            lines.deep_view(),
            lines.deep_view().len() as int,
        ),
        final(cands).deep_view() == old(cands).deep_view() + ptr_op_cands_upto(
            lines.deep_view(),
            lines.deep_view().len() as int,
        ),
{
    let pat = to_chars("ptr.add(");
    let ghost ops_base = ops.deep_view();
    let ghost cands_base = cands.deep_view();
    let n = lines.len();
    let mut i: usize = 0;
    while i < n
        invariant
            i <= n,
            n == lines@.len(),
            pat@ == "ptr.add("@,
            ops_base == old(ops).deep_view(),
            cands_base == old(cands).deep_view(),
            ops.deep_view() == ops_base + ptr_ops_upto(lines.deep_view(), i as int),
            cands.deep_view() == cands_base + ptr_op_cands_upto(lines.deep_view(), i as int),
        decreases n - i,
    {
        let ghost ldv = lines.deep_view();
        let ghost ops_prev = ops.deep_view();
        let ghost cands_prev = cands.deep_view();
        proof {
            assert(ldv[i as int] == lines@[i as int]@);
        }
        match find_offset_call(&lines[i], &pat) {
            Some(v) => {
                let trimmed = trim_chars(&lines[i]);
                let site = chars_to_string(&trimmed);
                let candidate = OverflowCandidate {
                    location: chars_to_string(&trimmed),
                    buffer_name: String::from_str("buffer"),
                    operation: String::from_str("pointer_offset"),
                    line: i + 1,
                    column: 0,
                    buffer_size: None,
                    offset: Some(v),
                };
                ops.push(site);
                cands.push(candidate);
                proof {
                    assert(ops.deep_view() =~~= ops_prev.push(trim_of(ldv[i as int])));
                    assert(ptr_ops_upto(ldv, i + 1) == ptr_ops_upto(ldv, i as int) + seq![
                        trim_of(ldv[i as int]),
                    ]);
                    assert(ops.deep_view() =~~= ops_base + ptr_ops_upto(ldv, i + 1));
                    let cm = scan_candidate(trim_of(ldv[i as int]), (i + 1) as nat, v as nat);
                    assert(cands.deep_view() =~~= cands_prev.push(cm));
                    assert(ptr_op_cands_upto(ldv, i + 1) == ptr_op_cands_upto(ldv, i as int)
                        + seq![cm]);
                    assert(cands.deep_view() =~~= cands_base + ptr_op_cands_upto(ldv, i + 1));
                }
            },
            None => {
                proof {
                    assert(ptr_ops_upto(ldv, i + 1) =~~= ptr_ops_upto(ldv, i as int));
                    assert(ptr_op_cands_upto(ldv, i + 1) =~~= ptr_op_cands_upto(ldv, i as int));
                    assert(ops.deep_view() =~~= ops_base + ptr_ops_upto(ldv, i + 1));
                    assert(cands.deep_view() =~~= cands_base + ptr_op_cands_upto(ldv, i + 1));
                }
            },
        }
        i = i + 1;
    }
}

/// The exclusive end of the brace-balanced block starting at line `i` with
/// running balance `bal`: one past the line on which the balance first
/// returns to zero at a closing brace, or the end of the text.
pub open spec fn block_end(lines: Seq<Seq<char>>, i: int, bal: int) -> int
    decreases lines.len() - i,
{
    if i < 0 || i >= lines.len() {
        lines.len() as int
    } else {
        let opened = bal + if contains_seq(lines[i], "{"@) {
            1int
        } else {
            0int
        };
        if contains_seq(lines[i], "}"@) {
            if opened - 1 == 0 {
                i + 1
            } else {
                block_end(lines, i + 1, opened - 1)
            }
        } else {
            block_end(lines, i + 1, opened)
        }
    }
}

proof fn lemma_block_end_bounds(lines: Seq<Seq<char>>, i: int, bal: int)
    requires
        0 <= i <= lines.len(),
    ensures
        block_end(lines, i, bal) <= lines.len(),
        i < lines.len() ==> i + 1 <= block_end(lines, i, bal),
    decreases lines.len() - i,
{
    if i < lines.len() {
        let opened = bal + if contains_seq(lines[i], "{"@) {
            1int
        } else {
            0int
        };
        if contains_seq(lines[i], "}"@) {
            if opened - 1 != 0 {
                lemma_block_end_bounds(lines, i + 1, opened - 1);
            }
        } else {
            lemma_block_end_bounds(lines, i + 1, opened);
        }
    }
}

/// Scans to the end of the brace-balanced block starting at line `i`.
fn scan_block_end(lines: &Vec<Vec<char>>, i: usize) -> (r: usize)
    requires
        i <= lines@.len(),
    ensures
        r == block_end(lines.deep_view(), i as int, 0),
        i <= r <= lines@.len(),
        i < lines@.len() ==> i + 1 <= r,
{
    let open_pat = to_chars("{");
    let close_pat = to_chars("}");
    let n = lines.len();
    let mut j = i;
    let mut bal: i128 = 0;
    proof {
        lemma_block_end_bounds(lines.deep_view(), i as int, 0);
    }
    while j < n
        invariant
            i <= j <= n,
            n == lines@.len(),
            open_pat@ == "{"@,
            close_pat@ == "}"@,
            -(j as int) <= bal <= j as int,
            block_end(lines.deep_view(), i as int, 0) == block_end(
                lines.deep_view(),
                j as int,
                bal as int,
            ),
            i <= block_end(lines.deep_view(), i as int, 0) <= n,
        decreases n - j,
    {
        proof {
            assert(lines.deep_view()[j as int] == lines@[j as int]@);
        }
        if contains_pattern(&lines[j], &open_pat) {
            bal = bal + 1;
        }
        if contains_pattern(&lines[j], &close_pat) {
            bal = bal - 1;
            if bal == 0 {
                return j + 1;
            }
        }
        j = j + 1;
    }
    n
}

/// The candidates the brace-balanced unsafe regions from line `i` on
/// contribute: each region containing a write through an offset pointer
/// yields one candidate at the region's first line, and scanning resumes
/// after the region.
pub open spec fn unsafe_cands_from(lines: Seq<Seq<char>>, i: int) -> Seq<CandidateModel>
    decreases lines.len() - i,
    via unsafe_cands_from_dec
{
    if i >= lines.len() {
        Seq::empty()
    } else if contains_seq(lines[i], "unsafe"@) {
        let e = block_end(lines, i, 0);
        let block = join_lines(lines.subrange(i, e));
        let found = match offset_call_value(block, "*ptr.add("@) {
            Some(v) => seq![scan_candidate(trim_of(block), (i + 1) as nat, v)],
            None => Seq::<CandidateModel>::empty(),
        };
        found + unsafe_cands_from(lines, e)
    } else {
        unsafe_cands_from(lines, i + 1)
    }
}

#[via_fn]
proof fn unsafe_cands_from_dec(lines: Seq<Seq<char>>, i: int) {
    if 0 <= i < lines.len() {
        lemma_block_end_bounds(lines, i, 0);
    }
}

/// Scans lines for unsafe regions that write through an offset pointer.
fn detect_buffer_overflows(cands: &mut Vec<OverflowCandidate>, lines: &Vec<Vec<char>>)
    ensures
        final(cands).deep_view() == old(cands).deep_view() + unsafe_cands_from(
            lines.deep_view(),
            0,
        ),
{
    let unsafe_pat = to_chars("unsafe");
    let star_pat = to_chars("*ptr.add(");
    let ghost base = cands.deep_view();
    let n = lines.len();
    let mut i: usize = 0;
    while i < n
        invariant
            i <= n,
            n == lines@.len(),
            unsafe_pat@ == "unsafe"@,
            star_pat@ == "*ptr.add("@,
            base == old(cands).deep_view(),
            base + unsafe_cands_from(lines.deep_view(), 0) == cands.deep_view()
                + unsafe_cands_from(lines.deep_view(), i as int),
        decreases n - i,
    {
        proof {
            assert(lines.deep_view()[i as int] == lines@[i as int]@);
        }
        if contains_pattern(&lines[i], &unsafe_pat) {
            let e = scan_block_end(lines, i);
            let mut block_lines: Vec<Vec<char>> = Vec::new();
            let mut k = i;
            while k < e
                invariant
                    i <= k <= e <= n,
                    n == lines@.len(),
                    block_lines.deep_view() == lines.deep_view().subrange(i as int, k as int),
                decreases e - k,
            {
                let ghost bl_prev = block_lines.deep_view();
                block_lines.push(clone_chars(&lines[k]));
                proof {
                    assert(block_lines.deep_view() =~~= bl_prev.push(lines@[k as int]@));
                    assert(lines.deep_view().subrange(i as int, k + 1) =~= lines.deep_view()
                        .subrange(i as int, k as int).push(lines.deep_view()[k as int]));
                    assert(lines.deep_view()[k as int] == lines@[k as int]@);
                }
                k = k + 1;
            }
            let block = join_lines_exec(&block_lines);
            let ghost prev = cands.deep_view();
            let ghost ldv = lines.deep_view();
            let ghost blockq = join_lines(ldv.subrange(i as int, e as int));
            match find_offset_call(&block, &star_pat) {
                Some(v) => {
                    let trimmed = trim_chars(&block);
                    let candidate = OverflowCandidate {
                        location: chars_to_string(&trimmed),
                        buffer_name: String::from_str("buffer"),
                        operation: String::from_str("pointer_offset"),
                        line: i + 1,
                        column: 0,
                        buffer_size: None,
                        offset: Some(v),
                    };
                    cands.push(candidate);
                    proof {
                        let found = seq![
                            scan_candidate(trim_of(blockq), (i + 1) as nat, v as nat),
                        ];
                        assert(unsafe_cands_from(ldv, i as int) == found + unsafe_cands_from(
                            ldv,
                            e as int,
                        ));
                        assert(cands.deep_view() =~~= prev + found);
                        assert(prev + (found + unsafe_cands_from(ldv, e as int)) =~~= (prev
                            + found) + unsafe_cands_from(ldv, e as int));
                    }
                },
                None => {
                    proof {
                        assert(unsafe_cands_from(ldv, i as int) =~~= unsafe_cands_from(
                            ldv,
                            e as int,
                        ));
                    }
                },
            }
            proof {
                assert(base + unsafe_cands_from(ldv, 0) =~~= cands.deep_view()
                    + unsafe_cands_from(ldv, e as int));
            }
            i = e;
        } else {
            i = i + 1;
        }
    }
}

/// A possibly-absent count, rendered for the findings summary.
pub open spec fn opt_nat_text(o: Option<nat>) -> Seq<char> {
    match o {
        Some(n) => "Some("@ + crate::text::dec_digits(n) + ")"@,
        None => "None"@,
    }
}

/// One finding's lines in the summary.
pub open spec fn summary_entry(cm: CandidateModel, idx: nat) -> Seq<char> {
    "\nIssue #"@ + crate::text::dec_digits(idx) + "\nLocation: "@ + cm.location + "\nOperation: "@
        + cm.operation + "\nDescription: unchecked pointer offset: "@ + opt_nat_text(cm.offset)
        + "\n--------------------------\n"@
}

/// The summary lines for the first `k` findings.
pub open spec fn summary_entries(cs: Seq<CandidateModel>, k: int) -> Seq<char>
    decreases k,
{
    if k <= 0 {
        Seq::empty()
    } else {
        summary_entries(cs, k - 1) + summary_entry(cs[k - 1], k as nat)
    }
}

/// The whole findings summary: every finding in order, or a line saying
/// nothing was found.
pub open spec fn analysis_summary_text(cs: Seq<CandidateModel>) -> Seq<char> {
    if cs.len() == 0 {
        "\nNo buffer overflow issues found.\n"@
    } else {
        "\nPotential buffer overflow issues found:\n=========================\n"@
            + summary_entries(cs, cs.len() as int)
    }
}

/// Ghost image of a [`MirAnalyzer`]: every list as a sequence, the solver
/// as its registry, the rectifier as the source it was built over.
pub struct MirModel {
    pub output_dir: Seq<char>,
    pub source_file: Seq<char>,
    pub allocations: Seq<Seq<char>>,
    pub pointer_operations: Seq<Seq<char>>,
    pub candidates: Seq<CandidateModel>,
    pub rectifier: Option<Seq<char>>,
    pub solver: Map<Seq<char>, u64>,
}

/// What one pass of the line scanners over a source text contributes: its
/// allocations, its pointer-operation sites, and one candidate per site.
pub open spec fn scan_source_model(m: MirModel, content: Seq<char>) -> MirModel {
    let lines = lines_of(content);
    MirModel {
        allocations: m.allocations + vec_allocs_upto(lines, lines.len() as int),
        pointer_operations: m.pointer_operations + ptr_ops_upto(lines, lines.len() as int),
        candidates: m.candidates + ptr_op_cands_upto(lines, lines.len() as int),
        ..m
    }
}

/// What one pass over a lowered-representation text contributes: the same
/// line scans, plus the unsafe-region scan.
pub open spec fn scan_mir_model(m: MirModel, content: Seq<char>) -> MirModel {
    let lines = lines_of(content);
    let scanned = scan_source_model(m, content);
    MirModel { candidates: scanned.candidates + unsafe_cands_from(lines, 0), ..scanned }
}

/// The passes over a sequence of lowered-representation texts, in order.
pub open spec fn scan_mirs_model(m: MirModel, contents: Seq<Seq<char>>) -> MirModel
    decreases contents.len(),
{
    if contents.len() == 0 {
        m
    } else {
        scan_mir_model(scan_mirs_model(m, contents.drop_last()), contents.last())
    }
}

/// The fallback analyzer: accumulates the line scanners' findings over a
/// source text and any number of lowered-representation texts, and owns
/// the feasibility solver and the rectifier for the later stages.
pub struct MirAnalyzer {
    output_dir: String,
    source_file: String,
    vec_allocations: Vec<String>,
    pointer_operations: Vec<String>,
    overflow_candidates: Vec<OverflowCandidate>,
    rectifier: Option<Rectifier>,
    solver: BufferSolver,
}

impl View for MirAnalyzer {
    type V = MirModel;

    closed spec fn view(&self) -> MirModel {
        MirModel {
            output_dir: self.output_dir@,
            source_file: self.source_file@,
            allocations: self.vec_allocations.deep_view(),
            pointer_operations: self.pointer_operations.deep_view(),
            candidates: self.overflow_candidates.deep_view(),
            rectifier: match self.rectifier {
                Some(r) => Some(r@),
                None => None,
            },
            solver: self.solver@,
        }
    }
}

impl MirAnalyzer {
    pub fn new(output_dir: String) -> (r: MirAnalyzer)
        ensures
            r@.output_dir == output_dir@,
            r@.source_file == Seq::<char>::empty(),
            r@.allocations == Seq::<Seq<char>>::empty(),
            r@.pointer_operations == Seq::<Seq<char>>::empty(),
            r@.candidates == Seq::<CandidateModel>::empty(),
            r@.rectifier is None,
            r@.solver == Map::<Seq<char>, u64>::empty(),
    {
        let r = MirAnalyzer {
            output_dir,
            source_file: String::new(),
            vec_allocations: Vec::new(),
            pointer_operations: Vec::new(),
            overflow_candidates: Vec::new(),
            rectifier: None,
            solver: BufferSolver::new(),
        };
        proof {
            assert(r@.allocations =~~= Seq::<Seq<char>>::empty());
            assert(r@.pointer_operations =~~= Seq::<Seq<char>>::empty());
            assert(r@.candidates =~~= Seq::<CandidateModel>::empty());
        }
        r
    }

    /// Records which source file the findings will be attributed to.
    pub fn set_source_file(&mut self, path: String)
        ensures
            final(self)@ == (MirModel { source_file: path@, ..old(self)@ }),
    {
        self.source_file = path;
    }

    /// Runs the line scanners over the source text and over each
    /// lowered-representation text in order, and builds the rectifier over
    /// the source.
    pub fn analyze(&mut self, source: &str, mir_contents: &Vec<String>)
        ensures
            final(self)@ == (MirModel {
                rectifier: Some(source@),
                ..scan_mirs_model(scan_source_model(old(self)@, source@), mir_contents.deep_view())
            }),
    {
        let chars = to_chars(source);
        let lines = split_lines(&chars);
        find_vec_allocations(&mut self.vec_allocations, &lines);
        find_pointer_operations(&mut self.pointer_operations, &mut self.overflow_candidates, &lines);
        let ghost after_source = scan_source_model(old(self)@, source@);
        proof {
            assert(self@ == after_source);
        }
        let n = mir_contents.len();
        let mut i: usize = 0;
        while i < n
            invariant
                i <= n,
                n == mir_contents@.len(),
                self@ == scan_mirs_model(after_source, mir_contents.deep_view().take(i as int)),
            decreases n - i,
        {
            let ghost mdv = mir_contents.deep_view();
            let ghost before = self@;
            proof {
                assert(mdv.take(i + 1).drop_last() =~= mdv.take(i as int));
                assert(mdv.take(i + 1).last() == mdv[i as int]);
                assert(mdv[i as int] == mir_contents@[i as int]@);
            }
            let mir_chars = to_chars(mir_contents[i].as_str());
            let mir_lines = split_lines(&mir_chars);
            find_vec_allocations(&mut self.vec_allocations, &mir_lines);
            find_pointer_operations(
                &mut self.pointer_operations,
                &mut self.overflow_candidates,
                &mir_lines,
            );
            detect_buffer_overflows(&mut self.overflow_candidates, &mir_lines);
            proof {
                assert(self@ == scan_mir_model(before, mdv[i as int]));
            }
            i = i + 1;
        }
        proof {
            assert(mir_contents.deep_view().take(n as int) =~= mir_contents.deep_view());
        }
        self.rectifier = Some(Rectifier::new(String::from_str(source)));
    }

    /// Renders the human-facing summary of the accumulated findings.
    pub fn analysis_summary(&self) -> (r: String)
        ensures
            r@ == analysis_summary_text(self@.candidates),
    {
        if self.overflow_candidates.len() == 0 {
            proof {
                assert(self@.candidates.len() == 0);
            }
            return String::from_str("\nNo buffer overflow issues found.\n");
        }
        let ghost cs = self.overflow_candidates.deep_view();
        let mut r = String::from_str(
            "\nPotential buffer overflow issues found:\n=========================\n",
        );
        let ghost header = r@;
        let n = self.overflow_candidates.len();
        let mut i: usize = 0;
        while i < n
            invariant
                i <= n,
                n == self.overflow_candidates@.len(),
                cs == self.overflow_candidates.deep_view(),
                r@ == header + summary_entries(cs, i as int),
            decreases n - i,
        {
            let ghost before = r@;
            proof {
                assert(cs[i as int] == self.overflow_candidates@[i as int].deep_view());
            }
            let idx = u64_to_string((i + 1) as u64);
            r.append("\nIssue #");
            r.append(idx.as_str());
            r.append("\nLocation: ");
            r.append(self.overflow_candidates[i].location.as_str());
            r.append("\nOperation: ");
            r.append(self.overflow_candidates[i].operation.as_str());
            r.append("\nDescription: unchecked pointer offset: ");
            match self.overflow_candidates[i].offset {
                Some(o) => {
                    let digits = u64_to_string(o as u64);
                    r.append("Some(");
                    r.append(digits.as_str());
                    r.append(")");
                },
                None => {
                    r.append("None");
                },
            }
            r.append("\n--------------------------\n");
            proof {
                assert(r@ =~= before + summary_entry(cs[i as int], (i + 1) as nat));
                assert(r@ =~= header + summary_entries(cs, i + 1));
            }
            i = i + 1;
        }
        r
    }

    /// The accumulated candidates, as a fresh list.
    pub fn get_fixes(&self) -> (r: Vec<OverflowCandidate>)
        ensures
            r.deep_view() == self@.candidates,
    {
        let n = self.overflow_candidates.len();
        let mut r: Vec<OverflowCandidate> = Vec::new();
        let mut i: usize = 0;
        while i < n
            invariant
                i <= n,
                n == self.overflow_candidates@.len(),
                r.deep_view() =~~= self.overflow_candidates.deep_view().take(i as int),
            decreases n - i,
        {
            let ghost prev = r.deep_view();
            let ghost dv = self.overflow_candidates.deep_view();
            r.push(self.overflow_candidates[i].clone());
            proof {
                assert(r.deep_view() =~~= prev.push(self.overflow_candidates@[i as int].deep_view()));
                assert(dv.take(i + 1) =~= dv.take(i as int).push(dv[i as int]));
                assert(dv[i as int] == self.overflow_candidates@[i as int].deep_view());
                assert(r.deep_view() =~~= dv.take(i + 1));
            }
            i = i + 1;
        }
        proof {
            assert(self.overflow_candidates.deep_view().take(n as int)
                =~~= self.overflow_candidates.deep_view());
        }
        r
    }

    /// The rectifier built by [`MirAnalyzer::analyze`].
    pub fn get_rectifier(&self) -> (r: &Rectifier)
        requires
            self@.rectifier is Some,
        ensures
            r@ == self@.rectifier->0,
    {
        match &self.rectifier {
            Some(r) => r,
            None => unreached(),
        }
    }

    /// The feasibility solver.
    pub fn get_solver(&self) -> (r: &BufferSolver)
        ensures
            r@ == self@.solver,
    {
        &self.solver
    }
}

} // verus!
