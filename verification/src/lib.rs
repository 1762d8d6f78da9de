//! Static detection, confirmation, and repair of out-of-bounds buffer
//! accesses in a small systems-language fragment, together with black-box
//! validation that a repair preserves observable program behaviour.
//!
//! The pipeline has four stages: a candidate detector that walks a parsed
//! program tree and tracks which pointers derive from which buffers, a
//! feasibility checker that decides whether an access offset can reach or
//! exceed a buffer's size, a rectifier that synthesizes a bounds-checked
//! replacement for a confirmed access, and a differential validator that
//! compares the observable behaviour of the original and repaired programs.
//!
//! [`RuPair`] ties the stages together over one source text: the fallback
//! line scanners gather candidates, the feasibility checker confirms them,
//! each confirmed candidate's line is replaced by its synthesized repair,
//! and a findings report is assembled alongside.

pub mod analyzer;
pub mod ast;
pub mod frontend;
pub mod mir_analyzer;
pub mod rectifier;
pub mod solver;
pub mod text;
pub mod validator;

use vstd::prelude::*;
use vstd::string::StringExecFns;

use crate::analyzer::CandidateModel;
use crate::mir_analyzer::{scan_mirs_model, scan_source_model, MirAnalyzer, MirModel};
use crate::rectifier::{
    fixed_code_text, opt_count_text, selected_line, CodeFix, FixType, Rectifier,
};
use crate::text::{
    chars_to_string, contains_seq, dec_digits, join_lines, join_lines_exec, lines_of, split_lines,
    str_eq, to_chars, u64_to_string,
};
use crate::validator::{traces_equivalent, ExecutionTrace};

verus! {

/// The buffer size a candidate's model carries, zero standing for unknown.
pub open spec fn model_size(cm: CandidateModel) -> nat {
    match cm.buffer_size {
        Some(n) => n,
        None => 0,
    }
}

/// The offset a candidate's model carries, zero standing for unknown.
pub open spec fn model_offset(cm: CandidateModel) -> nat {
    match cm.offset {
        Some(n) => n,
        None => 0,
    }
}

/// The feasibility verdict at model level: unknown size or offset is
/// conservatively an overflow, otherwise the offset must stay below the
/// size.
pub open spec fn model_verdict(cm: CandidateModel) -> bool {
    model_size(cm) == 0 || model_offset(cm) == 0 || model_offset(cm) >= model_size(cm)
}

/// The fix shape at model level, mirroring the rectifier's classification.
pub open spec fn model_fix_type(cm: CandidateModel) -> FixType {
    if contains_seq(cm.operation, "unsafe"@) {
        FixType::UnsafeToSafe
    } else if model_verdict(cm) {
        if model_offset(cm) > model_size(cm) {
            FixType::VecResize
        } else {
            FixType::BoundCheck
        }
    } else {
        FixType::SafeAccess
    }
}

/// Ghost image of one synthesized repair.
pub struct FixModel {
    pub location: Seq<char>,
    pub original_code: Seq<char>,
    pub fixed_code: Seq<char>,
    pub fix_type: FixType,
}

impl DeepView for CodeFix {
    type V = FixModel;

    open spec fn deep_view(&self) -> FixModel {
        FixModel {
            location: self.location@,
            original_code: self.original_code@,
            fixed_code: self.fixed_code@,
            fix_type: self.fix_type,
        }
    }
}

/// The repair the pipeline owes one confirmed candidate.
pub open spec fn fix_model_of(content: Seq<char>, cm: CandidateModel) -> FixModel {
    FixModel {
        location: "Line "@ + dec_digits(cm.line),
        original_code: selected_line(content, cm.line, cm.location),
        fixed_code: fixed_code_text(model_offset(cm), model_fix_type(cm)),
        fix_type: model_fix_type(cm),
    }
}

/// The repairs for the confirmed candidates among the first `k`, in order.
pub open spec fn fixes_upto(content: Seq<char>, cs: Seq<CandidateModel>, k: int) -> Seq<FixModel>
    decreases k,
{
    if k <= 0 {
        Seq::empty()
    } else {
        fixes_upto(content, cs, k - 1) + if model_verdict(cs[k - 1]) {
            seq![fix_model_of(content, cs[k - 1])]
        } else {
            Seq::<FixModel>::empty()
        }
    }
}

/// One confirmed candidate's effect on the source lines: its line, when it
/// names one, is replaced by the synthesized repair.
pub open spec fn apply_fix_lines(ls: Seq<Seq<char>>, cm: CandidateModel) -> Seq<Seq<char>> {
    if 1 <= cm.line <= ls.len() {
        ls.update(cm.line - 1, fixed_code_text(model_offset(cm), model_fix_type(cm)))
    } else {
        ls
    }
}

/// The line replacements of the confirmed candidates among the first `k`,
/// applied in order.
pub open spec fn apply_fixes_upto(ls: Seq<Seq<char>>, cs: Seq<CandidateModel>, k: int) -> Seq<
    Seq<char>,
>
    decreases k,
{
    if k <= 0 {
        ls
    } else {
        let prev = apply_fixes_upto(ls, cs, k - 1);
        if model_verdict(cs[k - 1]) {
            apply_fix_lines(prev, cs[k - 1])
        } else {
            prev
        }
    }
}

/// Whether any of the first `k` candidates is confirmed.
pub open spec fn any_confirmed_upto(cs: Seq<CandidateModel>, k: int) -> bool
    decreases k,
{
    if k <= 0 {
        false
    } else {
        any_confirmed_upto(cs, k - 1) || model_verdict(cs[k - 1])
    }
}

/// The rectified source the pipeline emits: the input itself when nothing
/// was confirmed, else the line-replaced text rejoined.
pub open spec fn fixed_output(content: Seq<char>, cs: Seq<CandidateModel>) -> Seq<char> {
    if any_confirmed_upto(cs, cs.len() as int) {
        join_lines(apply_fixes_upto(lines_of(content), cs, cs.len() as int))
    } else {
        content
    }
}

/// The first repair recorded under a location, searching from `i`.
pub open spec fn find_fix_from(fs: Seq<FixModel>, loc: Seq<char>, i: int) -> Option<FixModel>
    decreases fs.len() - i,
{
    if i < 0 || i >= fs.len() {
        None
    } else if fs[i].location == loc {
        Some(fs[i])
    } else {
        find_fix_from(fs, loc, i + 1)
    }
}

/// One finding's section of the report.
pub open spec fn report_entry(cm: CandidateModel, idx: nat, fs: Seq<FixModel>) -> Seq<char> {
    let loc = "Line "@ + dec_digits(cm.line);
    "## Issue #"@ + dec_digits(idx) + "\n\n### Location\n"@ + loc + "\n\n### Operation Type\n"@
        + cm.operation + "\n\n### Description\n"@
        + "Detected unchecked pointer offset operation: "@ + opt_count_text_model(cm.offset)
        + "\n\n### Fix Suggestion\n"@
        + "Add an explicit bounds check before performing pointer operations"@ + "\n\n"@ + match
        find_fix_from(fs, loc, 0) {
        Some(f) => "### Original Code\n```rust\n"@ + f.original_code
            + "\n```\n\n### Fixed Code\n```rust\n"@ + f.fixed_code + "\n```\n\n"@,
        None => Seq::<char>::empty(),
    }
}

/// A possibly-absent model count, rendered for a report.
pub open spec fn opt_count_text_model(o: Option<nat>) -> Seq<char> {
    match o {
        Some(n) => "Some("@ + dec_digits(n) + ")"@,
        None => "None"@,
    }
}

/// The findings sections for the first `k` candidates.
pub open spec fn report_entries(cs: Seq<CandidateModel>, fs: Seq<FixModel>, k: int) -> Seq<char>
    decreases k,
{
    if k <= 0 {
        Seq::empty()
    } else {
        report_entries(cs, fs, k - 1) + report_entry(cs[k - 1], k as nat, fs)
    }
}

/// The whole findings report.
pub open spec fn report_text(
    source_file: Seq<char>,
    cs: Seq<CandidateModel>,
    fs: Seq<FixModel>,
) -> Seq<char> {
    "# Buffer Overflow Analysis Report\n\n## Analysis Overview\n\n- Source File: "@ + source_file
        + "\n- Issues Found: "@ + dec_digits(cs.len()) + "\n\n"@ + report_entries(
        cs,
        fs,
        cs.len() as int,
    )
}

/// The candidates the pipeline gathers for one source text and its
/// lowered-representation texts, starting from a fresh analyzer.
pub open spec fn pipeline_candidates(
    source_file: Seq<char>,
    output_dir: Seq<char>,
    content: Seq<char>,
    mirs: Seq<Seq<char>>,
) -> Seq<CandidateModel> {
    let m0 = MirModel {
        output_dir: output_dir,
        source_file: source_file,
        allocations: Seq::empty(),
        pointer_operations: Seq::empty(),
        candidates: Seq::empty(),
        rectifier: None,
        solver: Map::empty(),
    };
    scan_mirs_model(scan_source_model(m0, content), mirs).candidates
}

/// First repair recorded under a location, as an index into the list.
fn find_fix_index(fixes: &Vec<CodeFix>, loc: &str) -> (r: Option<usize>)
    ensures
        match r {
            Some(i) => i < fixes@.len() && find_fix_from(fixes.deep_view(), loc@, 0) == Some(
                fixes.deep_view()[i as int],
            ),
            None => find_fix_from(fixes.deep_view(), loc@, 0) is None,
        },
{
    let n = fixes.len();
    let mut i: usize = 0;
    while i < n
        invariant
            i <= n,
            n == fixes@.len(),
            forall|k: int| 0 <= k < i ==> #[trigger] fixes.deep_view()[k].location != loc@,
        decreases n - i,
    {
        if str_eq(fixes[i].location.as_str(), loc) {
            proof {
                lemma_find_fix_prefix(fixes.deep_view(), loc@, i as int);
            }
            return Some(i);
        }
        i = i + 1;
    }
    proof {
        lemma_find_fix_prefix(fixes.deep_view(), loc@, n as int);
    }
    None
}

proof fn lemma_find_fix_prefix(fs: Seq<FixModel>, loc: Seq<char>, i: int)
    requires
        0 <= i <= fs.len(),
        forall|k: int| 0 <= k < i ==> #[trigger] fs[k].location != loc,
    ensures
        find_fix_from(fs, loc, 0) == find_fix_from(fs, loc, i),
    decreases i,
{
    if i > 0 {
        lemma_find_fix_prefix(fs, loc, i - 1);
    }
}

/// The whole pipeline over one source file: gather candidates, confirm
/// them, repair the confirmed ones, and write the findings report.
pub struct RuPair {
    source_file: String,
    output_dir: String,
}

impl View for RuPair {
    type V = (Seq<char>, Seq<char>);

    closed spec fn view(&self) -> (Seq<char>, Seq<char>) {
        (self.source_file@, self.output_dir@)
    }
}

impl RuPair {
    pub fn new(source_file: String, output_dir: String) -> (r: RuPair)
        ensures
            r@ == (source_file@, output_dir@),
    {
        RuPair { source_file, output_dir }
    }

    /// Runs the pipeline over the source text and the accompanying
    /// lowered-representation texts, and returns the rectified source and
    /// the findings report. With no confirmed candidate the source comes
    /// back character for character.
    pub fn analyze_and_fix(&self, content: &str, mir_contents: &Vec<String>) -> (r: (
        String,
        String,
    ))
        ensures
            ({
                let cs = pipeline_candidates(
                    self@.0,
                    self@.1,
                    content@,
                    mir_contents.deep_view(),
                );
                r.0@ == fixed_output(content@, cs) && r.1@ == report_text(
                    self@.0,
                    cs,
                    fixes_upto(content@, cs, cs.len() as int),
                )
            }),
    {
        let mut analyzer = MirAnalyzer::new(self.output_dir.clone());
        analyzer.set_source_file(self.source_file.clone());
        analyzer.analyze(content, mir_contents);
        let candidates = analyzer.get_fixes();
        let rectifier = Rectifier::new(String::from_str(content));
        let solver = analyzer.get_solver();
        let ghost cs = candidates.deep_view();
        proof {
            assert(cs =~~= pipeline_candidates(
                self@.0,
                self@.1,
                content@,
                mir_contents.deep_view(),
            ));
        }

        let chars = to_chars(content);
        let mut fixed_lines = split_lines(&chars);
        let mut fixes: Vec<CodeFix> = Vec::new();
        let mut any = false;
        let n = candidates.len();
        let mut i: usize = 0;
        while i < n
            invariant
                i <= n,
                n == candidates@.len(),
                cs == candidates.deep_view(),
                rectifier@ == content@,
                fixes.deep_view() == fixes_upto(content@, cs, i as int),
                fixed_lines.deep_view() == apply_fixes_upto(lines_of(content@), cs, i as int),
                any == any_confirmed_upto(cs, i as int),
            decreases n - i,
        {
            let ghost cm = cs[i as int];
            proof {
                assert(cm == candidates@[i as int].deep_view());
            }
            let ghost fixes_prev = fixes.deep_view();
            let ghost lines_prev = fixed_lines.deep_view();
            let constraint = solver.check_candidate(&candidates[i]);
            if constraint.is_overflow {
                let fix = rectifier.generate_fix(&candidates[i], &constraint);
                proof {
                    assert(model_verdict(cm));
                    assert(fix.deep_view() == fix_model_of(content@, cm));
                }
                let line_no = candidates[i].line;
                if line_no >= 1 && line_no <= fixed_lines.len() {
                    let ftext = to_chars(fix.fixed_code.as_str());
                    fixed_lines.set(line_no - 1, ftext);
                    proof {
                        assert(fixed_lines.deep_view() =~~= apply_fix_lines(lines_prev, cm));
                    }
                } else {
                    proof {
                        assert(fixed_lines.deep_view() =~~= apply_fix_lines(lines_prev, cm));
                    }
                }
                fixes.push(fix);
                any = true;
                proof {
                    assert(fixes.deep_view() =~~= fixes_prev + seq![fix_model_of(content@, cm)]);
                    assert(fixes.deep_view() =~~= fixes_upto(content@, cs, i + 1));
                    assert(fixed_lines.deep_view() =~~= apply_fixes_upto(
                        lines_of(content@),
                        cs,
                        i + 1,
                    ));
                }
            } else {
                proof {
                    assert(!model_verdict(cm));
                    assert(fixes.deep_view() =~~= fixes_upto(content@, cs, i + 1));
                    assert(fixed_lines.deep_view() =~~= apply_fixes_upto(
                        lines_of(content@),
                        cs,
                        i + 1,
                    ));
                }
            }
            i = i + 1;
        }

        let fixed = if any {
            let joined = join_lines_exec(&fixed_lines);
            chars_to_string(&joined)
        } else {
            String::from_str(content)
        };

        let mut report = String::from_str(
            "# Buffer Overflow Analysis Report\n\n## Analysis Overview\n\n- Source File: ",
        );
        report.append(self.source_file.as_str());
        report.append("\n- Issues Found: ");
        let count = u64_to_string(candidates.len() as u64);
        report.append(count.as_str());
        report.append("\n\n");
        let ghost header = report@;
        proof {
            assert(header =~= "# Buffer Overflow Analysis Report\n\n## Analysis Overview\n\n- Source File: "@
                + self@.0 + "\n- Issues Found: "@ + dec_digits(cs.len()) + "\n\n"@);
        }
        let ghost fs = fixes.deep_view();
        let mut i: usize = 0;
        while i < n
            invariant
                i <= n,
                n == candidates@.len(),
                cs == candidates.deep_view(),
                fs == fixes.deep_view(),
                rectifier@ == content@,
                report@ == header + report_entries(cs, fs, i as int),
            decreases n - i,
        {
            let ghost cm = cs[i as int];
            let ghost report_prev = report@;
            proof {
                assert(cm == candidates@[i as int].deep_view());
            }
            let er = rectifier.generate_error_report(&candidates[i]);
            report.append("## Issue #");
            let idx = u64_to_string((i + 1) as u64);
            report.append(idx.as_str());
            report.append("\n\n### Location\n");
            report.append(er.location.as_str());
            report.append("\n\n### Operation Type\n");
            report.append(er.issue_type.as_str());
            report.append("\n\n### Description\n");
            report.append(er.description.as_str());
            report.append("\n\n### Fix Suggestion\n");
            report.append(er.recommendation.as_str());
            report.append("\n\n");
            match find_fix_index(&fixes, er.location.as_str()) {
                Some(fi) => {
                    report.append("### Original Code\n```rust\n");
                    report.append(fixes[fi].original_code.as_str());
                    report.append("\n```\n\n### Fixed Code\n```rust\n");
                    report.append(fixes[fi].fixed_code.as_str());
                    report.append("\n```\n\n");
                },
                None => {},
            }
            proof {
                assert(opt_count_text_model(cm.offset) == crate::rectifier::opt_count_text(
                    candidates@[i as int].offset,
                ));
                assert(report@ =~= report_prev + report_entry(cm, (i + 1) as nat, fs));
                assert(report@ =~= header + report_entries(cs, fs, i + 1));
            }
            i = i + 1;
        }
        proof {
            if any_confirmed_upto(cs, cs.len() as int) {
                assert(any);
            }
        }
        (fixed, report)
    }
}

/// No confirmed candidate, no change: the pipeline hands the input source
/// back character for character, and a program always validates against
/// its own trace — the round trip is behaviour-preserving.
pub proof fn lemma_round_trip(content: Seq<char>, cs: Seq<CandidateModel>, t: ExecutionTrace)
    requires
        forall|k: int| 0 <= k < cs.len() ==> !model_verdict(#[trigger] cs[k]),
    ensures
        fixed_output(content, cs) == content,
        traces_equivalent(t, t),
{
    lemma_none_confirmed(cs, cs.len() as int);
}

proof fn lemma_none_confirmed(cs: Seq<CandidateModel>, k: int)
    requires
        forall|j: int| 0 <= j < cs.len() ==> !model_verdict(#[trigger] cs[j]),
        k <= cs.len(),
    ensures
        !any_confirmed_upto(cs, k),
    decreases k,
{
    if k > 0 {
        lemma_none_confirmed(cs, k - 1);
    }
}

} // verus!

