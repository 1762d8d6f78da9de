use rupair::mir_analyzer::MirAnalyzer;
use rupair::text::{chars_to_string, to_chars, u64_to_string};
use rupair::RuPair;

fn classic_source() -> String {
    "fn main() {\n    let mut buffer = vec![0u8; 10];\n    unsafe {\n        let ptr = buffer.as_mut_ptr();\n        *ptr.add(15) = 42;\n    }\n    println!(\"done\");\n}\n"
    .to_string()
}

#[test]
fn round_trip_clean_source_unchanged() {
    // no candidate is confirmed, so the pipeline's output source is the
    // input, character for character
    let content = "fn main() {\n    println!(\"hi\");\n}\n";
    let rupair = RuPair::new("clean.rs".to_string(), "output".to_string());
    let (fixed, report) = rupair.analyze_and_fix(content, &Vec::new());
    assert_eq!(fixed, content);
    assert!(report.contains("- Issues Found: 0"));
}

#[test]
fn pipeline_repairs_confirmed_overflow() {
    let content = classic_source();
    let rupair = RuPair::new("overflow.rs".to_string(), "output".to_string());
    let (fixed, report) = rupair.analyze_and_fix(&content, &Vec::new());
    assert!(fixed.contains("buffer[15] = 42"));
    assert!(!fixed.contains("*ptr.add(15)"));
    assert!(report.contains("# Buffer Overflow Analysis Report"));
    assert!(report.contains("- Source File: overflow.rs"));
    assert!(report.contains("- Issues Found: 1"));
    assert!(report.contains("## Issue #1"));
    assert!(report.contains("### Location\nLine 5"));
    assert!(report.contains("### Original Code"));
    assert!(report.contains("### Fixed Code"));
}

#[test]
fn mir_analyzer_scans_source_and_lowered_texts() {
    let mut analyzer = MirAnalyzer::new("output".to_string());
    analyzer.set_source_file("overflow.rs".to_string());
    let mir = "bb0: {\n    unsafe {\n        *ptr.add(7) = 1;\n    }\n}\n"
    .to_string();
    analyzer.analyze(&classic_source(), &vec![mir]);
    let fixes = analyzer.get_fixes();
    // one site from the source text, one site plus one unsafe region from
    // the lowered text
    assert_eq!(fixes.len(), 3);
    assert_eq!(fixes[0].offset, Some(15));
    assert_eq!(fixes[0].line, 5);
    assert_eq!(fixes[1].offset, Some(7));
    assert_eq!(fixes[2].offset, Some(7));
    assert_eq!(fixes[2].operation, "pointer_offset");
    let rectifier = analyzer.get_rectifier();
    let report = rectifier.generate_error_report(&fixes[0]);
    assert_eq!(report.location, "Line 5");
}

#[test]
fn analysis_summary_lists_findings() {
    let mut analyzer = MirAnalyzer::new("output".to_string());
    analyzer.set_source_file("overflow.rs".to_string());
    analyzer.analyze(&classic_source(), &Vec::new());
    let summary = analyzer.analysis_summary();
    assert!(summary.contains("Potential buffer overflow issues found:"));
    assert!(summary.contains("Issue #1"));
    assert!(summary.contains("Operation: pointer_offset"));
    assert!(summary.contains("Some(15)"));

    let clean = MirAnalyzer::new("output".to_string());
    assert_eq!(clean.analysis_summary(), "\nNo buffer overflow issues found.\n");
}

#[test]
fn text_round_trips_through_characters() {
    let chars = to_chars("unsafe { *ptr.add(3) }");
    let back = chars_to_string(&chars);
    assert_eq!(back, "unsafe { *ptr.add(3) }");
}

#[test]
fn decimal_rendering() {
    assert_eq!(u64_to_string(0), "0");
    assert_eq!(u64_to_string(7), "7");
    assert_eq!(u64_to_string(1504), "1504");
    assert_eq!(u64_to_string(u64::MAX), "18446744073709551615");
}
