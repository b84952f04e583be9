use autocorrect::driver::{
    choose_filetype, exit_status, format_step, lint_step, render_diff_summary,
    render_json_summary, resolve_mode, FormatAction, Formatter, LintAction,
};
use autocorrect::java::format_java;
use autocorrect::registry::lint_for;
use autocorrect::result::CoreError;
use autocorrect::rules::RuleId;

#[test]
fn lint_counts_each_missing_space() {
    let input = "// 第1行注释\nString singleLineString = \"第1个字符串string\"";
    let result = lint_for(input, "java");
    assert!(!result.has_error());
    assert_eq!(result.diagnostics.len(), 5);
    let lines: Vec<usize> = result.diagnostics.iter().map(|d| d.line).collect();
    assert_eq!(lines, vec![1, 1, 2, 2, 2]);
    let columns: Vec<usize> = result.diagnostics.iter().map(|d| d.column).collect();
    assert_eq!(columns, vec![4, 5, 28, 29, 33]);
}

#[test]
fn diagnostic_names_place_text_and_rule() {
    let result = lint_for("int a;\n  // 第1行x", "java");
    assert_eq!(result.diagnostics.len(), 3);
    let d = &result.diagnostics[0];
    assert_eq!(d.offset, 12);
    assert_eq!(d.line, 2);
    assert_eq!(d.column, 6);
    assert_eq!(d.end_column, 7);
    assert_eq!(d.original, "第1");
    assert_eq!(d.corrected, "第 1");
    assert_eq!(d.rule, RuleId::SpaceCjkDigit);
    let last = &result.diagnostics[2];
    assert_eq!(last.offset, 14);
    assert_eq!(last.original, "行x");
    assert_eq!(last.corrected, "行 x");
    assert_eq!(last.rule, RuleId::SpaceCjkLetter);
}

#[test]
fn diagnostics_come_in_document_order() {
    let result = lint_for("/* 中a\n文b */ // 字c", "java");
    let offsets: Vec<usize> = result.diagnostics.iter().map(|d| d.offset).collect();
    assert_eq!(offsets, vec![3, 6, 15]);
}

#[test]
fn lint_finds_nothing_in_settled_text() {
    let result = lint_for("// 第 1 行注释\nint 甲a = 1; // only ascii\n/* 只有中文 */", "java");
    assert!(!result.has_error());
    assert_eq!(result.diagnostics.len(), 0);
    assert_eq!(result.hunks, "");
}

#[test]
fn lint_reports_nothing_on_error() {
    let result = lint_for("// 中a\n\"open", "java");
    assert!(result.has_error());
    assert_eq!(result.diagnostics.len(), 0);
    assert_eq!(result.hunks, "");
    assert_eq!(result.error_message(), "unterminated string literal at offset 6");
    let other = lint_for("// 中a", "txt");
    assert_eq!(other.error, Some(CoreError::UnsupportedLanguage));
    assert_eq!(other.diagnostics.len(), 0);
}

#[test]
fn lint_mode_renders_hunks() {
    let input = "int a;\n// 第1行\nint b;\n/* 中a */\n";
    assert_eq!(
        format_java(input, true),
        "@@ -2 +2 @@\n-// 第1行\n+// 第 1 行\n@@ -4 +4 @@\n-/* 中a */\n+/* 中 a */\n"
    );
    assert_eq!(format_java("int a; // fine", true), "");
}

#[test]
fn hunk_numbers_have_several_digits() {
    let mut input = String::new();
    for _ in 0..119 {
        input.push('\n');
    }
    input.push_str("// 中a");
    assert_eq!(format_java(&input, true), "@@ -120 +120 @@\n-// 中a\n+// 中 a\n");
}

#[test]
fn diff_report_has_a_header() {
    let mut result = lint_for("// 中a", "java");
    result.filepath = String::from("src/A.java");
    assert_eq!(
        result.to_diff(),
        "--- src/A.java\n+++ src/A.java\n@@ -1 +1 @@\n-// 中a\n+// 中 a\n"
    );
}

#[test]
fn json_report_lists_the_findings() {
    let mut result = lint_for("// 中a文", "java");
    result.filepath = String::from("a\"b\\c\n\u{1}.java");
    assert_eq!(
        result.to_json(),
        "{\"filepath\":\"a\\\"b\\\\c\\n\\u0001.java\",\"count\":2,\"diagnostics\":[\
         {\"line\":1,\"column\":4,\"end_column\":5,\"original\":\"中a\",\
         \"corrected\":\"中 a\",\"rule\":\"space-cjk-letter\"},\
         {\"line\":1,\"column\":5,\"end_column\":6,\"original\":\"a文\",\
         \"corrected\":\"a 文\",\"rule\":\"space-cjk-letter\"}],\
         \"errored\":false}"
    );
}

#[test]
fn json_report_of_a_failure() {
    let mut result = lint_for("/* open", "java");
    result.filepath = String::from("t\tr\r\u{1f}");
    assert_eq!(
        result.to_json(),
        "{\"filepath\":\"t\\tr\\r\\u001f\",\"count\":0,\"diagnostics\":[],\"errored\":true}"
    );
}

#[test]
fn json_report_names_the_digit_rule() {
    let mut result = lint_for("// 9中", "java");
    result.filepath = String::from("d");
    assert_eq!(
        result.to_json(),
        "{\"filepath\":\"d\",\"count\":1,\"diagnostics\":[{\"line\":1,\"column\":4,\
         \"end_column\":5,\"original\":\"9中\",\"corrected\":\"9 中\",\
         \"rule\":\"space-cjk-digit\"}],\"errored\":false}"
    );
    assert_eq!(RuleId::SpaceCjkDigit.name(), "space-cjk-digit");
    assert_eq!(RuleId::SpaceCjkLetter.name(), "space-cjk-letter");
}

#[test]
fn mode_is_settled_from_the_switches() {
    let mode = resolve_mode(false, true, false, "json");
    assert!(mode.lint && !mode.fix && !mode.debug);
    assert_eq!(mode.formatter, Formatter::Json);
    let mode = resolve_mode(true, true, true, "diff");
    assert!(!mode.lint && mode.fix && mode.debug);
    assert_eq!(mode.formatter, Formatter::Diff);
    assert_eq!(resolve_mode(false, false, false, "").formatter, Formatter::Diff);
}

#[test]
fn forced_filetype_wins() {
    assert_eq!(choose_filetype(String::from("txt"), "java"), "java");
    assert_eq!(choose_filetype(String::from("java"), ""), "java");
}

#[test]
fn fix_writes_only_what_changed() {
    let fix = resolve_mode(true, false, false, "diff");
    match format_step(&fix, "A.java", "// 中a", "java") {
        FormatAction::Write(text) => assert_eq!(text, "// 中 a"),
        other => panic!("unexpected {:?}", other),
    }
    assert!(matches!(format_step(&fix, "A.java", "// 中 a", "java"), FormatAction::Keep));
    assert_eq!(
        format_step(&fix, "A.java", "\"中a", "java"),
        FormatAction::Fail(String::from("A.java\nunterminated string literal at offset 0"))
    );
    assert_eq!(format_step(&fix, "A.rb", "// 中a", "rb"), FormatAction::Skip);
    assert_eq!(format_step(&fix, "", "// 中a", "java"), FormatAction::Skip);
}

#[test]
fn without_fix_the_text_is_printed() {
    let plain = resolve_mode(false, false, false, "diff");
    assert_eq!(
        format_step(&plain, "A.java", "// 中a", "java"),
        FormatAction::Print(String::from("// 中 a"), None)
    );
}

#[test]
fn a_parse_error_is_handed_out_in_every_mode() {
    let entry = String::from("dir/A.java\nunterminated comment at offset 7");
    let raw = "int a; /* 中a";
    let plain = resolve_mode(false, false, false, "diff");
    assert_eq!(
        format_step(&plain, "dir/A.java", raw, "java"),
        FormatAction::Print(String::from(raw), Some(entry.clone()))
    );
    let debug = resolve_mode(false, false, true, "diff");
    assert_eq!(
        format_step(&debug, "dir/A.java", raw, "java"),
        FormatAction::Print(String::from(raw), Some(entry.clone()))
    );
    let fix = resolve_mode(true, false, false, "diff");
    assert_eq!(format_step(&fix, "dir/A.java", raw, "java"), FormatAction::Fail(entry.clone()));
    let lint = resolve_mode(false, true, false, "json");
    assert_eq!(lint_step(&lint, "dir/A.java", raw, "java"), LintAction::Fail(entry));
    let control = "a\u{7f}";
    assert_eq!(
        format_step(&plain, "B.java", control, "java"),
        FormatAction::Print(
            String::from(control),
            Some(String::from("B.java\nillegal control character at offset 1"))
        )
    );
}

#[test]
fn a_tag_without_a_grammar_is_passed_over_in_silence() {
    let plain = resolve_mode(false, false, false, "diff");
    assert_eq!(
        format_step(&plain, "A.rb", "# 中a", "rb"),
        FormatAction::Print(String::from("# 中a"), None)
    );
    let fix = resolve_mode(true, false, true, "diff");
    assert_eq!(format_step(&fix, "A.rb", "# 中a", "rb"), FormatAction::Skip);
    let lint = resolve_mode(false, true, true, "diff");
    assert_eq!(lint_step(&lint, "A.rb", "# 中a", "rb"), LintAction::Skip);
}

#[test]
fn lint_counts_the_whole_example() {
    let example = "\n// 第1行注释\n// 第2行注释\npublic String helloWorld() {\n  // 第3行注释\n  \
                   String singleLineString = \"第1个字符串string\"\n\n  /**\n   * 第4行注释\n   * \
                   第5行注释\n   */\n  String quotation = \"\"\"\n  这是多行string里面包含\"双引号\"\n  \
                   \"Begin at the beginning,\" the King said gravely.\n  \"\"\"\n}\n";
    let result = lint_for(example, "java");
    assert!(!result.has_error());
    assert_eq!(result.diagnostics.len(), 15);
    let lines: Vec<usize> = result.diagnostics.iter().map(|d| d.line).collect();
    assert_eq!(lines, vec![2, 2, 3, 3, 5, 5, 6, 6, 6, 9, 9, 10, 10, 13, 13]);
}

#[test]
fn lint_step_renders_in_the_chosen_form() {
    let diff = resolve_mode(false, true, false, "diff");
    assert_eq!(
        lint_step(&diff, "A.java", "// 中a", "java"),
        LintAction::Report(String::from(
            "--- A.java\n+++ A.java\n@@ -1 +1 @@\n-// 中a\n+// 中 a\n"
        ))
    );
    let json = resolve_mode(false, true, false, "json");
    assert_eq!(
        lint_step(&json, "A.java", "// 中a", "java"),
        LintAction::Report(String::from(
            "{\"filepath\":\"A.java\",\"count\":1,\"diagnostics\":[{\"line\":1,\"column\":4,\
             \"end_column\":5,\"original\":\"中a\",\"corrected\":\"中 a\",\
             \"rule\":\"space-cjk-letter\"}],\"errored\":false}"
        ))
    );
    assert_eq!(lint_step(&diff, "A.java", "// fine", "java"), LintAction::Clean);
    assert_eq!(
        lint_step(&diff, "A.java", "/* 中a", "java"),
        LintAction::Fail(String::from("A.java\nunterminated comment at offset 0"))
    );
}

#[test]
fn exit_status_tells_of_findings() {
    let lint = resolve_mode(false, true, false, "diff");
    let json = resolve_mode(false, true, false, "json");
    let fix = resolve_mode(true, true, false, "diff");
    assert_eq!(exit_status(&lint, 0), 0);
    assert_eq!(exit_status(&lint, 3), 1);
    assert_eq!(exit_status(&json, 1), 1);
    assert_eq!(exit_status(&fix, 3), 0);
}

#[test]
fn summaries_join_the_reports() {
    let reports = vec![String::from("{\"a\":1}"), String::from("{\"b\":2}")];
    assert_eq!(
        render_json_summary(&reports),
        "{\"count\": 2,\"messages\": [{\"a\":1},{\"b\":2}]}"
    );
    assert_eq!(render_json_summary(&Vec::new()), "{\"count\": 0,\"messages\": []}");
    assert_eq!(render_diff_summary(&reports), "{\"a\":1}\n{\"b\":2}");
    assert_eq!(render_diff_summary(&vec![String::from("x")]), "x");
    assert_eq!(render_diff_summary(&Vec::new()), "");
}
