use autocorrect::grammar::FaultKind;
use autocorrect::java::format_java;
use autocorrect::registry::{format_for, get_file_extension, is_support_type};
use autocorrect::result::CoreError;
use autocorrect::spacing::correct_text;

fn spaced(text: &str) -> String {
    let chars: Vec<char> = text.chars().collect();
    correct_text(&chars).into_iter().collect()
}

#[test]
fn line_comment_gets_spaces_around_a_digit() {
    assert_eq!(format_java("// 第1行注释", false), "// 第 1 行注释");
}

#[test]
fn string_literal_gets_spaces_around_digits_and_letters() {
    assert_eq!(
        format_java("String singleLineString = \"第1个字符串string\"", false),
        "String singleLineString = \"第 1 个字符串 string\""
    );
}

#[test]
fn text_block_keeps_its_quotes() {
    let input = "String q = \"\"\"\n  这是多行string里面包含\"双引号\"\n  \"\"\"";
    let expect = "String q = \"\"\"\n  这是多行 string 里面包含\"双引号\"\n  \"\"\"";
    assert_eq!(format_java(input, false), expect);
}

#[test]
fn formatting_twice_changes_nothing_more() {
    let input = "/* 中文abc123 */ int a变量b = 1; // 注释x\nString s = \"值v\";";
    let once = format_java(input, false);
    assert_eq!(once, "/* 中文 abc123 */ int a变量b = 1; // 注释 x\nString s = \"值 v\";");
    assert_eq!(format_java(&once, false), once);
}

#[test]
fn code_is_left_alone() {
    let input = "int 变量a = 甲1 + b乙;";
    assert_eq!(format_java(input, false), input);
}

#[test]
fn identifiers_next_to_a_comment_are_left_alone() {
    assert_eq!(format_java("x值y//中a", false), "x值y//中 a");
}

#[test]
fn one_script_alone_is_left_alone() {
    assert_eq!(format_java("// plain ascii only", false), "// plain ascii only");
    assert_eq!(format_java("// 只有中文", false), "// 只有中文");
    assert_eq!(spaced("hello world 123"), "hello world 123");
    assert_eq!(spaced("你好世界"), "你好世界");
}

#[test]
fn exactly_one_space_is_put_at_a_boundary() {
    assert_eq!(spaced("中a"), "中 a");
    assert_eq!(spaced("a中"), "a 中");
    assert_eq!(spaced("中1"), "中 1");
    assert_eq!(spaced("9中"), "9 中");
    assert_eq!(spaced("前文中a后文"), "前文中 a 后文");
}

#[test]
fn an_existing_space_is_not_doubled() {
    assert_eq!(spaced("中 a"), "中 a");
    assert_eq!(spaced("中\ta"), "中\ta");
    assert_eq!(spaced("中\u{3000}a"), "中\u{3000}a");
}

#[test]
fn full_width_digits_are_spaced_like_digits() {
    assert_eq!(spaced("第1行"), "第 1 行");
    assert_eq!(spaced("第１行"), "第 １ 行");
}

#[test]
fn punctuation_and_quotes_trigger_nothing() {
    assert_eq!(spaced("包含\"双引号\""), "包含\"双引号\"");
    assert_eq!(spaced("你好,world"), "你好,world");
    assert_eq!(spaced("你好\u{ff0c}world"), "你好\u{ff0c}world");
    assert_eq!(spaced("hello\u{ff0c}世界。"), "hello\u{ff0c}世界。");
}

#[test]
fn kana_and_hangul_count_as_cjk() {
    assert_eq!(spaced("ひらがなabc"), "ひらがな abc");
    assert_eq!(spaced("カタカナ1"), "カタカナ 1");
    assert_eq!(spaced("한국어x"), "한국어 x");
}

#[test]
fn empty_and_single_character_texts() {
    assert_eq!(spaced(""), "");
    assert_eq!(spaced("中"), "中");
    assert_eq!(format_java("", false), "");
}

#[test]
fn escapes_in_strings_are_kept_whole() {
    assert_eq!(format_java("s = \"a\\\"中b\";", false), "s = \"a\\\"中 b\";");
    assert_eq!(format_java("s = \"中\\n文\";", false), "s = \"中\\n 文\";");
}

#[test]
fn a_quote_in_a_character_literal_opens_no_string() {
    assert_eq!(
        format_java("char c = '\"'; // 第1\nchar d = '\\''; int 甲a;", false),
        "char c = '\"'; // 第 1\nchar d = '\\''; int 甲a;"
    );
}

#[test]
fn a_stray_apostrophe_is_code() {
    assert_eq!(format_java("it's // 中a", false), "it's // 中 a");
}

#[test]
fn block_and_doc_comments_are_corrected() {
    assert_eq!(format_java("/**/ /* 中a */ /** 文b */", false), "/**/ /* 中 a */ /** 文 b */");
}

#[test]
fn unterminated_string_fails_closed() {
    let input = "// 中a\nString s = \"中b";
    let result = format_for(input, "java");
    assert!(result.has_error());
    assert_eq!(result.text, input);
    match result.error {
        Some(CoreError::Parse(e)) => {
            assert_eq!(e.kind, FaultKind::UnterminatedString);
            assert_eq!(e.offset, 17);
        }
        _ => panic!("expected a parse error"),
    }
    assert_eq!(result.error_message(), "unterminated string literal at offset 17");
    assert_eq!(format_java(input, false), input);
}

#[test]
fn string_broken_by_a_line_end_fails_closed() {
    let input = "s = \"中a\n\";";
    let result = format_for(input, "java");
    assert!(result.has_error());
    assert_eq!(result.text, input);
}

#[test]
fn unterminated_comment_fails_closed() {
    let input = "int a; /* 中a";
    let result = format_for(input, "java");
    assert!(result.has_error());
    assert_eq!(result.text, input);
    match result.error {
        Some(CoreError::Parse(e)) => {
            assert_eq!(e.kind, FaultKind::UnterminatedComment);
            assert_eq!(e.offset, 7);
        }
        _ => panic!("expected a parse error"),
    }
    assert_eq!(result.error_message(), "unterminated comment at offset 7");
}

#[test]
fn unterminated_text_block_fails_closed() {
    let input = "s = \"\"\"中a\"\"";
    let result = format_for(input, "java");
    assert!(result.has_error());
    assert_eq!(result.text, input);
}

#[test]
fn illegal_control_character_fails_closed() {
    let input = "// 中a\u{0}";
    let result = format_for(input, "java");
    assert!(result.has_error());
    assert_eq!(result.text, input);
    match result.error {
        Some(CoreError::Parse(e)) => {
            assert_eq!(e.kind, FaultKind::IllegalControl);
            assert_eq!(e.offset, 5);
        }
        _ => panic!("expected a parse error"),
    }
    assert_eq!(result.error_message(), "illegal control character at offset 5");
}

#[test]
fn unsupported_language_leaves_the_text() {
    let result = format_for("// 中a", "cobol");
    assert!(result.has_error());
    assert_eq!(result.error, Some(CoreError::UnsupportedLanguage));
    assert_eq!(result.text, "// 中a");
    assert_eq!(result.error_message(), "unsupported language");
}

#[test]
fn format_for_corrects_java() {
    let result = format_for("// 第1行注释\nint x;", "java");
    assert!(!result.has_error());
    assert_eq!(result.error, None);
    assert_eq!(result.text, "// 第 1 行注释\nint x;");
    assert_eq!(result.error_message(), "");
}

#[test]
fn supported_types() {
    assert!(is_support_type("java"));
    assert!(!is_support_type("Java"));
    assert!(!is_support_type(""));
    assert!(!is_support_type("javax"));
}

#[test]
fn file_extensions() {
    assert_eq!(get_file_extension("src/Main.java"), "java");
    assert_eq!(get_file_extension("a.tar.gz"), "gz");
    assert_eq!(get_file_extension("dir.d/Makefile"), "");
    assert_eq!(get_file_extension(".gitignore"), "");
    assert_eq!(get_file_extension("dir/.hidden"), "");
    assert_eq!(get_file_extension("name."), "");
    assert_eq!(get_file_extension(""), "");
    assert_eq!(get_file_extension("/a/b/c.x"), "x");
}
