use vice_snapshot_to_prg_converter::asm_wrapper::Assembler6502Wrapper;
use vice_snapshot_to_prg_converter::words::{
    chars_of, count_lines, find_in, is_whitespace, matches_at, trim_bounds, word_bounds,
};

fn text(chars: &[char], bounds: (usize, usize)) -> String {
    chars[bounds.0..bounds.1].iter().collect()
}

#[test]
fn white_space_is_what_the_standard_library_calls_so() {
    let mut code: u32 = 0;
    while code <= 0x10FFFF {
        if let Some(c) = char::from_u32(code) {
            assert_eq!(is_whitespace(c), c.is_whitespace(), "U+{:04X}", code);
        }
        code += 1;
    }
}

#[test]
fn characters_of_a_text() {
    assert_eq!(chars_of("LDA #$01"), vec!['L', 'D', 'A', ' ', '#', '$', '0', '1']);
    assert_eq!(chars_of("\u{e9}\u{3000}z"), vec!['\u{e9}', '\u{3000}', 'z']);
    assert!(chars_of("").is_empty());
}

#[test]
fn a_pattern_is_found_at_its_first_place() {
    let s = chars_of("abcabcabd");
    assert_eq!(find_in(&s, &chars_of("abc"), 0), Some(0));
    assert_eq!(find_in(&s, &chars_of("abc"), 1), Some(3));
    assert_eq!(find_in(&s, &chars_of("abd"), 0), Some(6));
    assert_eq!(find_in(&s, &chars_of("abd"), 7), None);
    assert_eq!(find_in(&s, &chars_of("abe"), 0), None);
    assert_eq!(find_in(&s, &chars_of(""), 0), Some(0));
    assert_eq!(find_in(&s, &chars_of(""), 9), Some(9));
    assert_eq!(find_in(&s, &chars_of("abcabcabda"), 0), None);
    assert!(matches_at(&s, &chars_of("cab"), 2));
    assert!(!matches_at(&s, &chars_of("cab"), 3));
    assert!(!matches_at(&s, &chars_of("bd"), 8));
}

#[test]
fn words_are_those_of_the_standard_library() {
    for s in [
        "",
        "   ",
        "one",
        "  one  two\tthree\n",
        "a\u{a0}b\u{2003}c",
        "label Undefined here",
        " x",
        "x ",
    ] {
        let chars = chars_of(s);
        let got: Vec<String> = word_bounds(&chars).into_iter().map(|b| text(&chars, b)).collect();
        let expected: Vec<String> = s.split_whitespace().map(|w| w.to_string()).collect();
        assert_eq!(got, expected, "{:?}", s);
    }
}

#[test]
fn trimming_is_that_of_the_standard_library() {
    for s in ["", "  ", "a", "  a b  ", "\t; note\r", "\u{3000}x\u{85}", "x  ", "  x"] {
        let chars = chars_of(s);
        assert_eq!(text(&chars, trim_bounds(&chars)), s.trim(), "{:?}", s);
    }
}

#[test]
fn lines_are_counted_as_the_standard_library_counts_them() {
    for s in ["", "\n", "a", "a\n", "a\nb", "a\n\n", "\n\n", "a\r\nb\r\n", "a\rb", "foo\nbar\n\r\nbaz\r"]
    {
        assert_eq!(count_lines(&chars_of(s)), s.lines().count(), "{:?}", s);
    }
}

#[test]
fn keyword_between_quotation_marks() {
    let w = Assembler6502Wrapper::new();
    assert_eq!(
        w.extract_keyword_from_error("Unknown instruction \"LDQ\" found"),
        Some("LDQ".to_string())
    );
    assert_eq!(w.extract_keyword_from_error("empty \"\" quotes"), Some(String::new()));
    // A single quotation mark quotes nothing.
    assert_eq!(w.extract_keyword_from_error("only one \" here"), None);
}

#[test]
fn keyword_behind_a_marker() {
    let w = Assembler6502Wrapper::new();
    assert_eq!(
        w.extract_keyword_from_error("Unknown instruction:   LDQ #$01"),
        Some("LDQ".to_string())
    );
    assert_eq!(w.extract_keyword_from_error("unknown mnemonic:XYZ"), Some("XYZ".to_string()));
    // Nothing behind the first marker: the second one is tried.
    assert_eq!(
        w.extract_keyword_from_error("mnemonic: FOO instruction:   "),
        Some("FOO".to_string())
    );
    assert_eq!(w.extract_keyword_from_error("instruction:"), None);
}

#[test]
fn keyword_in_front_of_undefined() {
    let w = Assembler6502Wrapper::new();
    assert_eq!(w.extract_keyword_from_error("label loop Undefined"), Some("loop".to_string()));
    assert_eq!(
        w.extract_keyword_from_error("symbol start not found"),
        Some("start".to_string())
    );
    assert_eq!(
        w.extract_keyword_from_error("Undefined symbol: is undefined"),
        Some("is".to_string())
    );
    // The marker comes first: no word stands in front of it.
    assert_eq!(w.extract_keyword_from_error("Undefined"), None);
    assert_eq!(w.extract_keyword_from_error("was not here"), None);
    assert_eq!(w.extract_keyword_from_error("nothing to see"), None);
}

#[test]
fn report_with_the_line_that_holds_the_keyword() {
    let w = Assembler6502Wrapper::new();
    let source = "; uses LDQ below\n    LDA #$01\r\n\t LDQ #$02  \n    LDQ #$03\n";
    assert_eq!(
        w.find_error_context(source, "Unknown instruction \"LDQ\"", "instruction"),
        "Assembly error at line 3: instruction\n\nLine 3: LDQ #$02\n\nError: Unknown instruction \"LDQ\""
    );
}

#[test]
fn report_without_a_line() {
    let w = Assembler6502Wrapper::new();
    let source = "; LDQ\n    LDA #$01\n    RTS";
    assert_eq!(
        w.find_error_context(source, "Unknown instruction \"LDQ\"", "instruction"),
        "Assembly error (instruction): Unknown instruction \"LDQ\"\n\nTotal lines in source: 3"
    );
    assert_eq!(
        w.find_error_context(source, "no keyword", "syntax"),
        "Assembly error (syntax): no keyword\n\nTotal lines in source: 3"
    );
    assert_eq!(
        w.find_error_context("", "no keyword", "syntax"),
        "Assembly error (syntax): no keyword\n\nTotal lines in source: 0"
    );
}

#[test]
fn an_empty_keyword_points_at_the_first_line_that_is_no_comment() {
    let w = Assembler6502Wrapper::new();
    assert_eq!(
        w.find_error_context("; note\n\n  RTS\n", "Invalid \"\"", "syntax"),
        "Assembly error at line 2: syntax\n\nLine 2: \n\nError: Invalid \"\""
    );
}

#[test]
fn reports_by_the_kind_of_failure() {
    let w = Assembler6502Wrapper::new();
    let source = "start:\n    LDQ #$01\n    JMP away\n";
    assert_eq!(
        w.format_assembly_error("UnknownOp(\"unknown mnemonic: LDQ\")", source),
        "Assembly error (instruction): UnknownOp(\"unknown mnemonic: LDQ\")\n\nTotal lines in source: 3"
    );
    assert_eq!(
        w.format_assembly_error("unknown mnemonic: LDQ", source),
        "Assembly error at line 2: instruction\n\nLine 2: LDQ #$01\n\nError: unknown mnemonic: LDQ"
    );
    assert_eq!(
        w.format_assembly_error("Expected operand in \"JMP\"", source),
        "Assembly error at line 3: syntax\n\nLine 3: JMP away\n\nError: Expected operand in \"JMP\""
    );
    assert_eq!(
        w.format_assembly_error("away Undefined", source),
        "Assembly error at line 3: undefined\n\nLine 3: JMP away\n\nError: away Undefined"
    );
    assert_eq!(
        w.format_assembly_error("Long-branch at 12", source),
        "Assembly error: Long-branch at 12\n\nNote: This may be caused by branch instructions that are out of range.\nTry using absolute JMP instructions for long distances."
    );
    assert_eq!(
        w.format_assembly_error("Something else", source),
        "Assembly error: Something else\n(Source has 3 lines)"
    );
}
