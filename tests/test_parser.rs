use new_grader::test_parser::{parse_line, parse_test_text, MalformedDirective, TestResult};
use new_grader::text::{parse_i32, split_words};

fn chars(s: &str) -> Vec<char> {
    s.chars().collect()
}

#[test]
fn test1() {
    let first_line = "//test return 52";
    println!("RET {:?}", parse_line(&first_line));
    assert!(matches!(parse_line(&first_line), Ok(TestResult::Ret(52))));
}

#[test]
fn parses_each_kind() {
    assert_eq!(parse_line("//test div-by-zero"), Ok(TestResult::DivByZero));
    assert_eq!(parse_line("//test abort"), Ok(TestResult::Abort));
    assert_eq!(parse_line("//test memerror"), Ok(TestResult::MemError));
    assert_eq!(parse_line("//test error"), Ok(TestResult::SourceError));
    assert_eq!(parse_line("//test typecheck"), Ok(TestResult::TypeCheck));
    assert_eq!(parse_line("//test compile"), Ok(TestResult::Compile));
}

#[test]
fn return_without_value_is_refused() {
    assert_eq!(parse_line("//test return"), Err(MalformedDirective::MissingValue));
    assert_eq!(parse_line("//test return 1 2"), Err(MalformedDirective::MissingValue));
}

#[test]
fn wrong_marker_is_refused() {
    assert_eq!(parse_line("//nope return 1"), Err(MalformedDirective::NoMarker));
}

#[test]
fn short_and_unknown_lines_are_refused() {
    assert_eq!(parse_line(""), Err(MalformedDirective::TooShort));
    assert_eq!(parse_line("//test"), Err(MalformedDirective::TooShort));
    assert_eq!(parse_line("//test explode"), Err(MalformedDirective::UnknownKind));
    assert_eq!(parse_line("//test return abc"), Err(MalformedDirective::BadValue));
    assert_eq!(parse_line("//test return 2147483648"), Err(MalformedDirective::BadValue));
}

#[test]
fn return_values_with_signs_and_extremes() {
    assert_eq!(parse_line("//test return 0"), Ok(TestResult::Ret(0)));
    assert_eq!(parse_line("  //test\treturn   -7 \n"), Ok(TestResult::Ret(-7)));
    assert_eq!(parse_line("//test return +9"), Ok(TestResult::Ret(9)));
    assert_eq!(parse_line("//test return -2147483648"), Ok(TestResult::Ret(i32::MIN)));
    assert_eq!(parse_line("//test return 2147483647"), Ok(TestResult::Ret(i32::MAX)));
}

#[test]
fn text_skips_blank_lines() {
    assert_eq!(parse_test_text("\n  \n//test return 3\nint main() {}\n"), Ok(TestResult::Ret(3)));
    assert_eq!(parse_test_text("//test abort\n//test return 1\n"), Ok(TestResult::Abort));
    assert_eq!(parse_test_text("int main();\n//test abort\n"), Err(MalformedDirective::NoMarker));
}

#[test]
fn empty_file_is_refused() {
    assert_eq!(parse_test_text(""), Err(MalformedDirective::EmptyFile));
    assert_eq!(parse_test_text(" \n\t\n"), Err(MalformedDirective::EmptyFile));
}

#[test]
fn words_split_on_unicode_whitespace() {
    let w = split_words(" a\u{3000}bc\n\nd ");
    assert_eq!(w, vec![chars("a"), chars("bc"), chars("d")]);
    assert!(split_words("   ").is_empty());
}

#[test]
fn integers_parse_like_i32() {
    assert_eq!(parse_i32(&chars("52")), Some(52));
    assert_eq!(parse_i32(&chars("-0")), Some(0));
    assert_eq!(parse_i32(&chars("007")), Some(7));
    assert_eq!(parse_i32(&chars("-2147483649")), None);
    assert_eq!(parse_i32(&chars("99999999999999999999")), None);
    assert_eq!(parse_i32(&chars("-")), None);
    assert_eq!(parse_i32(&chars("+")), None);
    assert_eq!(parse_i32(&chars("")), None);
    assert_eq!(parse_i32(&chars("1a")), None);
    assert_eq!(parse_i32(&chars(" 1")), None);
}
