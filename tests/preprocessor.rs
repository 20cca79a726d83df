use osvm::preprocessor::Preprocessor;

#[test]
fn strips_comments_and_directives() {
    let p = Preprocessor {};
    let out = p.process_source("  ; comment\n%meta x\n  mov r0, #1  \n\nhlt".to_string());
    assert_eq!(out, "mov r0, #1\n\nhlt\n");
}

#[test]
fn define_substitutes_everywhere() {
    let p = Preprocessor {};
    let out = p.process_source("%define TEN #10\npush TEN\npush TEN\n".to_string());
    assert_eq!(out, "push #10\npush #10\n");
}

#[test]
fn define_is_single_pass() {
    let p = Preprocessor {};
    let out = p.process_source("%define A B\n%define B C\nA B\n".to_string());
    assert_eq!(out, "B C\n");
}

#[test]
fn define_value_keeps_rest_of_line() {
    let p = Preprocessor {};
    let out = p.process_source("%define INC add r0, r0, r1\nINC\n".to_string());
    assert_eq!(out, "add r0, r0, r1\n");
}

#[test]
fn remove_lines_by_prefix() {
    let p = Preprocessor {};
    assert_eq!(p.remove_line_by_sstr("%include", " %include \"x\"\n a \n".to_string()), "a\n");
    assert_eq!(p.remove_line_by_sstr(";", "".to_string()), "");
}

#[test]
fn quoted_string() {
    let p = Preprocessor {};
    assert_eq!(p.get_string("%include \"lib/io.asm\""), "lib/io.asm");
    assert_eq!(p.get_string("no quotes"), "");
}

#[test]
fn includes_are_spliced_after_their_line() {
    let p = Preprocessor {};
    let src = "a\n%include \"one\"\nb\n%include \"two\"\nc\n".to_string();
    assert_eq!(p.include_paths(&src), vec!["one".to_string(), "two".to_string()]);
    let out = p.process_includes(src, &vec!["x1\nx2".to_string(), "y\n".to_string()]);
    assert_eq!(out, "a\nx1\nx2\nb\ny\nc\n");
}
