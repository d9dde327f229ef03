use aspp::output::Output;
use aspp::processor::process;
use aspp::processor::lookup;
use aspp::processor::Action;
use aspp::processor::State;

fn run(input: &str) -> String {
    let mut out = Output::with_capacity(String::from("file.s"), input.len());
    process(input, &mut out);
    String::from(out.as_str())
}

#[test]
fn empty_input_scans_to_nothing() {
    assert_eq!(run(""), "");
}

#[test]
fn trailing_line_without_newline_is_flushed() {
    assert_eq!(run("mov r0, r1"), "mov r0, r1");
}

#[test]
fn comment_line_is_retained_through_the_newline() {
    assert_eq!(run("mov r0, r1 ; comment\n"), "mov r0, r1 ; comment\n");
}

#[test]
fn plain_text_passes_through() {
    let input = "start:\n\tmov r0, r1\n\tadd r2, r3\n";
    assert_eq!(run(input), input);
}

#[test]
fn multiple_lines_and_final_partial_line() {
    let input = "one\ntwo\nthree";
    assert_eq!(run(input), input);
}

#[test]
fn carriage_returns_and_tabs_pass_through() {
    let input = "\tmov r0, r1\r\n\t; note\r\n";
    assert_eq!(run(input), input);
}

#[test]
fn nul_and_high_code_points_pass_through() {
    let input = "a\0b\n\u{00e9}\u{4e16}\u{1f600}\nend";
    assert_eq!(run(input), input);
}

#[test]
fn lone_newlines_pass_through() {
    assert_eq!(run("\n\n\n"), "\n\n\n");
}

#[test]
fn semicolon_only_line_passes_through() {
    assert_eq!(run(";\n; whole-line comment\n"), ";\n; whole-line comment\n");
}

#[test]
fn high_code_points_take_the_default_transition_in_every_state() {
    for c in ['\u{0080}', '\u{00e9}', '\u{4e16}', '\u{1f600}'] {
        assert_eq!(lookup(State::Initial, Some(c)), (State::Other, Action::Go));
        assert_eq!(lookup(State::Other, Some(c)), (State::Other, Action::Go));
        assert_eq!(lookup(State::AtEof, Some(c)), (State::AtEof, Action::Return));
    }
}

#[test]
fn end_of_input_halts_from_every_state() {
    assert_eq!(lookup(State::Initial, None), (State::AtEof, Action::Return));
    assert_eq!(lookup(State::Other, None), (State::AtEof, Action::Return));
    assert_eq!(lookup(State::AtEof, None), (State::AtEof, Action::Return));
}

#[test]
fn newline_flushes_and_returns_to_the_initial_state() {
    assert_eq!(lookup(State::Initial, Some('\n')), (State::Initial, Action::EndLine));
    assert_eq!(lookup(State::Other, Some('\n')), (State::Initial, Action::EndLine));
}

#[test]
fn comment_introducer_consumes_without_a_split() {
    assert_eq!(lookup(State::Initial, Some(';')), (State::Initial, Action::Go));
    assert_eq!(lookup(State::Other, Some(';')), (State::Initial, Action::Go));
}

#[test]
fn ordinary_characters_sink_into_the_permissive_state() {
    assert_eq!(lookup(State::Initial, Some('m')), (State::Other, Action::Go));
    assert_eq!(lookup(State::Initial, Some(' ')), (State::Other, Action::Go));
    assert_eq!(lookup(State::Initial, Some('\0')), (State::Other, Action::Go));
    assert_eq!(lookup(State::Other, Some('x')), (State::Other, Action::Go));
}

#[test]
fn horizontal_whitespace_is_consumed_in_the_initial_state() {
    assert_eq!(lookup(State::Initial, Some('\t')), (State::Initial, Action::Go));
    assert_eq!(lookup(State::Initial, Some('\r')), (State::Initial, Action::Go));
}

#[test]
fn processing_advances_the_line_counter_once_per_newline() {
    let mut out = Output::with_capacity(String::from("file.s"), 16);
    process("one\ntwo\n", &mut out);
    out.global();
    assert_eq!(out.as_str(), "one\ntwo\n# 3 \"file.s\"\n.global scope;");
}

#[test]
fn a_final_partial_line_does_not_advance_the_line_counter() {
    let mut out = Output::with_capacity(String::from("file.s"), 16);
    process("one\ntwo", &mut out);
    out.global();
    assert_eq!(out.as_str(), "one\ntwo# 2 \"file.s\"\n.global scope;");
}

#[test]
fn empty_input_leaves_the_line_counter_at_one() {
    let mut out = Output::with_capacity(String::from("file.s"), 16);
    process("", &mut out);
    out.global();
    assert_eq!(out.as_str(), "# 1 \"file.s\"\n.global scope;");
}

#[test]
fn comment_only_lines_still_count() {
    let mut out = Output::with_capacity(String::from("file.s"), 16);
    process("; a\n; b\n; c\n", &mut out);
    out.global();
    assert_eq!(out.as_str(), "; a\n; b\n; c\n# 4 \"file.s\"\n.global scope;");
}

#[test]
fn output_appends_after_existing_text() {
    let mut out = Output::with_capacity(String::from("file.s"), 16);
    out.write_raw_str("; prologue\n");
    process("mov r0, r1\n", &mut out);
    assert_eq!(out.as_str(), "; prologue\nmov r0, r1\n");
}
