use aspp::output::Output;

fn fresh(name: &str) -> Output {
    Output::with_capacity(String::from(name), 64)
}

#[test]
fn a_fresh_emitter_is_empty() {
    let out = fresh("file.s");
    assert_eq!(out.as_str(), "");
}

#[test]
fn raw_characters_are_appended_verbatim() {
    let mut out = fresh("file.s");
    out.write_raw_char('m');
    out.write_raw_char('\n');
    out.write_raw_char('\u{00e9}');
    assert_eq!(out.as_str(), "m\n\u{00e9}");
}

#[test]
fn raw_strings_are_appended_verbatim() {
    let mut out = fresh("file.s");
    out.write_raw_str("mov r0, r1");
    out.write_raw_str("\n");
    assert_eq!(out.as_str(), "mov r0, r1\n");
}

#[test]
fn local_symbol_reference_form() {
    let mut out = fresh("file.s");
    out.write_local_symbol("foo");
    assert_eq!(out.as_str(), "L(foo)");
}

#[test]
fn local_label_definition_form() {
    let mut out = fresh("file.s");
    out.write_local_label("foo");
    assert_eq!(out.as_str(), "L(foo):");
}

#[test]
fn label_and_reference_forms_wrap_the_same_name_identically() {
    let mut out = fresh("file.s");
    out.write_local_label("foo");
    out.write_local_symbol("foo");
    let text = out.as_str();
    assert_eq!(text, "L(foo):L(foo)");
    let reference = &text["L(foo):".len()..];
    assert_eq!(&text[..reference.len()], reference);
}

#[test]
fn scope_entry_block_at_line_one() {
    let mut out = fresh("file.s");
    out.label("init");
    assert_eq!(
        out.as_str(),
        "; SCOPE: init\n\
         #ifdef scope\n\
         #undef scope\n\
         #endif\n\
         #define scope 1\n\
         # 1 \"file.s\"\n\
         .label scope;"
    );
}

#[test]
fn scope_entry_block_uses_the_current_line() {
    let mut out = fresh("boot.s");
    out.advance_line();
    out.advance_line();
    out.label("loop");
    assert_eq!(
        out.as_str(),
        "; SCOPE: loop\n\
         #ifdef scope\n\
         #undef scope\n\
         #endif\n\
         #define scope 3\n\
         # 3 \"boot.s\"\n\
         .label scope;"
    );
}

#[test]
fn successive_scope_entries_are_independent() {
    let mut out = fresh("file.s");
    out.label("first");
    out.write_raw_str("\n");
    out.advance_line();
    out.label("second");
    assert_eq!(
        out.as_str(),
        "; SCOPE: first\n\
         #ifdef scope\n\
         #undef scope\n\
         #endif\n\
         #define scope 1\n\
         # 1 \"file.s\"\n\
         .label scope;\n\
         ; SCOPE: second\n\
         #ifdef scope\n\
         #undef scope\n\
         #endif\n\
         #define scope 2\n\
         # 2 \"file.s\"\n\
         .label scope;"
    );
}

#[test]
fn global_declaration_block() {
    let mut out = fresh("file.s");
    out.global();
    assert_eq!(out.as_str(), "# 1 \"file.s\"\n.global scope;");
}

#[test]
fn global_declaration_follows_the_line_counter() {
    let mut out = fresh("main.s");
    out.advance_line();
    out.global();
    assert_eq!(out.as_str(), "# 2 \"main.s\"\n.global scope;");
}

#[test]
fn global_leaves_the_scope_binding_untouched() {
    let mut out = fresh("file.s");
    out.label("entry");
    out.write_raw_str("\n");
    out.global();
    let text = out.as_str();
    assert_eq!(text.matches("#define scope").count(), 1);
    assert!(text.ends_with("# 1 \"file.s\"\n.global scope;"));
}

#[test]
fn advance_line_counts_one_per_call() {
    let mut out = fresh("file.s");
    for _ in 0..9 {
        out.advance_line();
    }
    out.global();
    assert_eq!(out.as_str(), "# 10 \"file.s\"\n.global scope;");
}
