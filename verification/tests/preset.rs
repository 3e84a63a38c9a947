use khviz::preset::extract_shader_body;

#[test]
fn body_between_matching_braces() {
    assert_eq!(
        extract_shader_body("shader_body { ret = vec3(1.0); }"),
        " ret = vec3(1.0); "
    );
}

#[test]
fn nested_braces_are_kept() {
    assert_eq!(
        extract_shader_body("float x;\nshader_body\n{\n if (a) { b; }\n}\ntrailing }"),
        "\n if (a) { b; }\n"
    );
}

#[test]
fn missing_marker_or_brace_gives_empty() {
    assert_eq!(extract_shader_body(""), "");
    assert_eq!(extract_shader_body("ret = 1;"), "");
    assert_eq!(extract_shader_body("shader_body ret = 1;"), "");
    assert_eq!(extract_shader_body("{ a } shader_bod"), "");
}

#[test]
fn unclosed_body_runs_to_the_end() {
    assert_eq!(extract_shader_body("shader_body { a { b }"), " a { b }");
}

#[test]
fn first_marker_and_first_brace_count() {
    assert_eq!(
        extract_shader_body("x shader_body y { one } shader_body { two }"),
        " one "
    );
    assert_eq!(extract_shader_body("{ early } shader_body{}"), "");
}

#[test]
fn non_ascii_text_is_handled_by_chars() {
    assert_eq!(extract_shader_body("// ü\nshader_body {é}"), "é");
}
