use voxel_cone_tracing::rendering::shader::{
    include_directives, lines, split_shader_file, ShaderLine,
};
use voxel_cone_tracing::text::join_lines;

#[test]
fn lines_like_str_lines() {
    for text in [
        "",
        "a",
        "a\n",
        "a\nb",
        "a\r\nb\r\n",
        "\n\nx\n",
        "one\ntwo\r\nthree",
        "é\nñ\r\n",
    ] {
        let expected: Vec<String> = text.lines().map(|line| line.to_string()).collect();
        assert_eq!(lines(text), expected, "{:?}", text);
    }
}

#[test]
fn split_unified_shader() {
    let code = "#version 460\n#shader vertex\nvoid main() {}\n#shader fragment\nout vec4 c;\nvoid main() {}\n";
    let (vertex, fragment, geometry) = split_shader_file(code);
    assert_eq!(vertex, "#version 460\nvoid main() {}\n");
    assert_eq!(fragment, "out vec4 c;\nvoid main() {}\n");
    assert_eq!(geometry, None);
}

#[test]
fn split_unified_shader_with_geometry() {
    let code = "#shader geometry\ng\n#shader vertex\nv\n#shader geometry\nh";
    let (vertex, fragment, geometry) = split_shader_file(code);
    assert_eq!(vertex, "v\n");
    assert_eq!(fragment, "");
    assert_eq!(geometry, Some("g\nh\n".to_string()));
}

#[test]
fn include_directives_are_found() {
    let code = "#version 460\n#include \"./_common.glsl\"\n#include \"shaders/x.glsl\"\nvoid main() {}";
    assert_eq!(
        include_directives(code),
        vec![
            ShaderLine::Code("#version 460".to_string()),
            ShaderLine::Include { path: "_common.glsl".to_string(), relative: true },
            ShaderLine::Include { path: "shaders/x.glsl".to_string(), relative: false },
            ShaderLine::Code("void main() {}".to_string()),
        ]
    );
}

#[test]
fn join_with_newlines() {
    assert_eq!(join_lines(&vec![]), "");
    assert_eq!(join_lines(&vec!["a".to_string()]), "a");
    assert_eq!(join_lines(&vec!["a".to_string(), String::new(), "c".to_string()]), "a\n\nc");
}

#[test]
fn joining_lines_gives_the_text_back() {
    for text in ["", "a", "a\nb", "a\n\nb", "\nx", "é\nñ"] {
        assert_eq!(join_lines(&lines(text)), text);
    }
    // A final newline is not given back.
    assert_eq!(join_lines(&lines("a\n")), "a");
}
