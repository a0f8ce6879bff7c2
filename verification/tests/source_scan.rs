use rengine::device::vs_source;
use rengine::glsl::check_source;
use rengine::glsl::count_char_in;
use rengine::glsl::find_in;
use rengine::glsl::line_attrib;
use rengine::glsl::parse_attribs;
use rengine::glsl::split_lines;

#[test]
fn builtin_sources_are_accepted() {
    assert!(check_source(vs_source()));
    assert!(check_source(rengine::device::fs_source()));
}

#[test]
fn bare_version_directive_is_accepted() {
    assert!(check_source("#version"));
    assert!(check_source("#version 150\nvoid main() {}"));
}

#[test]
fn sources_without_version_are_rejected() {
    assert!(!check_source(""));
    assert!(!check_source("#versio"));
    assert!(!check_source("void main() {}"));
    assert!(!check_source(" #version 150"));
}

#[test]
fn sources_with_unbalanced_braces_are_rejected() {
    assert!(!check_source("#version 150\nvoid main() {"));
    assert!(!check_source("#version 150\n}"));
    assert!(check_source("#version 150\n{{}}"));
}

#[test]
fn split_lines_exact_values() {
    assert_eq!(split_lines("abc"), vec!["abc".to_string()]);
    assert_eq!(split_lines("a\nb\n"), vec!["a".to_string(), "b".to_string(), "".to_string()]);
    assert_eq!(split_lines(""), vec!["".to_string()]);
}

#[test]
fn count_char_exact_values() {
    assert_eq!(count_char_in("{a{b}c", '{'), 2);
    assert_eq!(count_char_in("{a{b}c", '}'), 1);
    assert_eq!(count_char_in("", '{'), 0);
}

#[test]
fn find_in_exact_values() {
    assert_eq!(find_in("hay;stack;", ';'), Some(3));
    assert_eq!(find_in("haystack", ';'), None);
    assert_eq!(find_in(";", ';'), Some(0));
}

#[test]
fn line_attrib_exact_values() {
    assert_eq!(line_attrib("in vec2 position;"), Some("position".to_string()));
    assert_eq!(line_attrib("in a b"), Some("b".to_string()));
    assert_eq!(line_attrib("in vec2 ;"), None);
    assert_eq!(line_attrib("int x = 1;"), None);
    assert_eq!(line_attrib("in"), None);
    assert_eq!(line_attrib("uniform mat4 mvp;"), None);
}

#[test]
fn parse_attribs_exact_values() {
    assert_eq!(parse_attribs(vs_source()), vec!["position".to_string()]);
    assert_eq!(
        parse_attribs("#version 150\nin vec2 a;\nin vec3 b;\nvoid main() {}"),
        vec!["a".to_string(), "b".to_string()]
    );
    assert_eq!(parse_attribs("void main() {}"), Vec::<String>::new());
}
