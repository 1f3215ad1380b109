use confctl::{
    detect_format, format_value, parse_content, resolve_input, resolve_path, CanonicalValue,
    Format, PathError,
};

fn json(text: &str) -> CanonicalValue {
    parse_content("data.json", text, None).unwrap()
}

fn text_of(v: &CanonicalValue) -> Option<&str> {
    match v {
        CanonicalValue::String(s) => Some(s.as_str()),
        _ => None,
    }
}

#[test]
fn test_resolve_simple_key() {
    let data = json(r#"{"club": {"name": "Vasco da Gama", "founded": 1898}}"#);
    let result = resolve_path(&data, "club.name").unwrap();
    assert_eq!(text_of(result), Some("Vasco da Gama"));
}

#[test]
fn test_resolve_numeric_index() {
    let data = json(r#"{"players": [{"name": "Edmundo"}, {"name": "Juninho Pernambucano"}]}"#);
    let result = resolve_path(&data, "players.1.name").unwrap();
    assert_eq!(text_of(result), Some("Juninho Pernambucano"));
}

#[test]
fn test_resolve_missing_key() {
    let data = json(r#"{"club": {"name": "Vasco da Gama"}}"#);
    let result = resolve_path(&data, "club.stadium");
    assert!(result.is_err());
    assert!(result.unwrap_err().message().contains("Key not found"));
}

#[test]
fn test_resolve_index_out_of_bounds() {
    let data = json(r#"{"titles": [1, 2, 3]}"#);
    let result = resolve_path(&data, "titles.5");
    assert!(result.is_err());
    assert!(result.unwrap_err().message().contains("out of bounds"));
}

#[test]
fn test_resolve_scalar_traversal() {
    let data = json(r#"{"name": "Vasco da Gama"}"#);
    let result = resolve_path(&data, "name.something");
    assert!(result.is_err());
    assert!(result.unwrap_err().message().contains("scalar value"));
}

#[test]
fn test_format_string_no_quotes() {
    assert_eq!(format_value(&CanonicalValue::String("Edmundo".to_string())), "Edmundo");
}

#[test]
fn test_format_number() {
    assert_eq!(format_value(&json("9")), "9");
}

#[test]
fn test_format_bool() {
    assert_eq!(format_value(&json("true")), "true");
}

#[test]
fn test_detect_format_no_extension_json() {
    let content = r#"{"club":"Vasco"}"#;
    let format = detect_format("response", content, None).unwrap();
    assert_eq!(format, Format::Json);
}

#[test]
fn test_detect_format_no_extension_toml() {
    let content = r#"club = "Vasco""#;
    let format = detect_format("response", content, None).unwrap();
    assert_eq!(format, Format::Toml);
}

#[test]
fn test_detect_format_forced_overrides_extension() {
    let content = r#"club: Vasco"#;
    let format = detect_format("response.json", content, Some(Format::Yaml)).unwrap();
    assert_eq!(format, Format::Yaml);
}

#[test]
fn test_resolve_input_no_file_uses_stdin_when_piped() {
    let (file, path) = resolve_input(None, None, false, false).unwrap();
    assert_eq!(file, "-");
    assert_eq!(path, None);
}

#[test]
fn test_resolve_input_single_arg_becomes_path_when_piped_and_file_missing() {
    let (file, path) = resolve_input(Some("geo.country".to_string()), None, false, false).unwrap();
    assert_eq!(file, "-");
    assert_eq!(path, Some("geo.country".to_string()));
}

#[test]
fn test_resolve_input_keeps_explicit_file_when_present() {
    let (file, path) =
        resolve_input(Some("testdata/config.json".to_string()), None, false, true).unwrap();
    assert_eq!(file, "testdata/config.json");
    assert_eq!(path, None);
}

#[test]
fn test_resolve_input_no_file_and_interactive_shows_tutorial() {
    let err = resolve_input(None, None, true, false).unwrap_err();
    assert!(err.message().contains("Mini tutorial"));
}

#[test]
fn resolve_input_keeps_both_arguments() {
    let (file, path) =
        resolve_input(Some("a.yaml".to_string()), Some("x.y".to_string()), true, false).unwrap();
    assert_eq!(file, "a.yaml");
    assert_eq!(path, Some("x.y".to_string()));
}

#[test]
fn resolve_input_dash_means_stdin() {
    let (file, path) = resolve_input(Some("-".to_string()), None, false, false).unwrap();
    assert_eq!(file, "-");
    assert_eq!(path, None);
}

#[test]
fn resolve_input_piped_with_path_only() {
    let (file, path) = resolve_input(None, Some("a.b".to_string()), false, false).unwrap();
    assert_eq!(file, "-");
    assert_eq!(path, Some("a.b".to_string()));
}

#[test]
fn mapping_key_resolves_to_its_value() {
    let data = json(r#"{"a": 1, "b": {"c": true}, "d": "x"}"#);
    assert_eq!(format_value(resolve_path(&data, "a").unwrap()), "1");
    assert_eq!(format_value(resolve_path(&data, "b").unwrap()), "{\n  \"c\": true\n}");
    assert_eq!(text_of(resolve_path(&data, "d").unwrap()), Some("x"));
}

#[test]
fn sequence_index_in_and_out_of_range() {
    let data = json(r#"["zero", "one", "two"]"#);
    assert_eq!(text_of(resolve_path(&data, "2").unwrap()), Some("two"));
    assert_eq!(text_of(resolve_path(&data, "+1").unwrap()), Some("one"));
    match resolve_path(&data, "3") {
        Err(PathError::IndexOutOfBounds { index, len, path }) => {
            assert_eq!(index, 3);
            assert_eq!(len, 3);
            assert_eq!(path, "3");
        }
        other => panic!("unexpected {:?}", other),
    }
}

#[test]
fn out_of_bounds_message_states_length() {
    let data = json(r#"{"titles":[1,2,3]}"#);
    let err = resolve_path(&data, "titles.5").unwrap_err();
    assert_eq!(err.message(), "Array index 5 out of bounds (length 3) at path 'titles.5'");
}

#[test]
fn scalar_root_fails_with_empty_parent() {
    let data = json("42");
    match resolve_path(&data, "a.b") {
        Err(PathError::ScalarTraversal { parent, segment }) => {
            assert_eq!(parent, "");
            assert_eq!(segment, "a");
        }
        other => panic!("unexpected {:?}", other),
    }
}

#[test]
fn scalar_traversal_names_parent_path() {
    let data = json(r#"{"name": "Vasco da Gama"}"#);
    match resolve_path(&data, "name.something") {
        Err(PathError::ScalarTraversal { parent, segment }) => {
            assert_eq!(parent, "name");
            assert_eq!(segment, "something");
        }
        other => panic!("unexpected {:?}", other),
    }
}

#[test]
fn non_numeric_index_is_reported() {
    let data = json(r#"{"list": [1]}"#);
    match resolve_path(&data, "list.first") {
        Err(PathError::NonNumericIndex { segment, path }) => {
            assert_eq!(segment, "first");
            assert_eq!(path, "list.first");
        }
        other => panic!("unexpected {:?}", other),
    }
    assert!(resolve_path(&data, "list.-1").is_err());
}

#[test]
fn missing_key_names_path_so_far() {
    let data = json(r#"{"club": {"name": "Vasco"}}"#);
    match resolve_path(&data, "club.stadium.capacity") {
        Err(PathError::KeyNotFound { segment, path }) => {
            assert_eq!(segment, "stadium");
            assert_eq!(path, "club.stadium");
        }
        other => panic!("unexpected {:?}", other),
    }
}

#[test]
fn empty_path_fails_on_mapping() {
    let data = json(r#"{"a": 1}"#);
    assert!(matches!(resolve_path(&data, ""), Err(PathError::KeyNotFound { .. })));
}

#[test]
fn resolving_twice_gives_the_same_result() {
    let data = json(r#"{"a": [10, {"b": "c"}]}"#);
    let first = format_value(resolve_path(&data, "a.1.b").unwrap());
    let second = format_value(resolve_path(&data, "a.1.b").unwrap());
    assert_eq!(first, second);
    let e1 = resolve_path(&data, "a.9").unwrap_err().message();
    let e2 = resolve_path(&data, "a.9").unwrap_err().message();
    assert_eq!(e1, e2);
}
