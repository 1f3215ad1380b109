use confctl::{colorize_json, format_value, format_value_colored, parse_content, resolve_path, CanonicalValue, ConfError, Format};

fn strip_ansi(s: &str) -> String {
    let mut out = String::new();
    let mut chars = s.chars();
    while let Some(c) = chars.next() {
        if c == '\u{1b}' {
            for d in chars.by_ref() {
                if d == 'm' {
                    break;
                }
            }
        } else {
            out.push(c);
        }
    }
    out
}

fn keys(v: &CanonicalValue) -> Vec<String> {
    match v {
        CanonicalValue::Object(es) => es.iter().map(|(k, _)| k.clone()).collect(),
        other => panic!("not a mapping: {:?}", other),
    }
}

#[test]
fn colored_layout_matches_plain_layout() {
    let v = parse_content("d.json", r#"{"a":[1,{}]}"#, None).unwrap();
    assert_eq!(strip_ansi(&colorize_json(&v, 1)), "{\n    \"a\": [\n      1,\n      {}\n    ]\n  }");
    assert_eq!(strip_ansi(&colorize_json(&v, 0)), format_value(&v));
    assert_eq!(format_value_colored(&v), colorize_json(&v, 0));
    assert_eq!(colorize_json(&CanonicalValue::Object(vec![]), 0), "{}");
}

#[test]
fn parse_errors_carry_the_file() {
    for (file, text, name) in [
        ("bad.json", r#"{"a":"#, "JSON"),
        ("bad.toml", "a = ", "TOML"),
        ("bad.yaml", "a: [1, 2", "YAML"),
    ] {
        match parse_content(file, text, None) {
            Err(e @ ConfError::Parse { .. }) => {
                assert!(e.message().contains(&format!("Failed to parse {}: {}", name, file)));
            }
            other => panic!("unexpected {:?}", other),
        }
    }
}

#[test]
fn json_object_keys_keep_document_order() {
    let v = parse_content("a.json", r#"{"b":1,"a":{"z":2,"y":3}}"#, None).unwrap();
    assert_eq!(keys(&v), vec!["b", "a"]);
    assert_eq!(keys(resolve_path(&v, "a").unwrap()), vec!["z", "y"]);
}

#[test]
fn toml_and_yaml_trees() {
    let t = parse_content("club.toml", "[club]\nname = \"Vasco\"\nfounded = 1898\ntitles = [1, 2]", None).unwrap();
    assert_eq!(format_value(&t), "{\n  \"club\": {\n    \"name\": \"Vasco\",\n    \"founded\": 1898,\n    \"titles\": [\n      1,\n      2\n    ]\n  }\n}");
    let y = parse_content("club.yml", "club:\n  name: Vasco\n  players:\n    - Edmundo\n    - Juninho", None).unwrap();
    assert_eq!(format_value(&y), "{\n  \"club\": {\n    \"name\": \"Vasco\",\n    \"players\": [\n      \"Edmundo\",\n      \"Juninho\"\n    ]\n  }\n}");
}

#[test]
fn forced_yaml_is_not_env_mapping() {
    let v = parse_content("response", "KEY=value", Some(Format::Yaml)).unwrap();
    assert!(matches!(v, CanonicalValue::String(ref s) if s == "KEY=value"));
}

#[test]
fn env_float_grammar() {
    let v = confctl::parse_env_format("A=1e5\nB=.5\nC=5.\nD=1e\nE=-INFINITY\nF=.\nG=e5\nH=1.5E-3\nI=1.2.3\nJ=NaN");
    let got: Vec<(String, String)> = match &v {
        CanonicalValue::Object(es) => es.iter().map(|(k, x)| (k.clone(), format!("{:?}", x))).collect(),
        other => panic!("not a mapping: {:?}", other),
    };
    let want: Vec<(&str, &str)> = vec![
        ("A", "Number(\"100000.0\")"),
        ("B", "Number(\"0.5\")"),
        ("C", "Number(\"5.0\")"),
        ("D", "String(\"1e\")"),
        ("E", "Number(\"0\")"),
        ("F", "String(\".\")"),
        ("G", "String(\"e5\")"),
        ("H", "Number(\"0.0015\")"),
        ("I", "String(\"1.2.3\")"),
        ("J", "Number(\"0\")"),
    ];
    let want: Vec<(String, String)> = want.into_iter().map(|(k, x)| (k.to_string(), x.to_string())).collect();
    assert_eq!(got, want);
}
