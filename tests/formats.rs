use confctl::{
    apply_base64_transform, colorize_json, detect_format, format_value, format_value_colored,
    looks_like_env_format, parse_content, parse_env_format, resolve_path, CanonicalValue,
    ConfError, Format, FormatError,
};

fn entries(v: &CanonicalValue) -> Vec<(String, String)> {
    match v {
        CanonicalValue::Object(es) => es
            .iter()
            .map(|(k, v)| (k.clone(), format!("{:?}", v)))
            .collect(),
        other => panic!("not a mapping: {:?}", other),
    }
}

#[test]
fn extension_decides_regardless_of_content() {
    for content in ["{\"a\": 1}", "not json at all", "A=1", ""] {
        assert_eq!(detect_format("conf.json", content, None).unwrap(), Format::Json);
        assert_eq!(detect_format("conf.YML", content, None).unwrap(), Format::Yaml);
        assert_eq!(detect_format("dir/conf.yaml", content, None).unwrap(), Format::Yaml);
        assert_eq!(detect_format("conf.Toml", content, None).unwrap(), Format::Toml);
        assert_eq!(detect_format("conf.env", content, None).unwrap(), Format::Env);
    }
}

#[test]
fn env_file_names() {
    assert_eq!(detect_format(".env", "{}", None).unwrap(), Format::Env);
    assert_eq!(detect_format("dir/.env.local", "{}", None).unwrap(), Format::Env);
    assert_eq!(detect_format(".envrc", "{\"a\":1}", None).unwrap(), Format::Json);
}

#[test]
fn unsupported_extension_is_refused() {
    match detect_format("notes.txt", "{}", None) {
        Err(e @ FormatError::UnsupportedExtension { .. }) => {
            assert_eq!(
                e.message(),
                "Unsupported file extension: .txt. Supported: .json, .yaml, .yml, .toml, .env"
            );
        }
        other => panic!("unexpected {:?}", other),
    }
    assert!(matches!(
        detect_format("trailing.", "{}", None),
        Err(FormatError::UnsupportedExtension { .. })
    ));
}

#[test]
fn undetermined_format_names_file() {
    match detect_format("-", "key: [unclosed", None) {
        Err(e @ FormatError::Undetermined { .. }) => {
            assert!(e.message().contains("'-'"));
        }
        other => panic!("unexpected {:?}", other),
    }
}

#[test]
fn sniffing_order() {
    assert_eq!(detect_format("-", "KEY=value\n# c\n\nOTHER_2=x", None).unwrap(), Format::Env);
    assert_eq!(detect_format("-", "[1, 2]", None).unwrap(), Format::Json);
    assert_eq!(detect_format("-", "[server]\nport = 8080", None).unwrap(), Format::Toml);
    assert_eq!(detect_format("-", "club: Vasco\nyear: 1898", None).unwrap(), Format::Yaml);
}

#[test]
fn env_heuristic() {
    assert!(looks_like_env_format("A=1\nB_2= two\n"));
    assert!(looks_like_env_format("  # comment\n\nA=\n"));
    assert!(!looks_like_env_format(""));
    assert!(!looks_like_env_format("# only a comment\n"));
    assert!(!looks_like_env_format("A=1\nnot a setting"));
    assert!(!looks_like_env_format("=value"));
    assert!(!looks_like_env_format("MY-KEY=1"));
    assert!(!looks_like_env_format("club = \"Vasco\""));
}

#[test]
fn env_values_are_typed() {
    let v = parse_env_format("A=42\nB=-7\nC=1.50\nD=TRUE\nE=false\nF=\"quoted\"\nG='single'\nH=plain text\n");
    assert_eq!(
        entries(&v),
        vec![
            ("A".to_string(), "Number(\"42\")".to_string()),
            ("B".to_string(), "Number(\"-7\")".to_string()),
            ("C".to_string(), "Number(\"1.5\")".to_string()),
            ("D".to_string(), "Bool(true)".to_string()),
            ("E".to_string(), "Bool(false)".to_string()),
            ("F".to_string(), "String(\"quoted\")".to_string()),
            ("G".to_string(), "String(\"single\")".to_string()),
            ("H".to_string(), "String(\"plain text\")".to_string()),
        ]
    );
}

#[test]
fn env_skips_and_overwrites() {
    let v = parse_env_format("# head\r\nA=1\r\n\r\nno equals here\nB = x = y \nA=2\n");
    assert_eq!(
        entries(&v),
        vec![
            ("A".to_string(), "Number(\"2\")".to_string()),
            ("B".to_string(), "String(\"x = y\")".to_string()),
        ]
    );
}

#[test]
fn env_edge_values() {
    let v = parse_env_format("N=nan\nQ=\"\nR=\"a'\nI=+5\nBIG=99999999999999999999\nE=");
    assert_eq!(
        entries(&v),
        vec![
            ("N".to_string(), "Number(\"0\")".to_string()),
            ("Q".to_string(), "String(\"\\\"\")".to_string()),
            ("R".to_string(), "String(\"\\\"a'\")".to_string()),
            ("I".to_string(), "Number(\"5\")".to_string()),
            ("BIG".to_string(), "Number(\"1e+20\")".to_string()),
            ("E".to_string(), "String(\"\")".to_string()),
        ]
    );
}

#[test]
fn env_empty_content_is_empty_mapping() {
    assert!(entries(&parse_env_format("")).is_empty());
}

#[test]
fn forced_yaml_on_env_text() {
    assert_eq!(detect_format("-", "KEY=value", Some(Format::Yaml)).unwrap(), Format::Yaml);
    let v = parse_content("-", "KEY=value", Some(Format::Yaml)).unwrap();
    assert_eq!(format_value(&v), "KEY=value");
}

#[test]
fn parse_failures_name_the_format() {
    match parse_content("bad.json", "{oops", None) {
        Err(e @ ConfError::Parse { format: Format::Json, .. }) => {
            assert!(e.message().starts_with("Failed to parse JSON: bad.json"));
        }
        other => panic!("unexpected {:?}", other),
    }
    assert!(matches!(
        parse_content("bad.toml", "a = ", None),
        Err(ConfError::Parse { format: Format::Toml, .. })
    ));
    assert!(matches!(
        parse_content("bad.yaml", "a: [1", None),
        Err(ConfError::Parse { format: Format::Yaml, .. })
    ));
    assert!(matches!(parse_content("x.ini", "a=1", None), Err(ConfError::Format(_))));
}

#[test]
fn toml_document_is_canonical() {
    let v = parse_content(
        "c.toml",
        "title = \"x\"\nwhen = 1979-05-27T07:32:00Z\n[server]\nport = 8080\nratio = 0.5\nhosts = [\"a\", \"b\"]\n",
        None,
    )
    .unwrap();
    assert_eq!(format_value(resolve_path(&v, "server.port").unwrap()), "8080");
    assert_eq!(format_value(resolve_path(&v, "server.ratio").unwrap()), "0.5");
    assert_eq!(format_value(resolve_path(&v, "server.hosts.1").unwrap()), "b");
    assert_eq!(format_value(resolve_path(&v, "when").unwrap()), "1979-05-27T07:32:00Z");
    assert_eq!(format_value(resolve_path(&v, "title").unwrap()), "x");
}

#[test]
fn yaml_document_is_canonical() {
    let v = parse_content("c.yml", "clubs:\n  - name: Vasco\n    founded: 1898\n", None).unwrap();
    assert_eq!(format_value(resolve_path(&v, "clubs.0.name").unwrap()), "Vasco");
    assert_eq!(format_value(resolve_path(&v, "clubs.0.founded").unwrap()), "1898");
}

#[test]
fn pretty_output_keeps_order_and_indents() {
    let v = parse_content("d.json", r#"{"z": [1, {"k": null}], "a": {}, "s": "q\"x", "e": []}"#, None)
        .unwrap();
    assert_eq!(
        format_value(&v),
        "{\n  \"z\": [\n    1,\n    {\n      \"k\": null\n    }\n  ],\n  \"a\": {},\n  \"s\": \"q\\\"x\",\n  \"e\": []\n}"
    );
}

#[test]
fn null_and_float_formatting() {
    assert_eq!(format_value(&CanonicalValue::Null), "null");
    let v = parse_content("f.json", "[2.5, -3]", None).unwrap();
    assert_eq!(format_value(resolve_path(&v, "0").unwrap()), "2.5");
    assert_eq!(format_value(resolve_path(&v, "1").unwrap()), "-3");
}

#[test]
fn colored_output_keeps_text() {
    let s = CanonicalValue::String("Edmundo".to_string());
    assert_eq!(format_value_colored(&s), "Edmundo");
    assert!(format_value_colored(&CanonicalValue::Null).contains("null"));
    assert!(format_value_colored(&CanonicalValue::Bool(true)).contains("true"));
    assert_eq!(colorize_json(&CanonicalValue::Array(vec![]), 3), "[]");
    let v = parse_content("d.json", r#"{"k": "v"}"#, None).unwrap();
    let out = colorize_json(&v, 0);
    assert!(out.starts_with("{\n  "));
    assert!(out.contains("\"k\""));
    assert!(out.contains("\"v\""));
    assert!(out.ends_with("\n}"));
}

#[test]
fn base64_round_trip() {
    assert_eq!(apply_base64_transform("Vasco", false, true).unwrap(), "VmFzY28=");
    assert_eq!(apply_base64_transform("  VmFzY28=\n", true, false).unwrap(), "Vasco");
    assert_eq!(apply_base64_transform("plain", false, false).unwrap(), "plain");
    assert!(matches!(apply_base64_transform("***", true, false), Err(ConfError::Base64Decode)));
    assert!(matches!(apply_base64_transform("//79", true, false), Err(ConfError::Utf8)));
}
