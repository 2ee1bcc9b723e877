use toml_doc::DocError;
use toml_doc::HostValue;
use toml_doc::TomlDocument;

fn text(s: &str) -> HostValue {
    HostValue::Text(s.to_string())
}

#[test]
fn parse_and_serialize_preserves_text() {
    let src = "# heading comment\ntitle = \"x\"   # trailing\n\n[server]\nport = 8080\n";
    let doc = TomlDocument::new(src).unwrap();
    assert_eq!(doc.to_string(), src);
}

#[test]
fn parse_error_on_malformed_input() {
    let r = TomlDocument::new("= nonsense =");
    match r {
        Err(DocError::Parse(m)) => assert!(!m.is_empty()),
        _ => panic!("malformed TOML must fail with a parse diagnostic"),
    }
}

#[test]
fn reserialize_is_idempotent() {
    let src = "# kept\na = 1\n[t]\nb = \"x\"\n";
    let doc = TomlDocument::new(src).unwrap();
    let once = doc.to_string();
    let again = doc.reserialize().expect("serialized text must re-parse");
    assert_eq!(once, again);
}

#[test]
fn reserialize_is_idempotent_after_mutation() {
    let mut doc = TomlDocument::new("a = 1\nb = 2\n").unwrap();
    doc.set("a", &HostValue::Int(7)).unwrap();
    let once = doc.to_string();
    let again = doc.reserialize().expect("serialized text must re-parse");
    assert_eq!(once, again);
}

#[test]
fn get_dotted_path_returns_value() {
    let doc = TomlDocument::new("a.b.c = 1\n").unwrap();
    assert_eq!(doc.get("a.b.c"), Some(HostValue::Int(1)));
}

#[test]
fn get_missing_path_returns_absence() {
    let doc = TomlDocument::new("a.b.c = 1\n").unwrap();
    assert_eq!(doc.get("a.b.x"), None);
    assert_eq!(doc.get("nope"), None);
    assert_eq!(doc.get(""), None);
}

#[test]
fn get_through_scalar_returns_absence() {
    let doc = TomlDocument::new("a = 1\n").unwrap();
    assert_eq!(doc.get("a.b"), None);
}

#[test]
fn get_table_decodes_to_object() {
    let doc = TomlDocument::new("[a]\nb = 1\n").unwrap();
    assert_eq!(
        doc.get("a"),
        Some(HostValue::Object(vec![("b".to_string(), HostValue::Int(1))]))
    );
}

#[test]
fn set_existing_dotted_path() {
    let mut doc = TomlDocument::new("a.b.c = 1\nother = true\n").unwrap();
    assert_eq!(doc.set("a.b.c", &HostValue::Int(2)), Ok(true));
    assert_eq!(doc.get("a.b.c"), Some(HostValue::Int(2)));
    assert_eq!(doc.get("other"), Some(HostValue::Bool(true)));
}

#[test]
fn set_preserves_unrelated_formatting() {
    let src = "# top\n[tbl]\nx = 1 # keep me\ny = 2\n";
    let mut doc = TomlDocument::new(src).unwrap();
    doc.set("tbl.y", &HostValue::Int(3)).unwrap();
    assert_eq!(doc.to_string(), "# top\n[tbl]\nx = 1 # keep me\ny = 3\n");
}

#[test]
fn set_missing_first_segment_names_it_and_changes_nothing() {
    let src = "a = 1\n";
    let mut doc = TomlDocument::new(src).unwrap();
    let r = doc.set("z.y", &HostValue::Int(2));
    match r {
        Err(DocError::KeyNotFound(seg)) => {
            assert_eq!(seg, "z");
        },
        _ => panic!("missing first segment must fail with KeyNotFound"),
    }
    assert_eq!(doc.to_string(), src);
}

#[test]
fn set_missing_deep_segment_names_it_and_changes_nothing() {
    let src = "[a]\nb = 1\n";
    let mut doc = TomlDocument::new(src).unwrap();
    let r = doc.set("a.nope.x", &HostValue::Int(2));
    assert_eq!(r, Err(DocError::KeyNotFound("nope".to_string())));
    assert_eq!(doc.to_string(), src);
}

#[test]
fn key_not_found_message_names_the_segment() {
    let mut doc = TomlDocument::new("a = 1\n").unwrap();
    let e = doc.set("z", &HostValue::Int(2)).unwrap_err();
    assert_eq!(e.message(), "Couldn't find key: z");
}

#[test]
fn set_null_is_rejected_and_document_unchanged() {
    let src = "a = 1\n";
    let mut doc = TomlDocument::new(src).unwrap();
    let r = doc.set("a", &HostValue::Null);
    assert_eq!(
        r,
        Err(DocError::UnsupportedValue("toml doesn't support null".to_string()))
    );
    assert_eq!(doc.to_string(), src);
    assert_eq!(doc.get("a"), Some(HostValue::Int(1)));
}

#[test]
fn set_undefined_is_rejected_and_document_unchanged() {
    let src = "a = 1\n";
    let mut doc = TomlDocument::new(src).unwrap();
    let r = doc.set("a", &HostValue::Undefined);
    assert_eq!(
        r,
        Err(DocError::UnsupportedValue("toml doesn't support undefined".to_string()))
    );
    assert_eq!(doc.to_string(), src);
}

#[test]
fn set_exotic_is_rejected_with_its_type_tag() {
    let mut doc = TomlDocument::new("a = 1\n").unwrap();
    let r = doc.set("a", &HostValue::Exotic("function".to_string()));
    assert_eq!(
        r,
        Err(DocError::UnsupportedValue(
            "Unsupported toml data type: function".to_string()
        ))
    );
}

#[test]
fn set_datetime_is_rejected() {
    let mut doc = TomlDocument::new("a = 1\n").unwrap();
    let r = doc.set("a", &HostValue::Datetime("1979-05-27T07:32:00Z".to_string()));
    assert_eq!(
        r,
        Err(DocError::UnsupportedValue("Unsupported toml data type: date".to_string()))
    );
}

#[test]
fn set_failing_list_element_propagates_inner_error() {
    let src = "a = 1\n";
    let mut doc = TomlDocument::new(src).unwrap();
    let r = doc.set(
        "a",
        &HostValue::List(vec![HostValue::Int(1), HostValue::Null, HostValue::Int(3)]),
    );
    assert_eq!(
        r,
        Err(DocError::UnsupportedValue("toml doesn't support null".to_string()))
    );
    assert_eq!(doc.to_string(), src);
}

#[test]
fn array_round_trip_keeps_elements_and_order() {
    let mut doc = TomlDocument::new("a = 1\n").unwrap();
    let v = HostValue::List(vec![HostValue::Int(1), text("x"), HostValue::Bool(true)]);
    assert_eq!(doc.set("a", &v), Ok(true));
    assert_eq!(doc.get("a"), Some(v));
}

#[test]
fn object_round_trip_keeps_entries_and_order() {
    let mut doc = TomlDocument::new("a = 1\n").unwrap();
    let v = HostValue::Object(vec![
        ("x".to_string(), HostValue::Int(1)),
        ("y".to_string(), text("two")),
    ]);
    assert_eq!(doc.set("a", &v), Ok(true));
    assert_eq!(doc.get("a"), Some(v));
}

#[test]
fn object_with_repeated_key_keeps_last_value() {
    let mut doc = TomlDocument::new("a = 1\n").unwrap();
    let v = HostValue::Object(vec![
        ("k".to_string(), HostValue::Int(1)),
        ("k".to_string(), HostValue::Int(2)),
    ]);
    assert_eq!(doc.set("a", &v), Ok(true));
    assert_eq!(
        doc.get("a"),
        Some(HostValue::Object(vec![("k".to_string(), HostValue::Int(2))]))
    );
}

#[test]
fn string_round_trip() {
    let mut doc = TomlDocument::new("a = 1\n").unwrap();
    assert_eq!(doc.set("a", &text("hello world")), Ok(true));
    assert_eq!(doc.get("a"), Some(text("hello world")));
}

#[test]
fn float_decodes_to_decimal_text() {
    let doc = TomlDocument::new("f = 2.5\n").unwrap();
    match doc.get("f") {
        Some(HostValue::Float(t)) => {
            assert_eq!(t, "2.5");
            assert_eq!(t.parse::<f64>().unwrap(), 2.5f64);
        },
        other => panic!("expected a float, got {:?}", other),
    }
}

#[test]
fn float_round_trip_through_set() {
    let mut doc = TomlDocument::new("f = 1.0\n").unwrap();
    assert_eq!(doc.set("f", &HostValue::Float("2.5".to_string())), Ok(true));
    assert_eq!(doc.get("f"), Some(HostValue::Float("2.5".to_string())));
}

#[test]
fn float_text_that_is_no_toml_float_is_rejected() {
    let mut doc = TomlDocument::new("f = 1.0\n").unwrap();
    let r = doc.set("f", &HostValue::Float("pancake".to_string()));
    assert_eq!(
        r,
        Err(DocError::UnsupportedValue("Unsupported toml data type: number".to_string()))
    );
}

#[test]
fn datetime_decodes_to_canonical_text() {
    let doc = TomlDocument::new("d = 1979-05-27T07:32:00Z\n").unwrap();
    assert_eq!(doc.get("d"), Some(HostValue::Datetime("1979-05-27T07:32:00Z".to_string())));
}

#[test]
fn inline_table_navigation_and_mutation() {
    let mut doc = TomlDocument::new("t = { x = 1, y = 2 }\n").unwrap();
    assert_eq!(doc.get("t.x"), Some(HostValue::Int(1)));
    assert_eq!(doc.set("t.x", &HostValue::Int(5)), Ok(true));
    assert_eq!(doc.get("t.x"), Some(HostValue::Int(5)));
    assert_eq!(doc.get("t.y"), Some(HostValue::Int(2)));
}

#[test]
fn export_object_of_table() {
    let doc = TomlDocument::new("[a]\nb = 1\n").unwrap();
    assert_eq!(
        doc.to_object(),
        HostValue::Object(vec![(
            "a".to_string(),
            HostValue::Object(vec![("b".to_string(), HostValue::Int(1))])
        )])
    );
}

#[test]
fn export_object_of_array_of_tables_in_document_order() {
    let doc = TomlDocument::new("[[a]]\nx = 1\n[[a]]\nx = 2\n").unwrap();
    assert_eq!(
        doc.to_object(),
        HostValue::Object(vec![(
            "a".to_string(),
            HostValue::List(vec![
                HostValue::Object(vec![("x".to_string(), HostValue::Int(1))]),
                HostValue::Object(vec![("x".to_string(), HostValue::Int(2))]),
            ])
        )])
    );
}

#[test]
fn export_object_mixed_document() {
    let doc =
        TomlDocument::new("title = \"t\"\nnums = [1, 2]\npoint = { x = 1 }\n[owner]\nname = \"o\"\n")
            .unwrap();
    assert_eq!(
        doc.to_object(),
        HostValue::Object(vec![
            ("title".to_string(), text("t")),
            (
                "nums".to_string(),
                HostValue::List(vec![HostValue::Int(1), HostValue::Int(2)])
            ),
            (
                "point".to_string(),
                HostValue::Object(vec![("x".to_string(), HostValue::Int(1))])
            ),
            (
                "owner".to_string(),
                HostValue::Object(vec![("name".to_string(), text("o"))])
            ),
        ])
    );
}

#[test]
fn parse_factory_behaves_like_constructor() {
    let doc = TomlDocument::parse("a = 1\n").unwrap();
    assert_eq!(doc.get("a"), Some(HostValue::Int(1)));
    assert!(TomlDocument::parse("][").is_err());
}

#[test]
fn empty_segments_are_real_segments() {
    let mut doc = TomlDocument::new("a = 1\n").unwrap();
    let r = doc.set("", &HostValue::Int(2));
    assert_eq!(r, Err(DocError::KeyNotFound("".to_string())));
    let r2 = doc.set("a..b", &HostValue::Int(2));
    match r2 {
        Err(DocError::KeyNotFound(seg)) => assert_eq!(seg, ""),
        other => panic!("expected KeyNotFound, got {:?}", other),
    }
}

#[test]
fn set_replaces_whole_subtable_with_value() {
    let mut doc = TomlDocument::new("t = { x = 1 }\nkeep = 1\n").unwrap();
    assert_eq!(doc.set("t", &HostValue::Int(9)), Ok(true));
    assert_eq!(doc.get("t"), Some(HostValue::Int(9)));
    assert_eq!(doc.get("t.x"), None);
    assert_eq!(doc.get("keep"), Some(HostValue::Int(1)));
}

#[test]
fn get_array_of_tables_decodes_to_list() {
    let doc = TomlDocument::new("[[srv]]\nport = 1\n[[srv]]\nport = 2\n").unwrap();
    assert_eq!(
        doc.get("srv"),
        Some(HostValue::List(vec![
            HostValue::Object(vec![("port".to_string(), HostValue::Int(1))]),
            HostValue::Object(vec![("port".to_string(), HostValue::Int(2))]),
        ]))
    );
}

#[test]
fn array_elements_are_not_addressable_by_string_segments() {
    let doc = TomlDocument::new("nums = [1, 2]\n").unwrap();
    assert_eq!(doc.get("nums.0"), None);
}

#[test]
fn nested_list_round_trip() {
    let mut doc = TomlDocument::new("a = 1\n").unwrap();
    let v = HostValue::List(vec![
        HostValue::List(vec![HostValue::Int(1), HostValue::Int(2)]),
        HostValue::List(vec![HostValue::Bool(false)]),
    ]);
    assert_eq!(doc.set("a", &v), Ok(true));
    assert_eq!(doc.get("a"), Some(v));
}

#[test]
fn set_writes_inline_table_value_and_serializes() {
    let mut doc = TomlDocument::new("a = 1\n").unwrap();
    let v = HostValue::Object(vec![("x".to_string(), HostValue::Int(1))]);
    assert_eq!(doc.set("a", &v), Ok(true));
    let reparsed = TomlDocument::new(&doc.to_string()).unwrap();
    assert_eq!(reparsed.get("a.x"), Some(HostValue::Int(1)));
}

#[test]
fn leading_byte_order_mark_is_skipped_by_parsing() {
    let src = "\u{feff}a = 1\n";
    let doc = TomlDocument::new(src).unwrap();
    assert_eq!(doc.get("a"), Some(HostValue::Int(1)));
    assert_eq!(doc.to_string(), "a = 1\n");
}

#[test]
fn parse_error_message_is_the_parser_diagnostic_verbatim() {
    let bad = "= nonsense =";
    let expected = bad.parse::<toml_edit::DocumentMut>().unwrap_err().to_string();
    match TomlDocument::new(bad) {
        Err(DocError::Parse(m)) => assert_eq!(m, expected),
        _ => panic!("malformed TOML must fail with a parse diagnostic"),
    }
}

#[test]
fn infinity_decodes_and_reencodes() {
    let mut doc = TomlDocument::new("f = inf\ng = 1.0\n").unwrap();
    assert_eq!(doc.get("f"), Some(HostValue::Float("inf".to_string())));
    assert_eq!(doc.set("g", &HostValue::Float("inf".to_string())), Ok(true));
    assert_eq!(doc.get("g"), Some(HostValue::Float("inf".to_string())));
}

#[test]
fn nan_decodes_to_debug_text_that_does_not_reencode() {
    let mut doc = TomlDocument::new("f = nan\n").unwrap();
    assert_eq!(doc.get("f"), Some(HostValue::Float("NaN".to_string())));
    let r = doc.set("f", &HostValue::Float("NaN".to_string()));
    assert_eq!(
        r,
        Err(DocError::UnsupportedValue("Unsupported toml data type: number".to_string()))
    );
}

#[test]
fn float_value_round_trip_law_on_concrete_values() {
    let v: toml_edit::Value = "2.5".parse().unwrap();
    let r = toml_doc::codec::float_value_round_trip(&v).unwrap();
    assert_eq!(r.as_float(), Some(2.5));
    let neg: toml_edit::Value = "-0.0".parse().unwrap();
    let r2 = toml_doc::codec::float_value_round_trip(&neg).unwrap();
    assert_eq!(r2.as_float().map(f64::to_bits), Some((-0.0f64).to_bits()));
}
