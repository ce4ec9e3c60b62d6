use promptea::{
    CollectionConstraints, Conditions, Event, Field, IfCondition, IntConstraints, Outcome,
    Schema, Script, SelectConstraints, StringConstraints, TypeConstraints, ValidationError,
    Value,
};

fn text_field(can_skip: bool, sc: StringConstraints) -> Field {
    Field {
        display_name: None,
        prompt: None,
        description: String::new(),
        type_constraints: TypeConstraints::Text(sc),
        can_skip,
    }
}

fn run(schema: &Schema, events: Vec<Event>) -> (Outcome<promptea::Document>, Script) {
    let mut script = Script::new(events);
    let r = schema.prompt(true, &mut script);
    (r, script)
}

fn get<'a>(doc: &'a promptea::Document, key: &str) -> &'a Value {
    doc.get(&key.to_string()).expect("missing key")
}

#[test]
fn skip_yields_null_without_validation() {
    // A skippable text field with a length floor: an empty answer resolves
    // to Null even though "" would violate the constraint.
    let sc = StringConstraints { min_length: 3, max_length: usize::MAX, regex: None };
    let schema = Schema { fields: vec![("name".to_string(), text_field(true, sc))] };
    let (r, script) = run(&schema, vec![Event::Text(String::new())]);
    match r {
        Outcome::Done(doc) => {
            assert!(matches!(get(&doc, "name"), Value::Null));
        }
        _ => panic!("expected completion"),
    }
    assert_eq!(script.unread(), 0);
}

#[test]
fn short_answer_rejected_then_reasked() {
    let sc = StringConstraints { min_length: 3, max_length: usize::MAX, regex: None };
    let schema = Schema { fields: vec![("name".to_string(), text_field(false, sc))] };
    // A 2-character answer is rejected; the next, long enough, is taken.
    let (r, _) = run(
        &schema,
        vec![Event::Text("ab".to_string()), Event::Text("abc".to_string())],
    );
    match r {
        Outcome::Done(doc) => match get(&doc, "name") {
            Value::Text(s) => assert_eq!(s, "abc"),
            v => panic!("unexpected value {v:?}"),
        },
        _ => panic!("expected completion"),
    }
    // With only the short answer, resolution does not complete: the field is
    // asked again, naming the violated bound.
    let (r, _) = run(&schema, vec![Event::Text("ab".to_string())]);
    match r {
        Outcome::Need(req) => {
            assert_eq!(
                req.complaint,
                Some(ValidationError::TooShort { length: 2, min_length: 3 })
            );
        }
        _ => panic!("expected a re-ask"),
    }
}

#[test]
fn numeric_range_enforced_on_u8() {
    let c: IntConstraints<u8> = IntConstraints { min: 1, max: 10 };
    let field = Field {
        display_name: None,
        prompt: None,
        description: String::new(),
        type_constraints: TypeConstraints::U8(c),
        can_skip: false,
    };
    let schema = Schema { fields: vec![("n".to_string(), field)] };
    // "0" and "11" are both rejected; "1" is then accepted exactly.
    let (r, _) = run(
        &schema,
        vec![
            Event::Text("0".to_string()),
            Event::Text("11".to_string()),
            Event::Text("1".to_string()),
        ],
    );
    match r {
        Outcome::Done(doc) => assert!(matches!(get(&doc, "n"), Value::Num(1))),
        _ => panic!("expected completion"),
    }
    // "10" round-trips to the exact boundary value.
    let (r, _) = run(&schema, vec![Event::Text("10".to_string())]);
    match r {
        Outcome::Done(doc) => assert!(matches!(get(&doc, "n"), Value::Num(10))),
        _ => panic!("expected completion"),
    }
    // The rejections carry the violated bounds.
    let (r, _) = run(&schema, vec![Event::Text("0".to_string())]);
    match r {
        Outcome::Need(req) => assert_eq!(
            req.complaint,
            Some(ValidationError::BelowMinimum { value: 0, minimum: 1 })
        ),
        _ => panic!("expected a re-ask"),
    }
    let (r, _) = run(&schema, vec![Event::Text("11".to_string())]);
    match r {
        Outcome::Need(req) => assert_eq!(
            req.complaint,
            Some(ValidationError::AboveMaximum { value: 11, maximum: 10 })
        ),
        _ => panic!("expected a re-ask"),
    }
    // Non-numeric text is a different rejection.
    let (r, _) = run(&schema, vec![Event::Text("zez".to_string())]);
    match r {
        Outcome::Need(req) => assert_eq!(req.complaint, Some(ValidationError::NotNumeric)),
        _ => panic!("expected a re-ask"),
    }
}

fn string_array_field(min_items: usize, max_items: usize) -> Field {
    Field {
        display_name: None,
        prompt: None,
        description: String::new(),
        type_constraints: TypeConstraints::ArrayText {
            constraints: CollectionConstraints { min_items, max_items },
            inner_constraints: StringConstraints {
                min_length: 0,
                max_length: usize::MAX,
                regex: None,
            },
        },
        can_skip: false,
    }
}

#[test]
fn collection_shortfall_keeps_collecting() {
    let schema = Schema { fields: vec![("xs".to_string(), string_array_field(2, 4))] };
    // One item then a blank: below the floor, so collection is not over; the
    // shortfall is reported and more items are taken.
    let (r, _) = run(
        &schema,
        vec![
            Event::Text("a".to_string()),
            Event::Text(String::new()),
            Event::Text("b".to_string()),
            Event::Text(String::new()),
        ],
    );
    match r {
        Outcome::Done(doc) => match get(&doc, "xs") {
            Value::Array(items) => {
                assert_eq!(items.len(), 2);
                assert!(matches!(&items[0], Value::Text(s) if s == "a"));
                assert!(matches!(&items[1], Value::Text(s) if s == "b"));
            }
            v => panic!("unexpected value {v:?}"),
        },
        _ => panic!("expected completion"),
    }
    // A blank below the floor leads to a re-ask that names the shortfall.
    let (r, _) = run(
        &schema,
        vec![Event::Text("a".to_string()), Event::Text(String::new())],
    );
    match r {
        Outcome::Need(req) => assert_eq!(
            req.complaint,
            Some(ValidationError::TooFewItems { count: 1, min_items: 2 })
        ),
        _ => panic!("expected a re-ask"),
    }
}

#[test]
fn collection_stops_at_ceiling() {
    let schema = Schema { fields: vec![("xs".to_string(), string_array_field(2, 4))] };
    // Four non-empty items end the collection at once: the fifth answer is
    // never consumed.
    let (r, script) = run(
        &schema,
        vec![
            Event::Text("a".to_string()),
            Event::Text("b".to_string()),
            Event::Text("c".to_string()),
            Event::Text("d".to_string()),
            Event::Text("e".to_string()),
        ],
    );
    match r {
        Outcome::Done(doc) => match get(&doc, "xs") {
            Value::Array(items) => assert_eq!(items.len(), 4),
            v => panic!("unexpected value {v:?}"),
        },
        _ => panic!("expected completion"),
    }
    assert_eq!(script.unread(), 1);
}

fn select_field(insert_at_root: bool, conditions: Vec<IfCondition>) -> Field {
    Field {
        display_name: None,
        prompt: None,
        description: String::new(),
        type_constraints: TypeConstraints::Select {
            constraints: SelectConstraints {
                select_many: false,
                items: vec![Value::Text("a".to_string()), Value::Text("b".to_string())],
            },
            conditions: Conditions { insert_at_root, if_conditions: conditions },
        },
        can_skip: false,
    }
}

fn one_condition_on_a(key: &str) -> IfCondition {
    IfCondition {
        picked: Value::Text("a".to_string()),
        fields: vec![(
            key.to_string(),
            text_field(false, StringConstraints {
                min_length: 0,
                max_length: usize::MAX,
                regex: None,
            }),
        )],
    }
}

#[test]
fn conditional_nested_replaces_selection() {
    let schema = Schema {
        fields: vec![("pick".to_string(), select_field(false, vec![one_condition_on_a("x")]))],
    };
    let (r, _) = run(
        &schema,
        vec![Event::Pick(Some(0)), Event::Text("hello".to_string())],
    );
    match r {
        Outcome::Done(doc) => match get(&doc, "pick") {
            Value::Object(entries) => {
                assert_eq!(entries.len(), 1);
                assert_eq!(entries[0].0, "x");
                assert!(matches!(&entries[0].1, Value::Text(s) if s == "hello"));
            }
            v => panic!("expected the nested object, got {v:?}"),
        },
        _ => panic!("expected completion"),
    }
}

#[test]
fn conditional_at_root_keeps_selection() {
    let schema = Schema {
        fields: vec![("pick".to_string(), select_field(true, vec![one_condition_on_a("x")]))],
    };
    let (r, _) = run(
        &schema,
        vec![Event::Pick(Some(0)), Event::Text("hello".to_string())],
    );
    match r {
        Outcome::Done(doc) => {
            assert!(matches!(get(&doc, "pick"), Value::Text(s) if s == "a"));
            assert!(matches!(get(&doc, "x"), Value::Text(s) if s == "hello"));
        }
        _ => panic!("expected completion"),
    }
}

#[test]
fn unmatched_selection_triggers_nothing() {
    let schema = Schema {
        fields: vec![("pick".to_string(), select_field(false, vec![one_condition_on_a("x")]))],
    };
    let (r, script) = run(&schema, vec![Event::Pick(Some(1))]);
    match r {
        Outcome::Done(doc) => {
            assert!(matches!(get(&doc, "pick"), Value::Text(s) if s == "b"));
        }
        _ => panic!("expected completion"),
    }
    assert_eq!(script.unread(), 0);
}

#[test]
fn first_matching_condition_wins() {
    // Two conditions both trigger on "a": only the first, in declared
    // order, fires; the second's fields are never prompted.
    let schema = Schema {
        fields: vec![(
            "pick".to_string(),
            select_field(false, vec![one_condition_on_a("first"), one_condition_on_a("second")]),
        )],
    };
    let (r, script) = run(
        &schema,
        vec![Event::Pick(Some(0)), Event::Text("v".to_string())],
    );
    match r {
        Outcome::Done(doc) => match get(&doc, "pick") {
            Value::Object(entries) => {
                assert_eq!(entries.len(), 1);
                assert_eq!(entries[0].0, "first");
            }
            v => panic!("expected the nested object, got {v:?}"),
        },
        _ => panic!("expected completion"),
    }
    assert_eq!(script.unread(), 0);
}

#[test]
fn skipped_selection_never_evaluates_conditions() {
    let mut field = select_field(false, vec![one_condition_on_a("x")]);
    field.can_skip = true;
    let schema = Schema { fields: vec![("pick".to_string(), field)] };
    let (r, script) = run(&schema, vec![Event::Pick(None)]);
    match r {
        Outcome::Done(doc) => assert!(matches!(get(&doc, "pick"), Value::Null)),
        _ => panic!("expected completion"),
    }
    assert_eq!(script.unread(), 0);
}

#[test]
fn multi_select_collects_each_pick() {
    let mut field = select_field(false, vec![]);
    if let TypeConstraints::Select { constraints, .. } = &mut field.type_constraints {
        constraints.select_many = true;
    }
    let schema = Schema { fields: vec![("pick".to_string(), field)] };
    let (r, _) = run(&schema, vec![Event::PickMany(Some(vec![0, 1]))]);
    match r {
        Outcome::Done(doc) => match get(&doc, "pick") {
            Value::Array(items) => {
                assert_eq!(items.len(), 2);
                assert!(matches!(&items[0], Value::Text(s) if s == "a"));
                assert!(matches!(&items[1], Value::Text(s) if s == "b"));
            }
            v => panic!("unexpected value {v:?}"),
        },
        _ => panic!("expected completion"),
    }
}

#[test]
fn full_round_trip() {
    let regex_sc = StringConstraints {
        min_length: 0,
        max_length: usize::MAX,
        regex: Some("^[a-z]+$".to_string()),
    };
    let inner = vec![
        ("first".to_string(), text_field(false, StringConstraints::default())),
        ("second".to_string(), text_field(false, StringConstraints::default())),
    ];
    let schema = Schema {
        fields: vec![
            (
                "flag".to_string(),
                Field {
                    display_name: None,
                    prompt: None,
                    description: String::new(),
                    type_constraints: TypeConstraints::Bool,
                    can_skip: false,
                },
            ),
            (
                "count".to_string(),
                Field {
                    display_name: None,
                    prompt: None,
                    description: String::new(),
                    type_constraints: TypeConstraints::U8(IntConstraints { min: 1, max: 10 }),
                    can_skip: false,
                },
            ),
            ("word".to_string(), text_field(false, regex_sc)),
            (
                "nested".to_string(),
                Field {
                    display_name: None,
                    prompt: None,
                    description: String::new(),
                    type_constraints: TypeConstraints::Object { fields: inner },
                    can_skip: false,
                },
            ),
        ],
    };
    let (r, script) = run(
        &schema,
        vec![
            Event::YesNo(true),
            Event::Text("7".to_string()),
            Event::Text("abc".to_string()),
            Event::Text("one".to_string()),
            Event::Text("two".to_string()),
        ],
    );
    match r {
        Outcome::Done(doc) => {
            assert!(matches!(get(&doc, "flag"), Value::Bool(true)));
            assert!(matches!(get(&doc, "count"), Value::Num(7)));
            assert!(matches!(get(&doc, "word"), Value::Text(s) if s == "abc"));
            match get(&doc, "nested") {
                Value::Object(entries) => {
                    assert_eq!(entries.len(), 2);
                    assert_eq!(entries[0].0, "first");
                    assert!(matches!(&entries[0].1, Value::Text(s) if s == "one"));
                    assert_eq!(entries[1].0, "second");
                    assert!(matches!(&entries[1].1, Value::Text(s) if s == "two"));
                }
                v => panic!("expected the nested object, got {v:?}"),
            }
        }
        _ => panic!("expected completion"),
    }
    assert_eq!(script.unread(), 0);
}

#[test]
fn regex_mismatch_is_rejected() {
    let sc = StringConstraints {
        min_length: 0,
        max_length: usize::MAX,
        regex: Some("^[a-z]+$".to_string()),
    };
    let schema = Schema { fields: vec![("word".to_string(), text_field(false, sc))] };
    let (r, _) = run(&schema, vec![Event::Text("ABC".to_string())]);
    match r {
        Outcome::Need(req) => assert_eq!(req.complaint, Some(ValidationError::PatternMismatch)),
        _ => panic!("expected a re-ask"),
    }
    // An uncompilable pattern is its own rejection.
    let bad = StringConstraints {
        min_length: 0,
        max_length: usize::MAX,
        regex: Some("(".to_string()),
    };
    let schema = Schema { fields: vec![("word".to_string(), text_field(false, bad))] };
    let (r, _) = run(&schema, vec![Event::Text("abc".to_string())]);
    match r {
        Outcome::Need(req) => assert_eq!(req.complaint, Some(ValidationError::PatternInvalid)),
        _ => panic!("expected a re-ask"),
    }
}

#[test]
fn field_key_becomes_title_case_label() {
    let schema = Schema {
        fields: vec![(
            "user_name".to_string(),
            text_field(false, StringConstraints::default()),
        )],
    };
    let (r, _) = run(&schema, vec![]);
    match r {
        Outcome::Need(req) => assert_eq!(req.label, "User Name"),
        _ => panic!("expected a pending question"),
    }
}

#[test]
fn channel_failure_aborts_traversal() {
    let schema = Schema {
        fields: vec![("a".to_string(), text_field(false, StringConstraints::default()))],
    };
    let (r, _) = run(&schema, vec![Event::Closed]);
    assert!(matches!(r, Outcome::Fail(promptea::PromptError::ChannelClosed)));
}

#[test]
fn display_and_parsing_formats() {
    assert_eq!(promptea::display_value(&Value::Null), "null");
    assert_eq!(promptea::display_value(&Value::Bool(true)), "true");
    assert_eq!(promptea::display_value(&Value::Num(-45)), "-45");
    assert_eq!(promptea::display_value(&Value::Num(1070)), "1070");
    assert_eq!(promptea::display_value(&Value::Text("hey".to_string())), "hey");

    assert_eq!(promptea::maybe_parse_value::<u8>(true, String::new()), None);
    assert_eq!(promptea::maybe_parse_value::<u8>(false, "42".to_string()), Some(42));
    assert_eq!(promptea::maybe_parse_value::<i16>(false, "-300".to_string()), Some(-300));
}

#[test]
fn value_equality_is_structural() {
    let a = Value::Array(vec![Value::Num(1), Value::Text("x".to_string())]);
    let b = Value::Array(vec![Value::Num(1), Value::Text("x".to_string())]);
    let c = Value::Array(vec![Value::Num(2), Value::Text("x".to_string())]);
    assert!(promptea::value_eq(&a, &b));
    assert!(!promptea::value_eq(&a, &c));
    assert!(promptea::value_eq(&a.duplicate(), &a));
}

#[test]
fn validators_report_exact_bounds() {
    let sc = StringConstraints { min_length: 2, max_length: 3, regex: None };
    assert_eq!(sc.validate(&"a".to_string()),
        Err(ValidationError::TooShort { length: 1, min_length: 2 }));
    assert_eq!(sc.validate(&"abcd".to_string()),
        Err(ValidationError::TooLong { length: 4, max_length: 3 }));
    assert_eq!(sc.validate(&"ab".to_string()), Ok(()));

    let ic: IntConstraints<i8> = IntConstraints { min: -5, max: 5 };
    assert_eq!(ic.validate(-6), Err(ValidationError::BelowMinimum { value: -6, minimum: -5 }));
    assert_eq!(ic.validate(6), Err(ValidationError::AboveMaximum { value: 6, maximum: 5 }));
    assert_eq!(ic.validate(0), Ok(()));

    assert_eq!(promptea::BlankValidator.validate(&"anything"), Ok(()));
}
