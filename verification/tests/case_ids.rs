use clairo::{show_labels, CaseId, CaseIdError, CaseSelection};

#[test]
fn full_ids_join_function_and_parameter() {
    let id = CaseId::try_new("prefix_sum", "elements=16384").unwrap();
    assert_eq!(id.full_id(), "prefix_sum/elements=16384");
    assert_eq!(CaseId::from_label("prefix_sum|elements=16384").unwrap().full_id(), "prefix_sum|elements=16384");
}

#[test]
fn invalid_labels_are_rejected() {
    for bad in ["", " leading", "trailing ", "bad/name", "bad\nname", "\u{a0}x", "x\u{3000}", "a\u{9c}b"] {
        assert_eq!(CaseId::try_new(bad, "p").unwrap_err(), CaseIdError::InvalidFunction);
        assert_eq!(CaseId::try_new("f", bad).unwrap_err(), CaseIdError::InvalidParameter);
        assert_eq!(CaseId::try_new(bad, bad).unwrap_err(), CaseIdError::InvalidFunction);
        assert_eq!(CaseId::from_label(bad).unwrap_err(), CaseIdError::InvalidLabel);
    }
    assert_eq!(CaseIdError::InvalidFunction.message(), "invalid function name");
    assert_eq!(CaseIdError::InvalidParameter.message(), "invalid parameter name");
    assert_eq!(CaseIdError::InvalidLabel.message(), "invalid case label");
}

#[test]
fn inner_white_space_and_other_scripts_are_fine() {
    for good in ["two words", "größe", "行列", "a.b-c_d|e=f"] {
        assert!(CaseId::from_label(good).is_ok());
    }
}

#[test]
fn character_classes_agree_with_the_standard_library() {
    for c in '\0'..=char::MAX {
        let inner = format!("a{c}b");
        assert_eq!(CaseId::from_label(&inner).is_ok(), !(c.is_control() || c == '/'), "{c:?}");
        let leading = format!("{c}a");
        let trailing = format!("a{c}");
        let valid = !(c.is_control() || c == '/' || c.is_whitespace());
        assert_eq!(CaseId::from_label(&leading).is_ok(), valid, "{c:?}");
        assert_eq!(CaseId::from_label(&trailing).is_ok(), valid, "{c:?}");
    }
}

#[test]
fn identities_are_read_back_from_their_text() {
    let id = CaseId::from_full_id("f/p").unwrap();
    assert_eq!(id, CaseId::try_new("f", "p").unwrap());
    assert_eq!(id.full_id(), "f/p");
    let id = CaseId::from_full_id("alone").unwrap();
    assert_eq!(id, CaseId::from_label("alone").unwrap());

    assert_eq!(CaseId::from_full_id("").unwrap_err(), CaseIdError::InvalidLabel);
    assert_eq!(CaseId::from_full_id("/p").unwrap_err(), CaseIdError::InvalidFunction);
    assert_eq!(CaseId::from_full_id("f/").unwrap_err(), CaseIdError::InvalidParameter);
    assert_eq!(CaseId::from_full_id("f/p/q").unwrap_err(), CaseIdError::InvalidParameter);
}

#[test]
fn selections_match_the_full_id() {
    let id = CaseId::try_new("prefix_sum", "elements=16384").unwrap();
    assert!(CaseSelection::all().matches(&id));
    assert!(CaseSelection::default().matches(&id));
    assert!(CaseSelection::containing("sum/elem").matches(&id));
    assert!(CaseSelection::containing("").matches(&id));
    assert!(CaseSelection::containing("prefix_sum/elements=16384").matches(&id));
    assert!(!CaseSelection::containing("prefix_sum/elements=163840").matches(&id));
    assert!(!CaseSelection::containing("Sum").matches(&id));
    assert!(CaseSelection::exact("prefix_sum/elements=16384").matches(&id));
    assert!(!CaseSelection::exact("prefix_sum").matches(&id));
    assert_eq!(CaseSelection::containing("x"), CaseSelection::Containing("x".to_owned()));
    assert_eq!(CaseSelection::exact("x"), CaseSelection::Exact("x".to_owned()));
}

#[test]
fn identities_are_shown_with_quoted_labels() {
    let id = CaseId::try_new("say \"hi\"", "back\\slash").unwrap();
    assert_eq!(id.shown(), r#"CaseId { function: "say \"hi\"", parameter: "back\\slash" }"#);
    assert_eq!(CaseId::from_label("it's \"it\"").unwrap().shown(), r#""it's \"it\"""#);
    assert_eq!(format!("{id:?}"), id.shown());
    assert_eq!(show_labels("f", Some("p")), "CaseId { function: f, parameter: p }");
    assert_eq!(show_labels("f", None), "f");
}
