use vsix_sync::document::{asset_url_of_body, direct_asset_url, first_present, nested_text};
use vsix_sync::lookup::{
    classify, lookup_url, resolve, AvailableExtension, DeclaredExtension, LookupReply,
    ResolutionOutcome, ResolutionSnapshot, UnavailableExtension,
};
use vsix_sync::status::is_success_status;

fn declared(identifier: &str, external_ref: Option<&str>) -> DeclaredExtension {
    DeclaredExtension {
        identifier: identifier.to_string(),
        external_ref: external_ref.map(|r| r.to_string()),
    }
}

fn unavailable(identifier: &str, external_ref: Option<&str>) -> ResolutionOutcome {
    ResolutionOutcome::Unavailable(UnavailableExtension {
        identifier: identifier.to_string(),
        external_ref: external_ref.map(|r| r.to_string()),
    })
}

fn available(identifier: &str, external_ref: Option<&str>, url: &str) -> ResolutionOutcome {
    ResolutionOutcome::Available(AvailableExtension {
        identifier: identifier.to_string(),
        external_ref: external_ref.map(|r| r.to_string()),
        direct_url: url.to_string(),
    })
}

fn success(body: &str) -> LookupReply {
    LookupReply::Responded { status: 200, body: body.as_bytes().to_vec() }
}

#[test]
fn lookup_url_turns_the_separator_into_a_path_separator() {
    assert_eq!(lookup_url("redhat.java"), "https://open-vsx.org/api/redhat/java");
    assert_eq!(lookup_url("a.b.c"), "https://open-vsx.org/api/a/b/c");
    assert_eq!(lookup_url("plain"), "https://open-vsx.org/api/plain");
}

#[test]
fn success_class_is_200_to_299() {
    assert!(!is_success_status(0));
    assert!(!is_success_status(199));
    assert!(is_success_status(200));
    assert!(is_success_status(204));
    assert!(is_success_status(299));
    assert!(!is_success_status(300));
    assert!(!is_success_status(404));
    assert!(!is_success_status(500));
    assert!(!is_success_status(u16::MAX));
}

#[test]
fn resolve_finds_the_primary_field() {
    let ext = declared("redhat.java", Some("u-1"));
    let outcome = resolve(&ext, &success(r#"{"files":{"download":"X"}}"#)).unwrap();
    assert_eq!(outcome, available("redhat.java", Some("u-1"), "X"));
}

#[test]
fn resolve_falls_back_to_the_second_field() {
    let ext = declared("redhat.java", None);
    let body = r#"{"name":"java","downloads":{"universal":"https://cdn/u.vsix"}}"#;
    assert_eq!(
        resolve(&ext, &success(body)).unwrap(),
        available("redhat.java", None, "https://cdn/u.vsix")
    );
}

#[test]
fn resolve_prefers_the_primary_field() {
    let ext = declared("a.b", None);
    let body = r#"{"downloads":{"universal":"second"},"files":{"download":"first"}}"#;
    assert_eq!(resolve(&ext, &success(body)).unwrap(), available("a.b", None, "first"));
}

#[test]
fn resolve_skips_a_primary_field_that_is_no_string() {
    let ext = declared("a.b", None);
    let body = r#"{"files":{"download":17},"downloads":{"universal":"second"}}"#;
    assert_eq!(resolve(&ext, &success(body)).unwrap(), available("a.b", None, "second"));
    let body = r#"{"files":"download","downloads":{"universal":"second"}}"#;
    assert_eq!(resolve(&ext, &success(body)).unwrap(), available("a.b", None, "second"));
}

#[test]
fn resolve_success_without_known_field_is_unavailable() {
    let ext = declared("a.b", Some("r"));
    for body in [
        r#"{}"#,
        r#"{"name":"b","namespace":"a"}"#,
        r#"{"files":{}}"#,
        r#"{"files":{"icon":"i.png"},"downloads":{"linux-x64":"l.vsix"}}"#,
        r#"{"files":{"download":null}}"#,
        r#"[{"files":{"download":"X"}}]"#,
        r#""files""#,
        r#"null"#,
        r#"{"download":"X","universal":"Y"}"#,
    ] {
        assert_eq!(resolve(&ext, &success(body)).unwrap(), unavailable("a.b", Some("r")));
    }
}

#[test]
fn resolve_not_found_is_unavailable() {
    let ext = declared("a.b", None);
    let reply = LookupReply::Responded { status: 404, body: b"Not Found".to_vec() };
    assert_eq!(resolve(&ext, &reply), Ok(unavailable("a.b", None)));
}

#[test]
fn resolve_ignores_the_body_outside_the_success_class() {
    let ext = declared("a.b", None);
    let body = br#"{"files":{"download":"X"}}"#.to_vec();
    for status in [100, 199, 300, 301, 400, 404, 500, 503] {
        let reply = LookupReply::Responded { status, body: body.clone() };
        assert_eq!(resolve(&ext, &reply), Ok(unavailable("a.b", None)));
    }
    for status in [200, 201, 299] {
        let reply = LookupReply::Responded { status, body: body.clone() };
        assert_eq!(resolve(&ext, &reply), Ok(available("a.b", None, "X")));
    }
}

#[test]
fn resolve_unreachable_is_unavailable() {
    let ext = declared("a.b", Some("r"));
    assert_eq!(resolve(&ext, &LookupReply::Unreachable), Ok(unavailable("a.b", Some("r"))));
}

#[test]
fn resolve_malformed_success_body_is_an_error() {
    let ext = declared("a.b", None);
    for body in ["", "not json", r#"{"files":"#, r#"{"files":{"download":"X"}} trailing"#] {
        let error = resolve(&ext, &success(body)).unwrap_err();
        assert_eq!(error.identifier, "a.b");
        assert!(!error.detail.is_empty());
    }
}

#[test]
fn asset_url_of_body_reads_both_places() {
    assert_eq!(
        asset_url_of_body(br#"{"files":{"download":"X"}}"#),
        Ok(Some("X".to_string()))
    );
    assert_eq!(
        asset_url_of_body(br#"{"downloads":{"universal":"Y"}}"#),
        Ok(Some("Y".to_string()))
    );
    assert_eq!(asset_url_of_body(br#"{"files":{"download":""}}"#), Ok(Some(String::new())));
    assert_eq!(asset_url_of_body(br#"{"other":1}"#), Ok(None));
    assert!(asset_url_of_body(b"{").is_err());
}

#[test]
fn asset_url_keeps_escapes_and_unicode() {
    assert_eq!(
        asset_url_of_body(r#"{"files":{"download":"https:\/\/h\/é.vsix"}}"#.as_bytes()),
        Ok(Some("https://h/é.vsix".to_string()))
    );
}

#[test]
fn nested_text_follows_two_keys() {
    let document: serde_json::Value =
        serde_json::from_str(r#"{"a":{"b":"deep","c":3},"b":"shallow","d":{"a":{"b":"deeper"}}}"#)
            .unwrap();
    assert_eq!(nested_text(&document, "a", "b"), Some("deep".to_string()));
    assert_eq!(nested_text(&document, "a", "c"), None);
    assert_eq!(nested_text(&document, "a", "missing"), None);
    assert_eq!(nested_text(&document, "b", "a"), None);
    assert_eq!(nested_text(&document, "missing", "b"), None);
    assert_eq!(nested_text(&document, "d", "a"), None);
}

#[test]
fn direct_asset_url_of_a_document() {
    let document: serde_json::Value =
        serde_json::from_str(r#"{"files":{"download":"X"},"downloads":{"universal":"Y"}}"#)
            .unwrap();
    assert_eq!(direct_asset_url(&document), Some("X".to_string()));
    let document: serde_json::Value = serde_json::from_str(r#"{"files":{}}"#).unwrap();
    assert_eq!(direct_asset_url(&document), None);
}

#[test]
fn first_present_prefers_the_primary() {
    let a = Some("a".to_string());
    let b = Some("b".to_string());
    assert_eq!(first_present(a.clone(), b.clone()), a);
    assert_eq!(first_present(None, b.clone()), b);
    assert_eq!(first_present(a.clone(), None), a);
    assert_eq!(first_present(None, None), None);
}

#[test]
fn classify_by_asset_url() {
    let ext = declared("a.b", Some("r"));
    assert_eq!(classify(&ext, Some("U".to_string())), available("a.b", Some("r"), "U"));
    assert_eq!(classify(&ext, None), unavailable("a.b", Some("r")));
}

#[test]
fn snapshot_of_three_items_keeps_declaration_order() {
    let outcomes = vec![
        available("first.one", None, "u1"),
        unavailable("second.two", Some("r2")),
        available("third.three", Some("r3"), "u3"),
    ];
    let snapshot = ResolutionSnapshot::from_outcomes(outcomes);
    assert_eq!(snapshot.available.len(), 2);
    assert_eq!(snapshot.unavailable.len(), 1);
    assert_eq!(snapshot.available[0].identifier, "first.one");
    assert_eq!(snapshot.available[0].direct_url, "u1");
    assert_eq!(snapshot.available[1].identifier, "third.three");
    assert_eq!(snapshot.available[1].external_ref, Some("r3".to_string()));
    assert_eq!(snapshot.unavailable[0].identifier, "second.two");
    assert_eq!(snapshot.unavailable[0].external_ref, Some("r2".to_string()));
}

#[test]
fn snapshot_record_matches_from_outcomes() {
    let outcomes = vec![
        unavailable("a.a", None),
        unavailable("b.b", None),
        available("c.c", None, "u"),
        unavailable("d.d", None),
    ];
    let mut stepwise = ResolutionSnapshot::new();
    for outcome in outcomes.clone() {
        stepwise.record(outcome);
    }
    assert_eq!(stepwise, ResolutionSnapshot::from_outcomes(outcomes));
    assert_eq!(stepwise.available.len() + stepwise.unavailable.len(), 4);
    let order: Vec<&str> = stepwise.unavailable.iter().map(|u| u.identifier.as_str()).collect();
    assert_eq!(order, vec!["a.a", "b.b", "d.d"]);
}

#[test]
fn snapshot_of_nothing_is_empty() {
    let snapshot = ResolutionSnapshot::from_outcomes(Vec::new());
    assert!(snapshot.available.is_empty());
    assert!(snapshot.unavailable.is_empty());
    assert_eq!(snapshot, ResolutionSnapshot::new());
}

#[test]
fn resolving_a_declared_list_end_to_end() {
    let list = vec![declared("a.one", None), declared("b.two", Some("x")), declared("c.three", None)];
    let replies = vec![
        success(r#"{"files":{"download":"https://r/a-one.vsix"}}"#),
        LookupReply::Responded { status: 404, body: Vec::new() },
        success(r#"{"downloads":{"universal":"https://r/c-three.vsix"}}"#),
    ];
    let mut snapshot = ResolutionSnapshot::new();
    for (ext, reply) in list.iter().zip(replies.iter()) {
        snapshot.record(resolve(ext, reply).unwrap());
    }
    assert_eq!(snapshot.available.len(), 2);
    assert_eq!(snapshot.unavailable.len(), 1);
    assert_eq!(snapshot.available[0].identifier, "a.one");
    assert_eq!(snapshot.available[1].identifier, "c.three");
    assert_eq!(snapshot.available[1].direct_url, "https://r/c-three.vsix");
    assert_eq!(
        snapshot.unavailable[0],
        UnavailableExtension { identifier: "b.two".to_string(), external_ref: Some("x".to_string()) }
    );
}
