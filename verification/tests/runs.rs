use vsix_sync::fallback::{synthesize, InvalidIdentifier};
use vsix_sync::fetch::{FetchError, Transfer};
use vsix_sync::ledger::{DownloadRecord, Ledger};
use vsix_sync::lookup::{DeclaredExtension, UnavailableExtension};
use vsix_sync::plan::{attempt_record, plan_download, plan_fallback};
use vsix_sync::run::{ledger_mark, DownloadRun, ItemOutcome};
use vsix_sync::sync::{confirms, next_step, pending_lookups, white_space, NextStep};

fn declared(identifier: &str) -> DeclaredExtension {
    DeclaredExtension { identifier: identifier.to_string(), external_ref: None }
}

fn missing(identifier: &str) -> UnavailableExtension {
    UnavailableExtension { identifier: identifier.to_string(), external_ref: None }
}

#[test]
fn pending_lookups_skip_empty_identifiers() {
    let list = vec![
        declared(""),
        declared("a.one"),
        declared(""),
        DeclaredExtension { identifier: "b.two".to_string(), external_ref: Some("r".to_string()) },
        declared("odd"),
        declared(""),
    ];
    let pending = pending_lookups(list);
    assert_eq!(
        pending,
        vec![
            declared("a.one"),
            DeclaredExtension {
                identifier: "b.two".to_string(),
                external_ref: Some("r".to_string())
            },
            declared("odd"),
        ]
    );
    assert!(pending_lookups(Vec::new()).is_empty());
    assert!(pending_lookups(vec![declared("")]).is_empty());
}

#[test]
fn next_step_after_the_lookups() {
    assert_eq!(next_step(0, false), NextStep::Finish);
    assert_eq!(next_step(0, true), NextStep::Finish);
    assert_eq!(next_step(1, true), NextStep::Download);
    assert_eq!(next_step(1, false), NextStep::Confirm);
    assert_eq!(next_step(usize::MAX, false), NextStep::Confirm);
}

#[test]
fn confirms_a_single_y() {
    for answer in ["y", "Y", "y\n", "Y\r\n", "  y  ", "\ty", "\u{3000}Y\u{a0}", "\u{2003}y\u{85}"] {
        assert!(confirms(answer), "{:?}", answer);
    }
}

#[test]
fn confirms_nothing_else() {
    for answer in
        ["", "\n", "n", "yes", "yy", "y y", "Yy", "ý", "ｙ", "y.", "1", "\u{200b}y", "y\u{feff}"]
    {
        assert!(!confirms(answer), "{:?}", answer);
    }
}

#[test]
fn white_space_is_the_unicode_property() {
    let mut code: u32 = 0;
    while code <= 0x10FFFF {
        if let Some(c) = char::from_u32(code) {
            assert_eq!(white_space(c), c.is_whitespace(), "U+{:04X}", code);
        }
        code += 1;
    }
}

#[test]
fn confirms_agrees_with_trimming_and_lowercasing() {
    let mut code: u32 = 0;
    while code <= 0x10FFFF {
        if let Some(c) = char::from_u32(code) {
            let alone = c.to_string();
            assert_eq!(confirms(&alone), alone.trim().to_lowercase() == "y", "U+{:04X}", code);
            if code < 0x3100 {
                let padded = format!(" {}y\n", c);
                assert_eq!(
                    confirms(&padded),
                    padded.trim().to_lowercase() == "y",
                    "U+{:04X}",
                    code
                );
            }
        }
        code += 1;
    }
}

#[test]
fn attempt_record_takes_every_field() {
    let info = synthesize("redhat.java", Some("1.0.0"), None).unwrap();
    let record = attempt_record(
        "redhat.java",
        info.clone(),
        Some("1.0.0"),
        "out/redhat-java.vsix".to_string(),
        "2024-03-03T03:03:03+00:00".to_string(),
    );
    assert_eq!(
        record,
        DownloadRecord {
            identifier: "redhat.java".to_string(),
            lookup_url: info.marketplace_url,
            resolved_asset_url: info.direct_download_url,
            destination_path: "out/redhat-java.vsix".to_string(),
            file_name: "redhat-java.vsix".to_string(),
            version: Some("1.0.0".to_string()),
            last_updated: "2024-03-03T03:03:03+00:00".to_string(),
            succeeded: false,
        }
    );
}

#[test]
fn plan_download_fills_the_record() {
    let record = plan_download("ms-python.python", None, None, "downloads").unwrap();
    assert_eq!(record.identifier, "ms-python.python");
    assert_eq!(
        record.lookup_url,
        "https://marketplace.visualstudio.com/items/ms-python.python"
    );
    assert_eq!(
        record.resolved_asset_url,
        "https://ms-python.gallery.vsassets.io/_apis/public/gallery/publisher/ms-python/extension/python/latest/assetbyname/Microsoft.VisualStudio.Services.VSIXPackage"
    );
    assert_eq!(record.file_name, "ms-python-python.vsix");
    assert_eq!(record.version, None);
    assert!(!record.succeeded);
    let joined = std::path::Path::new("downloads").join("ms-python-python.vsix");
    assert_eq!(record.destination_path, joined.to_string_lossy());
    assert!(chrono::DateTime::parse_from_rfc3339(&record.last_updated).is_ok());
}

#[test]
fn plan_download_takes_version_and_override() {
    let record = plan_download("a.b", Some("3.1.4"), Some("custom.bin"), "d").unwrap();
    assert_eq!(record.file_name, "custom.bin");
    assert_eq!(record.version, Some("3.1.4".to_string()));
    assert!(record.resolved_asset_url.contains("/extension/b/3.1.4/assetbyname/"));
    assert!(record.destination_path.ends_with("custom.bin"));
    assert!(record.destination_path.starts_with("d"));
}

#[test]
fn plan_download_rejects_a_malformed_identifier() {
    assert_eq!(
        plan_download("badid", None, None, "downloads"),
        Err(InvalidIdentifier { identifier: "badid".to_string() })
    );
    assert!(plan_download("a.b.c", None, None, "downloads").is_err());
}

#[test]
fn plan_fallback_uses_latest_and_the_default_name() {
    let record = plan_fallback(&missing("redhat.java"), "out").unwrap();
    assert_eq!(record.identifier, "redhat.java");
    assert_eq!(record.file_name, "redhat-java.vsix");
    assert_eq!(record.version, None);
    assert!(record.resolved_asset_url.contains("/extension/java/latest/assetbyname/"));
    assert!(!record.succeeded);
    assert_eq!(
        plan_fallback(&missing("nodot"), "out"),
        Err(InvalidIdentifier { identifier: "nodot".to_string() })
    );
}

#[test]
fn transfer_refuses_a_server_error_before_writing() {
    assert_eq!(Transfer::begin(500, Some(100)), Err(FetchError::ServerError { status: 500 }));
    assert_eq!(Transfer::begin(404, None), Err(FetchError::ServerError { status: 404 }));
    assert_eq!(Transfer::begin(301, None), Err(FetchError::ServerError { status: 301 }));
    assert_eq!(Transfer::begin(199, None), Err(FetchError::ServerError { status: 199 }));
}

#[test]
fn transfer_counts_the_bytes_written() {
    let mut transfer = Transfer::begin(200, Some(10)).unwrap();
    assert_eq!(transfer, Transfer { expected_total: Some(10), written: 0 });
    assert_eq!(transfer.advance(4), 4);
    assert_eq!(transfer.written, 4);
    assert_eq!(transfer.advance(0), 4);
    assert_eq!(transfer.advance(6), 10);
    assert_eq!(transfer.written, 10);
    assert_eq!(transfer.expected_total, Some(10));
    assert_eq!(transfer.finish(), 10);
}

#[test]
fn transfer_without_declared_length() {
    let mut transfer = Transfer::begin(206, None).unwrap();
    assert_eq!(transfer.expected_total, None);
    transfer.advance(1024);
    transfer.advance(1);
    assert_eq!(transfer.finish(), 1025);
    assert_eq!(Transfer::begin(299, None).unwrap().finish(), 0);
}

#[test]
fn ledger_mark_follows_the_outcome() {
    assert_eq!(ledger_mark(ItemOutcome::Fetched), Some(true));
    assert_eq!(ledger_mark(ItemOutcome::FetchFailed), Some(false));
    assert_eq!(ledger_mark(ItemOutcome::NotStarted), None);
}

#[test]
fn a_failed_item_is_counted_and_the_run_goes_on() {
    let mut run = DownloadRun::new(vec![missing("a.one"), missing("b.two"), missing("c.three")]);
    assert_eq!(run.current(), Some(&missing("a.one")));
    run.settle(ItemOutcome::Fetched);
    assert_eq!(run.current(), Some(&missing("b.two")));
    run.settle(ItemOutcome::FetchFailed);
    assert_eq!(run.succeeded(), 1);
    assert_eq!(run.failed(), 1);
    assert_eq!(run.current(), Some(&missing("c.three")));
    run.settle(ItemOutcome::Fetched);
    assert_eq!(run.current(), None);
    assert_eq!(run.succeeded(), 2);
    assert_eq!(run.failed(), 1);
}

#[test]
fn an_item_that_never_started_counts_as_a_failure() {
    let mut run = DownloadRun::new(vec![missing("badid"), missing("a.one")]);
    run.settle(ItemOutcome::NotStarted);
    assert_eq!((run.succeeded(), run.failed()), (0, 1));
    assert_eq!(run.current(), Some(&missing("a.one")));
}

#[test]
fn a_finished_run_stays_as_it_is() {
    let mut run = DownloadRun::new(Vec::new());
    assert_eq!(run.current(), None);
    run.settle(ItemOutcome::Fetched);
    assert_eq!((run.succeeded(), run.failed()), (0, 0));
    let mut run = DownloadRun::new(vec![missing("a.one")]);
    run.settle(ItemOutcome::FetchFailed);
    run.settle(ItemOutcome::Fetched);
    assert_eq!((run.succeeded(), run.failed()), (0, 1));
}

#[test]
fn server_error_during_a_run_is_one_failure() {
    let queue = vec![missing("a.one"), missing("b.two")];
    let statuses = [500u16, 200u16];
    let mut ledger = Ledger::new();
    let mut run = DownloadRun::new(queue);
    let mut step = 0;
    while let Some(extension) = run.current() {
        let record = plan_fallback(extension, "downloads").unwrap();
        let identifier = record.identifier.clone();
        ledger.upsert(record);
        let outcome = match Transfer::begin(statuses[step], None) {
            Ok(transfer) => {
                assert_eq!(transfer.finish(), 0);
                ItemOutcome::Fetched
            }
            Err(error) => {
                assert_eq!(error, FetchError::ServerError { status: 500 });
                ItemOutcome::FetchFailed
            }
        };
        if let Some(mark) = ledger_mark(outcome) {
            assert!(ledger.update_status(&identifier, mark));
        }
        run.settle(outcome);
        step += 1;
    }
    assert_eq!(step, 2);
    assert_eq!((run.succeeded(), run.failed()), (1, 1));
    assert!(!ledger.get("a.one").unwrap().succeeded);
    assert!(ledger.get("b.two").unwrap().succeeded);
}
