use vericto::docs::{docs_base, docs_document, find_topic, run_docs, topic_url, DocsStep};
use vericto::exit::Line;
use vericto::output::DocRow;

const ROWS: [DocRow<'static>; 3] = [
    DocRow {
        slug: "quickstart",
        blurb: "First steps",
        category: "Getting started",
    },
    DocRow {
        slug: "enforcement",
        blurb: "What blocks",
        category: "Security & privacy",
    },
    DocRow {
        slug: "api-keys",
        blurb: "Keys",
        category: "Workspace",
    },
];

#[test]
fn docs_json_lists_every_topic() {
    let v = docs_document("https://vericto.com", &ROWS);
    let topics = v["topics"].as_array().unwrap();
    assert_eq!(topics.len(), ROWS.len());
    assert!(topics.iter().any(|t| t["slug"] == "api-keys"));
    assert!(topics.iter().all(|t| t["url"]
        .as_str()
        .unwrap()
        .starts_with("https://vericto.com/docs/")));
    assert!(topics
        .iter()
        .all(|t| t["category"].as_str().is_some_and(|c| !c.is_empty())));
    match run_docs("https://vericto.com", &ROWS, None, true, false) {
        DocsStep::Show(text) => {
            let shown: serde_json::Value = serde_json::from_str(&text).unwrap();
            assert_eq!(shown, v);
        }
        other => panic!("expected a document, got {other:?}"),
    }
}

#[test]
fn docs_app_url_override_changes_base() {
    let v = docs_document("https://staging.example.test/", &ROWS);
    assert!(v["topics"][0]["url"]
        .as_str()
        .unwrap()
        .starts_with("https://staging.example.test/docs/"));
    assert_eq!(docs_base("https://a//"), "https://a/docs");
    assert_eq!(topic_url("https://a/", "x"), "https://a/docs/x");
}

#[test]
fn docs_unknown_topic_exits_2() {
    match run_docs("https://vericto.com", &ROWS, Some("does-not-exist"), false, true) {
        DocsStep::Stop(stop) => {
            assert_eq!(stop.code, 2);
            assert!(matches!(&stop.line, Line::Stderr(m) if m.contains("does-not-exist")));
        }
        other => panic!("expected an end, got {other:?}"),
    }
}

#[test]
fn known_topics_are_opened_and_the_list_is_grouped() {
    assert_eq!(find_topic(&ROWS, "enforcement"), Some(1));
    assert_eq!(find_topic(&ROWS, "Enforcement"), None);
    match run_docs("https://vericto.com", &ROWS, Some("enforcement"), false, true) {
        DocsStep::Open(url) => assert_eq!(url, "https://vericto.com/docs/enforcement"),
        other => panic!("expected an address, got {other:?}"),
    }
    match run_docs("https://vericto.com/", &ROWS, None, false, false) {
        DocsStep::Show(text) => {
            assert!(text.contains("enforcement"), "{text}");
            assert!(text.contains("Getting started"), "{text}");
            assert!(text.contains("Security & privacy"), "{text}");
            assert!(text.contains("https://vericto.com/docs"), "{text}");
            assert!(text.contains("vericto docs <topic>"), "{text}");
        }
        other => panic!("expected a list, got {other:?}"),
    }
}
