//! The documentation list: finding a topic, and the addresses and the document that are
//! built from a catalogue of topics. Nothing here reaches the network.
use vstd::prelude::*;
use crate::api::{endpoint, without_end_slashes};
use crate::exit::{error_stop, stop_with, Stop, StopView, USAGE};
use crate::json::{field, field_views, json_array, json_object, json_pretty, json_pretty_text, json_text, json_view, object, views, JsonView};
use crate::output::{docs_report, render_docs, DocRow};
use crate::text::same_text;

verus! {

/// Where the documentation stands.
pub open spec fn docs_base_of(app_url: Seq<char>) -> Seq<char> {
    without_end_slashes(app_url) + "/docs"@
}

/// Where the documentation stands, given the address of the dashboard. Slashes at its end
/// are not doubled.
pub fn docs_base(app_url: &str) -> (r: String)
    ensures
        r@ == docs_base_of(app_url@),
{
    endpoint(app_url, "/docs")
}

/// The address of a topic.
pub open spec fn topic_url_of(app_url: Seq<char>, slug: Seq<char>) -> Seq<char> {
    docs_base_of(app_url) + "/"@ + slug
}

/// The address of a topic.
pub fn topic_url(app_url: &str, slug: &str) -> (r: String)
    ensures
        r@ == topic_url_of(app_url@, slug@),
{
    let mut url = docs_base(app_url);
    url.append("/");
    url.append(slug);
    url
}

/// The place of the first topic with the given slug.
pub open spec fn topic_at(rows: Seq<DocRow>, slug: Seq<char>) -> Option<int>
    decreases rows.len(),
{
    if rows.len() == 0 {
        None
    } else {
        match topic_at(rows.drop_last(), slug) {
            Some(i) => Some(i),
            None => if rows.last().slug@ == slug {
                Some(rows.len() - 1)
            } else {
                None
            },
        }
    }
}

/// Finds the first topic with the given slug.
pub fn find_topic(rows: &[DocRow], slug: &str) -> (r: Option<usize>)
    ensures
        match r {
            Some(i) => topic_at(rows@, slug@) == Some(i as int),
            None => topic_at(rows@, slug@) is None,
        },
{
    let mut found: Option<usize> = None;
    let mut i: usize = 0;
    while i < rows.len()
        invariant
            i <= rows@.len(),
            match found {
                Some(k) => topic_at(rows@.take(i as int), slug@) == Some(k as int),
                None => topic_at(rows@.take(i as int), slug@) is None,
            },
        decreases rows@.len() - i,
    {
        assert(rows@.take(i + 1).drop_last() =~= rows@.take(i as int));
        if found.is_none() && same_text(rows[i].slug, slug) {
            found = Some(i);
        }
        i = i + 1;
    }
    assert(rows@.take(i as int) =~= rows@);
    found
}

/// A topic as a document.
pub open spec fn topic_doc(app_url: Seq<char>, r: DocRow) -> JsonView {
    object(
        seq![
            ("slug"@, JsonView::Text(r.slug@)),
            ("blurb"@, JsonView::Text(r.blurb@)),
            ("category"@, JsonView::Text(r.category@)),
            ("url"@, JsonView::Text(topic_url_of(app_url, r.slug@))),
        ],
    )
}

pub open spec fn topic_docs(app_url: Seq<char>, rows: Seq<DocRow>) -> Seq<JsonView> {
    rows.map_values(|r: DocRow| topic_doc(app_url, r))
}

/// The documentation list as a document: every topic, in order.
pub open spec fn docs_doc(app_url: Seq<char>, rows: Seq<DocRow>) -> JsonView {
    object(seq![("topics"@, JsonView::Array(topic_docs(app_url, rows)))])
}

fn topic_value(app_url: &str, r: &DocRow) -> (v: serde_json::Value)
    ensures
        json_view(v) == topic_doc(app_url@, *r),
{
    let url = topic_url(app_url, r.slug);
    let fields = vec![
        field("slug", json_text(r.slug)),
        field("blurb", json_text(r.blurb)),
        field("category", json_text(r.category)),
        field("url", json_text(url.as_str())),
    ];
    assert(field_views(fields@) =~= seq![
        ("slug"@, JsonView::Text(r.slug@)),
        ("blurb"@, JsonView::Text(r.blurb@)),
        ("category"@, JsonView::Text(r.category@)),
        ("url"@, JsonView::Text(url@)),
    ]);
    json_object(fields)
}

/// The documentation list as a document.
pub fn docs_document(app_url: &str, rows: &[DocRow]) -> (r: serde_json::Value)
    ensures
        json_view(r) == docs_doc(app_url@, rows@),
{
    let mut topics: Vec<serde_json::Value> = Vec::new();
    let mut i: usize = 0;
    while i < rows.len()
        invariant
            i <= rows@.len(),
            views(topics@) == topic_docs(app_url@, rows@.take(i as int)),
        decreases rows@.len() - i,
    {
        let ghost before = topics@;
        topics.push(topic_value(app_url, &rows[i]));
        i = i + 1;
        proof {
            assert(views(topics@) =~= views(before).push(json_view(topics@.last())));
            assert(topic_docs(app_url@, rows@.take(i as int)) =~= topic_docs(
                app_url@,
                rows@.take(i - 1),
            ).push(topic_doc(app_url@, rows@[i - 1])));
        }
    }
    assert(rows@.take(i as int) =~= rows@);
    let fields = vec![field("topics", json_array(topics))];
    assert(field_views(fields@) =~= seq![
        ("topics"@, JsonView::Array(topic_docs(app_url@, rows@))),
    ]);
    json_object(fields)
}

/// What the command does.
#[derive(Debug)]
pub enum DocsStep {
    /// Print a text.
    Show(String),
    /// Open an address in the browser.
    Open(String),
    Stop(Stop),
}

pub enum DocsStepView {
    Show(Seq<char>),
    Open(Seq<char>),
    Stop(StopView),
}

impl View for DocsStep {
    type V = DocsStepView;

    open spec fn view(&self) -> DocsStepView {
        match self {
            DocsStep::Show(s) => DocsStepView::Show(s@),
            DocsStep::Open(s) => DocsStepView::Open(s@),
            DocsStep::Stop(s) => DocsStepView::Stop(s@),
        }
    }
}

/// What the command does: a topic that is named is opened, or is an error of usage where
/// the catalogue lacks it; without one the list is shown, as a document where that is asked
/// for.
pub open spec fn docs_step(
    app_url: Seq<char>,
    rows: Seq<DocRow>,
    topic: Option<Seq<char>>,
    json: bool,
    linkify: bool,
) -> DocsStepView {
    match topic {
        Some(slug) => if topic_at(rows, slug) is Some {
            DocsStepView::Open(topic_url_of(app_url, slug))
        } else {
            DocsStepView::Stop(
                error_stop(
                    USAGE,
                    "unknown topic '"@ + slug + "'. Run `vericto docs` to list them."@,
                ),
            )
        },
        None => if json {
            DocsStepView::Show(json_pretty_text(docs_doc(app_url, rows)) + "\n"@)
        } else {
            DocsStepView::Show(docs_report(docs_base_of(app_url), rows, linkify))
        },
    }
}

/// Decides what the command does.
pub fn run_docs(
    app_url: &str,
    rows: &[DocRow],
    topic: Option<&str>,
    json: bool,
    linkify: bool,
) -> (r: DocsStep)
    ensures
        r@ == docs_step(app_url@, rows@, crate::api::opt_str_view(topic), json, linkify),
{
    match topic {
        Some(slug) => {
            if find_topic(rows, slug).is_some() {
                return DocsStep::Open(topic_url(app_url, slug));
            }
            let mut message = "unknown topic '".to_owned();
            message.append(slug);
            message.append("'. Run `vericto docs` to list them.");
            DocsStep::Stop(stop_with(USAGE, message.as_str()))
        },
        None => {
            if json {
                let mut text = json_pretty(&docs_document(app_url, rows));
                text.append("\n");
                return DocsStep::Show(text);
            }
            DocsStep::Show(render_docs(docs_base(app_url).as_str(), rows, linkify))
        },
    }
}

/// A slash at the end of the dashboard's address changes no address of the documentation.
pub proof fn law_end_slashes_do_not_double(app_url: Seq<char>, slug: Seq<char>)
    ensures
        topic_url_of(app_url.push('/'), slug) == topic_url_of(app_url, slug),
{
    assert(app_url.push('/').drop_last() =~= app_url);
}

/// Every topic of the catalogue can be opened, and nothing else can.
pub proof fn law_listed_topics_open(rows: Seq<DocRow>, slug: Seq<char>)
    ensures
        topic_at(rows, slug) is Some <==> exists|i: int|
            0 <= i < rows.len() && (#[trigger] rows[i]).slug@ == slug,
        topic_at(rows, slug) matches Some(i) ==> 0 <= i < rows.len() && rows[i].slug@ == slug,
    decreases rows.len(),
{
    if rows.len() > 0 {
        let rest = rows.drop_last();
        law_listed_topics_open(rest, slug);
        if topic_at(rest, slug) is Some {
            let i = topic_at(rest, slug)->Some_0;
            assert(rows[i] == rest[i]);
        } else if rows.last().slug@ == slug {
            assert(rows[rows.len() - 1].slug@ == slug);
        } else if exists|i: int| 0 <= i < rows.len() && (#[trigger] rows[i]).slug@ == slug {
            let i = choose|i: int| 0 <= i < rows.len() && (#[trigger] rows[i]).slug@ == slug;
            assert(rest[i].slug@ == slug);
        }
    }
}

} // verus!
