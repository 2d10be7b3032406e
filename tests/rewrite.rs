use force_relative_links::destination::rewrite_destination;
use force_relative_links::markup::{handle_link, rewrite, rewrite_events, InlineEvent, LinkTarget};
use force_relative_links::prefix::resolve_prefix;
use force_relative_links::preprocessor::{handle_item, Document, ForceRelativeLinks, NAME};
use force_relative_links::version::{check_version, VersionError};
use pulldown_cmark::{CowStr, Event, LinkType};

#[test]
fn prefix_of_top_level_chapter_is_empty() {
    assert_eq!(resolve_prefix("chapter_1.md"), "");
    assert_eq!(resolve_prefix(""), "");
}

#[test]
fn prefix_climbs_one_level_per_separator() {
    assert_eq!(resolve_prefix("chapter_2/chapter_2.1.md"), "../");
    assert_eq!(resolve_prefix("a/b/c.md"), "../../");
    assert_eq!(resolve_prefix("a/b/c/d/e.md"), "../../../../");
}

#[test]
fn root_relative_destination_gets_prefix() {
    assert_eq!(rewrite_destination("/chapter_1.md", "../"), "../chapter_1.md");
    assert_eq!(rewrite_destination("/images/img.png", "../../"), "../../images/img.png");
    assert_eq!(rewrite_destination("/chapter_2/y.md", ""), "chapter_2/y.md");
    assert_eq!(rewrite_destination("/", "../"), "../");
}

#[test]
fn fragment_and_query_are_kept() {
    assert_eq!(rewrite_destination("/a.md#sec", "../"), "../a.md#sec");
    assert_eq!(rewrite_destination("/a.md?x=1", ""), "a.md?x=1");
}

#[test]
fn only_the_first_separator_is_stripped() {
    assert_eq!(rewrite_destination("//x", "../"), "..//x");
    assert_eq!(rewrite_destination("//x", ""), "/x");
}

#[test]
fn other_destinations_are_untouched() {
    for d in ["http://example.com/a", "#id", "../x.md", "x.md", "", "ü/é"] {
        assert_eq!(rewrite_destination(d, "../../"), d);
    }
}

#[test]
fn rewrite_top_level_chapter() {
    let out = rewrite("[x](/chapter_2/y.md)", &resolve_prefix("chapter_1.md"));
    assert_eq!(out, "[x](chapter_2/y.md)");
}

#[test]
fn rewrite_nested_chapter_link_and_image() {
    let prefix = resolve_prefix("chapter_2/chapter_2.1.md");
    let out = rewrite("[x](/chapter_1.md)\n\n![y](/images/img.png)\n", &prefix);
    assert_eq!(out, "[x](../chapter_1.md)\n\n![y](../images/img.png)");
}

#[test]
fn rewrite_leaves_relative_links() {
    let content = "# Title\n\n[a](b.md) and [c](https://example.com) and [d](#frag)";
    assert_eq!(rewrite(content, "../../"), content);
}

#[test]
fn rewrite_twice_is_rewrite_once() {
    let content = "[a](/b.md)\n\n![i](/img/p.png)\n\n[c](d.md)";
    let once = rewrite(content, "../");
    assert_eq!(once, "[a](../b.md)\n\n![i](../img/p.png)\n\n[c](d.md)");
    assert_eq!(rewrite(&once, "../"), once);
}

fn link(url: &str) -> InlineEvent<'static> {
    InlineEvent::Link(LinkTarget {
        link_type: LinkType::Inline,
        url: url.to_string(),
        title: CowStr::from("t".to_string()),
        id: CowStr::from(String::new()),
    })
}

fn url_of(e: &InlineEvent) -> Option<String> {
    match e {
        InlineEvent::Link(t) | InlineEvent::Image(t) => Some(t.url.clone()),
        InlineEvent::Other(_) => None,
    }
}

#[test]
fn handle_link_rewrites_link_start() {
    let out = handle_link(link("/a/b.md"), "../");
    assert_eq!(url_of(&out), Some("../a/b.md".to_string()));
    match out {
        InlineEvent::Link(t) => {
            assert_eq!(t.link_type, LinkType::Inline);
            assert_eq!(&*t.title, "t");
        },
        _ => panic!("expected a link"),
    }
}

#[test]
fn handle_link_keeps_other_events() {
    let out = handle_link(InlineEvent::Other(Event::Text(CowStr::from("/x".to_string()))), "../");
    match out {
        InlineEvent::Other(e) => assert_eq!(e, Event::Text(CowStr::from("/x".to_string()))),
        _ => panic!("expected the same event"),
    }
}

#[test]
fn rewrite_events_keeps_order() {
    let events = vec![link("/a.md"), InlineEvent::Other(Event::SoftBreak), link("b.md")];
    let out = rewrite_events(events, "../");
    assert_eq!(out.len(), 3);
    assert_eq!(url_of(&out[0]), Some("../a.md".to_string()));
    assert_eq!(url_of(&out[1]), None);
    assert_eq!(url_of(&out[2]), Some("b.md".to_string()));
}

#[test]
fn document_without_path_is_untouched() {
    let content = "[x](/a.md)\n\n\n*  odd   spacing*\n".to_string();
    let mut doc = Document { path: None, content: content.clone() };
    handle_item(&mut doc);
    assert_eq!(doc.content, content);
    assert_eq!(doc.path, None);
}

#[test]
fn document_with_path_is_rewritten() {
    let mut doc = Document {
        path: Some("chapter_2/chapter_2.1.md".to_string()),
        content: "[x](/chapter_1.md)\n".to_string(),
    };
    handle_item(&mut doc);
    assert_eq!(doc.content, "[x](../chapter_1.md)");
    assert_eq!(doc.path, Some("chapter_2/chapter_2.1.md".to_string()));
}

#[test]
fn run_rewrites_every_document() {
    let mut docs = vec![
        Document { path: Some("chapter_1.md".to_string()), content: "[x](/chapter_2/y.md)".to_string() },
        Document { path: None, content: "[x](/z.md)".to_string() },
        Document { path: Some("a/b/c.md".to_string()), content: "![i](/p.png)".to_string() },
    ];
    ForceRelativeLinks.run(&mut docs);
    assert_eq!(docs[0].content, "[x](chapter_2/y.md)");
    assert_eq!(docs[1].content, "[x](/z.md)");
    assert_eq!(docs[2].content, "![i](../../p.png)");
}

#[test]
fn name_and_renderers() {
    assert_eq!(ForceRelativeLinks.name(), "mdbook-force-relative-links");
    assert_eq!(NAME, "mdbook-force-relative-links");
    assert!(ForceRelativeLinks.supports_renderer("html"));
    assert!(ForceRelativeLinks.supports_renderer("not-a-renderer"));
}

#[test]
fn version_checks() {
    assert_eq!(check_version("0.4.21", "0.4.21"), Ok(true));
    assert_eq!(check_version("0.4.30", "0.4.21"), Ok(true));
    assert_eq!(check_version("0.5.0", "0.4.21"), Ok(false));
    assert_eq!(check_version("0.4.21", mdbook::MDBOOK_VERSION), Ok(false));
    assert_eq!(check_version("", "0.4.21"), Err(VersionError::BookVersion));
    assert_eq!(check_version("not a version", "0.4.21"), Err(VersionError::BookVersion));
    assert_eq!(check_version("0.4.21", "@1.0.0"), Err(VersionError::Requirement));
}

#[test]
fn nested_chapter_two_levels_deep() {
    let mut doc = Document { path: Some("a/b/c.md".to_string()), content: "[x](/x/y.md)".to_string() };
    handle_item(&mut doc);
    assert_eq!(doc.content, "[x](../../x/y.md)");
}

#[test]
fn content_without_links_is_reserialized() {
    let mut doc = Document { path: Some("chapter_2.md".to_string()), content: "# Chapter 2\n".to_string() };
    handle_item(&mut doc);
    assert_eq!(doc.content, "# Chapter 2");
}

#[test]
fn same_path_and_content_give_same_result() {
    let mut a = vec![
        Document { path: Some("x.md".to_string()), content: "[q](/r.md)".to_string() },
        Document { path: Some("d/e.md".to_string()), content: "[x](/y.md)".to_string() },
    ];
    let mut b = vec![Document { path: Some("d/e.md".to_string()), content: "[x](/y.md)".to_string() }];
    ForceRelativeLinks.run(&mut a);
    ForceRelativeLinks.run(&mut b);
    assert_eq!(a[1].content, b[0].content);
    assert_eq!(a[0].content, "[q](r.md)");
}
