use site_markdown::discovery::{
    fetch_outcome, sitemap_lines, Action, Discovery, DiscoverySource, Outcome, Stage,
};
use site_markdown::dom::{build_tree, Attr, HtmlEvent, HtmlNode, NodeKind};
use site_markdown::markdown::{html_to_markdown, markdown_of_events, markdown_of_nodes};
use site_markdown::paths::{host_of, output_path, slug_from_path, trim_slashes_of, url_to_slug};
use site_markdown::pipeline::{page_output, plan_page, PageAction, OUTPUT_ROOT};
use site_markdown::policy::{get_render_mode, HostRenderPolicy, RenderMode};
use site_markdown::simple::{simple_html_to_markdown, tag_markdown};

fn s(x: &str) -> String {
    x.to_string()
}

fn attr(ns: &str, name: &str, value: &str) -> Attr {
    Attr { ns: s(ns), name: s(name), value: s(value) }
}

fn element(name: &str, attrs: Vec<Attr>, children: Vec<HtmlNode>) -> HtmlNode {
    HtmlNode::Element { name: s(name), attrs, children }
}

fn text(t: &str) -> HtmlNode {
    HtmlNode::Text(s(t))
}

fn finish(a: Action) -> (Vec<String>, DiscoverySource) {
    match a {
        Action::Finish(v, src) => (v, src),
        _ => panic!("expected the end of discovery"),
    }
}

#[test]
fn classify_builtin_hosts() {
    assert_eq!(get_render_mode("www.heygoody.com"), RenderMode::SPA);
    assert_eq!(get_render_mode("www.example.com"), RenderMode::SSR);
    assert_eq!(get_render_mode("anything-else.test"), RenderMode::SSR);
    assert_eq!(get_render_mode(""), RenderMode::SSR);
}

#[test]
fn builtin_policy_matches_table() {
    let p = HostRenderPolicy::builtin();
    assert_eq!(p.classify("www.heygoody.com"), RenderMode::SPA);
    assert_eq!(p.classify("www.example.com"), RenderMode::SSR);
    assert_eq!(p.classify("anything-else.test"), RenderMode::SSR);
}

#[test]
fn custom_policy_first_entry_wins() {
    let p = HostRenderPolicy {
        entries: vec![(s("a.test"), RenderMode::SPA), (s("a.test"), RenderMode::SSR)],
    };
    assert_eq!(p.classify("a.test"), RenderMode::SPA);
    assert_eq!(p.classify("b.test"), RenderMode::SSR);
}

#[test]
fn slug_examples() {
    assert_eq!(url_to_slug("https://x.test/"), "index");
    assert_eq!(url_to_slug("https://x.test/a/b/"), "a-b");
    assert_eq!(url_to_slug("not a url"), "unknown");
}

#[test]
fn slug_discards_query_and_fragment() {
    assert_eq!(url_to_slug("https://x.test/Docs/Intro?x=1#top"), "docs-intro");
    assert_eq!(url_to_slug("https://x.test/A%20B_c"), "a-20b-c");
    assert_eq!(url_to_slug("https://x.test"), "index");
}

#[test]
fn slug_from_path_cases() {
    assert_eq!(slug_from_path(None), "unknown");
    assert_eq!(slug_from_path(Some("/")), "index");
    assert_eq!(slug_from_path(Some("/Hello World/")), "hello-world");
}

#[test]
fn trims_one_slash_each_side() {
    assert_eq!(trim_slashes_of("//a//"), "/a/");
    assert_eq!(trim_slashes_of("/a"), "a");
    assert_eq!(trim_slashes_of("/"), "");
    assert_eq!(trim_slashes_of(""), "");
}

#[test]
fn output_file_names() {
    assert_eq!(output_path(OUTPUT_ROOT, "https://x.test/"), "output/index.md");
    assert_eq!(output_path("out/", "https://x.test/a/b"), "out/a-b.md");
    assert_eq!(output_path("output/", "::"), "output/unknown.md");
}

#[test]
fn hosts_of_urls() {
    assert_eq!(host_of("https://www.example.com/a?b"), "www.example.com");
    assert_eq!(host_of("not a url"), "");
    assert_eq!(host_of("mailto:someone"), "");
}

#[test]
fn heading_then_paragraph() {
    let md = html_to_markdown("<h1>Title</h1><p>Body</p>");
    let lines: Vec<&str> = md.lines().collect();
    assert_eq!(lines[0], "# Title");
    assert!(lines.contains(&"Body"));
    assert_eq!(md, "# Title\nBody\n");
}

#[test]
fn unordered_list_items() {
    let md = html_to_markdown("<ul><li>One</li><li>Two</li></ul>");
    let lines: Vec<&str> = md.lines().collect();
    assert_eq!(lines, vec!["- One", "- Two"]);
}

#[test]
fn ordered_list_numbers_from_one() {
    let md = html_to_markdown("<ol><li> a </li><li>b</li><li>c</li></ol>");
    assert_eq!(md, "1. a\n2. b\n3. c\n");
}

#[test]
fn nested_lists_are_flattened() {
    let md = html_to_markdown("<ul><li>A<ul><li>B</li></ul></li></ul>");
    assert_eq!(md, "- AB\n- B\n");
}

#[test]
fn ordered_list_past_nine() {
    let mut html = String::from("<ol>");
    for i in 0..12 {
        html.push_str(&format!("<li>x{}</li>", i));
    }
    html.push_str("</ol>");
    let md = html_to_markdown(&html);
    let lines: Vec<&str> = md.lines().collect();
    assert_eq!(lines.len(), 12);
    assert_eq!(lines[9], "10. x9");
    assert_eq!(lines[11], "12. x11");
}

#[test]
fn links_and_images() {
    assert_eq!(html_to_markdown("<a href=\"/x\"> Go </a>"), "[Go](/x)\n");
    assert_eq!(html_to_markdown("<a>Go</a>"), "[Go](#)\n");
    assert_eq!(html_to_markdown("<img src=\"p.png\" alt=\"P\">"), "![P](p.png)\n");
    assert_eq!(html_to_markdown("<img>"), "![]()\n");
}

#[test]
fn inline_emphasis_has_no_line_break() {
    assert_eq!(html_to_markdown("<strong> bold </strong><em>it</em>"), "**bold**_it_");
}

#[test]
fn emphasis_in_paragraph_is_not_repeated() {
    assert_eq!(html_to_markdown("<p>a <strong>b</strong></p>"), "a b\n");
}

#[test]
fn blockquote_lines_are_quoted() {
    assert_eq!(html_to_markdown("<blockquote>one\n  two  \n</blockquote>"), "> one\n>   two\n");
}

#[test]
fn blockquote_text_is_trimmed_before_splitting() {
    assert_eq!(html_to_markdown("<blockquote>\na</blockquote>"), "> a\n");
    assert_eq!(html_to_markdown("<blockquote>x\r\ny\n\nz</blockquote>"), "> x\n> y\n> \n> z\n");
}

#[test]
fn namespaced_attributes_are_not_plain_ones() {
    assert_eq!(
        html_to_markdown("<svg><a xlink:href=\"x\">L</a></svg>"),
        "[L](#)\n"
    );
}

#[test]
fn slugs_use_slug_characters_only() {
    for u in ["https://x.test/--A__b--/C", "https://x.test/%C3%A9t%C3%A9", "https://x.test/a//b"] {
        let slug = url_to_slug(u);
        assert!(slug.chars().all(|c| c.is_ascii_lowercase() || c.is_ascii_digit() || c == '-'));
        assert!(!slug.starts_with('-') && !slug.ends_with('-') && !slug.contains("--"));
    }
    assert_eq!(url_to_slug("https://x.test/--A__b--/C"), "a-b-c");
}

#[test]
fn line_break_and_unknown_wrappers() {
    assert_eq!(html_to_markdown("<br>"), "\n");
    assert_eq!(
        html_to_markdown("<div><section><h2>Sub</h2></section>loose</div>"),
        "## Sub\n"
    );
}

#[test]
fn empty_document_gives_empty_markdown() {
    assert_eq!(html_to_markdown(""), "");
}

#[test]
fn markdown_of_built_nodes() {
    let tree = vec![element(
        "body",
        vec![],
        vec![
            element("h1", vec![], vec![text("  T ")]),
            HtmlNode::Other,
            text("ignored"),
            element(
                "a",
                vec![
                    attr("", "class", "c"),
                    attr("http://www.w3.org/1999/xlink", "href", "x"),
                    attr("", "href", "u"),
                    attr("", "href", "v"),
                ],
                vec![text("L")],
            ),
        ],
    )];
    assert_eq!(markdown_of_nodes(&tree), "# T\n[L](u)\n");
}

#[test]
fn tree_from_events() {
    let events = vec![
        HtmlEvent::Open(NodeKind::Element(s("p"), vec![])),
        HtmlEvent::Open(NodeKind::Text(s("hi"))),
        HtmlEvent::Close,
        HtmlEvent::Close,
        HtmlEvent::Open(NodeKind::Element(s("h2"), vec![])),
        HtmlEvent::Open(NodeKind::Text(s("x"))),
        HtmlEvent::Close,
        HtmlEvent::Close,
    ];
    let tree = build_tree(events);
    assert_eq!(tree.len(), 2);
    match &tree[0] {
        HtmlNode::Element { name, children, .. } => {
            assert_eq!(name, "p");
            assert_eq!(children.len(), 1);
        }
        _ => panic!("expected an element"),
    }
}

#[test]
fn markdown_from_events() {
    let events = vec![
        HtmlEvent::Open(NodeKind::Element(s("p"), vec![])),
        HtmlEvent::Open(NodeKind::Text(s(" hi "))),
        HtmlEvent::Close,
        HtmlEvent::Close,
        HtmlEvent::Close,
    ];
    assert_eq!(markdown_of_events(events), "hi\n");
}

#[test]
fn simple_converter_headings_and_paragraphs() {
    assert_eq!(simple_html_to_markdown("<h1>Hi</h1><p>x</p>"), "# Hi\n\nx\n\n");
    assert_eq!(simple_html_to_markdown("<H2>A</H2>"), "## A\n\n");
    assert_eq!(simple_html_to_markdown("a<br>b"), "a\nb");
    assert_eq!(simple_html_to_markdown(""), "");
}

#[test]
fn simple_converter_keeps_blank_text_until_content() {
    assert_eq!(simple_html_to_markdown("<p>  </p><p>y</p>"), "\n\n  y\n\n");
}

#[test]
fn robots_sitemap_lines() {
    let body = "User-agent: *\nSitemap: https://x.test/a.xml\n  sitemap:https://x.test/b.xml  \r\nDisallow: /\nSITEMAP: c";
    assert_eq!(
        sitemap_lines(body),
        vec![s("https://x.test/a.xml"), s("https://x.test/b.xml"), s("c")]
    );
    assert!(sitemap_lines("").is_empty());
    assert!(sitemap_lines("Disallow: /sitemap:").is_empty());
}

#[test]
fn discovery_from_robots() {
    let (mut d, first) = Discovery::start("https://x.test");
    match first {
        Action::Fetch(u) => assert_eq!(u, "https://x.test/robots.txt"),
        _ => panic!("expected a fetch"),
    }
    let body = s("sitemap: https://x.test/one.xml\nSitemap: https://x.test/two.xml\n");
    let (v, src) = finish(d.step(Outcome::Success(body)));
    assert_eq!(v, vec![s("https://x.test/one.xml"), s("https://x.test/two.xml")]);
    assert_eq!(src, DiscoverySource::RobotsTxt);
    assert_eq!(d.stage, Stage::Done);
}

#[test]
fn discovery_falls_back_to_sitemap() {
    let (mut d, _) = Discovery::start("https://x.test");
    match d.step(Outcome::Success(s("User-agent: *"))) {
        Action::Fetch(u) => assert_eq!(u, "https://x.test/sitemap.xml"),
        _ => panic!("expected a fetch"),
    }
    let (v, src) = finish(d.step(Outcome::Success(s("<urlset/>"))));
    assert_eq!(v, vec![s("https://x.test/sitemap.xml")]);
    assert_eq!(src, DiscoverySource::SitemapReference);
}

#[test]
fn discovery_falls_back_to_crawl() {
    let (mut d, _) = Discovery::start("https://x.test");
    assert!(matches!(d.step(Outcome::Failure), Action::Fetch(_)));
    match d.step(Outcome::Failure) {
        Action::Crawl(c) => {
            assert_eq!(c.domain, "https://x.test");
            assert_eq!(c.depth, 2);
            assert_eq!(c.delay, 1);
            assert!(!c.respect_robots_txt);
        }
        _ => panic!("expected a crawl"),
    }
    let links = vec![s("https://x.test/z"), s("https://x.test/a"), s("https://x.test/z")];
    let (v, src) = finish(d.step(Outcome::Links(links.clone())));
    assert_eq!(v, links);
    assert_eq!(src, DiscoverySource::NativeCrawl);
}

#[test]
fn fetch_status_decides_outcome() {
    assert!(matches!(fetch_outcome(200, s("b")), Outcome::Success(ref b) if b == "b"));
    assert!(matches!(fetch_outcome(299, s("")), Outcome::Success(_)));
    assert!(matches!(fetch_outcome(404, s("b")), Outcome::Failure));
    assert!(matches!(fetch_outcome(301, s("b")), Outcome::Failure));
}

#[test]
fn pages_of_spa_hosts_are_skipped() {
    let p = HostRenderPolicy::builtin();
    assert!(matches!(plan_page(&p, "https://www.heygoody.com/a"), PageAction::Skip));
    match plan_page(&p, "not a url") {
        PageAction::Fetch(u) => assert_eq!(u, "not a url"),
        PageAction::Skip => panic!("expected a fetch"),
    }
}

#[test]
fn failed_page_writes_nothing() {
    assert!(page_output(OUTPUT_ROOT, "https://x.test/a", 500, "<p>x</p>").is_none());
}

#[test]
fn robots_seed_end_to_end() {
    let (mut d, _) = Discovery::start("https://x.test");
    let (seeds, _) = finish(d.step(Outcome::Success(s("Sitemap: https://x.test/sitemap.xml"))));
    assert_eq!(seeds.len(), 1);
    let policy = HostRenderPolicy::builtin();
    let url = match plan_page(&policy, &seeds[0]) {
        PageAction::Fetch(u) => u,
        PageAction::Skip => panic!("expected a fetch"),
    };
    let out = page_output(OUTPUT_ROOT, &url, 200, "<h1>Map</h1>").unwrap();
    assert_eq!(out.path, "output/sitemap-xml.md");
    assert_eq!(out.markdown, "# Map\n");
}

#[test]
fn tag_markdown_table() {
    assert_eq!(tag_markdown("h1"), "# ");
    assert_eq!(tag_markdown("/h2"), "\n\n");
    assert_eq!(tag_markdown("br"), "\n");
    assert_eq!(tag_markdown("H1"), "");
    assert_eq!(tag_markdown("div"), "");
}
