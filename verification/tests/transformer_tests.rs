use rendering::anchors::find_anchor;
use rendering::context::RenderContext;
use rendering::engine::{build_anchor_args, build_shortcode_args, finish, fragment_of, render_events, should_highlight, shortcode_template_path, splice_rendered, RenderState};
use rendering::events::Rendered;
use rendering::events::{InsertAnchor, RenderError, StructuralEvent};
use rendering::links::resolve_internal_link;
use rendering::shortcode::parse_shortcode;

fn chars(s: &str) -> Vec<char> {
    s.chars().collect()
}

fn plain_context(insert_anchor: InsertAnchor) -> RenderContext {
    let mut tera = tera::Tera::default();
    tera.add_raw_template("shortcodes/quote.html", "b:{{ body }}|a:{{ author }}")
        .unwrap();
    tera.add_raw_template("shortcodes/youtube.html", "<yt {{ id }}>").unwrap();
    tera.add_raw_template("anchor-link.html", "<a href=\"#{{ id }}\">anchor</a>")
        .unwrap();
    RenderContext::new(
        tera,
        false,
        String::from("base16-ocean.dark"),
        String::from("https://site.example/page/"),
        vec![(String::from("other.md"), String::from("/other/"))],
        insert_anchor,
    )
}

#[test]
fn anchor_free_name_kept() {
    let anchors: Vec<String> = Vec::new();
    let r = find_anchor(&anchors, &String::from("example"));
    assert_eq!(r, "example");
}

#[test]
fn anchor_collision_gets_suffix_one() {
    let anchors = vec![String::from("example")];
    let r = find_anchor(&anchors, &String::from("example"));
    assert_eq!(r, "example-1");
}

#[test]
fn anchor_collision_picks_smallest_unused_suffix() {
    let anchors = vec![
        String::from("example"),
        String::from("example-1"),
        String::from("example-2"),
    ];
    let r = find_anchor(&anchors, &String::from("example"));
    assert_eq!(r, "example-3");
    let anchors2 = vec![String::from("example"), String::from("example-2")];
    let r2 = find_anchor(&anchors2, &String::from("example"));
    assert_eq!(r2, "example-1");
}

#[test]
fn shortcode_inline_parses_name_and_args() {
    let r = parse_shortcode(&chars("{{ youtube(id=\"w7Ft2ymGmfc\") }}"));
    let (name, args) = r.unwrap();
    assert_eq!(name, "youtube");
    assert_eq!(args, vec![(String::from("id"), String::from("w7Ft2ymGmfc"))]);
}

#[test]
fn shortcode_block_parses_several_args() {
    let r = parse_shortcode(&chars("{% quote(author=\"bob\", year=2004) %}"));
    let (name, args) = r.unwrap();
    assert_eq!(name, "quote");
    assert_eq!(
        args,
        vec![
            (String::from("author"), String::from("bob")),
            (String::from("year"), String::from("2004")),
        ]
    );
}

#[test]
fn shortcode_rejects_malformed_texts() {
    assert!(parse_shortcode(&chars("{{youtube(id=\"a\") }}")).is_none());
    assert!(parse_shortcode(&chars("{{ youtube }}")).is_none());
    assert!(parse_shortcode(&chars("{{ youtube() }}")).is_none());
    assert!(parse_shortcode(&chars("{{ youtube(id=\"a\")}}")).is_none());
    assert!(parse_shortcode(&chars("hello")).is_none());
}

#[test]
fn resolve_finds_mapped_path() {
    let table = vec![(String::from("pages/about.md"), String::from("https://vincent.is/about"))];
    let r = resolve_internal_link(&chars("./pages/about.md"), &table);
    assert_eq!(r.unwrap(), "https://vincent.is/about");
}

#[test]
fn resolve_misses_unmapped_path() {
    let table = vec![(String::from("pages/about.md"), String::from("https://vincent.is/about"))];
    assert!(resolve_internal_link(&chars("./missing.md"), &table).is_none());
}

#[test]
fn heuristic_needs_flag_and_fence() {
    assert!(!should_highlight("# title\nplain prose", true));
    assert!(!should_highlight("```\ncode\n```", false));
    assert!(should_highlight("```\ncode\n```", true));
    assert!(should_highlight("prose with ``` in it", true));
}

#[test]
fn no_fence_means_plain_code_tags() {
    // the up-front heuristic is off, so a code block renders with plain tags
    // and the highlighter is never consulted
    let ctx = plain_context(InsertAnchor::NoAnchor);
    let mut state = RenderState::new(should_highlight("no marker here", true));
    let events = vec![
        StructuralEvent::CodeBlockStart(String::from("rust")),
        StructuralEvent::Text(String::from("let x = 1;")),
        StructuralEvent::CodeBlockEnd,
    ];
    let outs = render_events(&events, &mut state, &ctx);
    assert!(matches!(&outs[0], Rendered::Html(h) if h == "<pre><code>"));
    assert!(matches!(&outs[1], Rendered::Keep));
    assert!(matches!(&outs[2], Rendered::Html(h) if h == "</code></pre>\n"));
}

#[test]
fn block_shortcode_round_trips_through_engine() {
    let ctx = plain_context(InsertAnchor::NoAnchor);
    let mut state = RenderState::new(false);
    let events = vec![
        StructuralEvent::Text(String::from("{% quote(author=\"bob\") %}")),
        StructuralEvent::SoftBreak,
        StructuralEvent::Text(String::from("wise words")),
        StructuralEvent::Text(String::from("{% end %}")),
        StructuralEvent::ParagraphEnd,
    ];
    let outs = render_events(&events, &mut state, &ctx);
    assert!(matches!(&outs[0], Rendered::Html(h) if h.is_empty()));
    assert!(matches!(&outs[1], Rendered::Html(h) if h.is_empty()));
    assert!(matches!(&outs[2], Rendered::Html(h) if h.is_empty()));
    assert!(matches!(&outs[3], Rendered::Html(h) if h == "</p>b:wise words|a:bob"));
    assert!(matches!(&outs[4], Rendered::Html(h) if h.is_empty()));
    let r = finish(String::from("<p></p>"), state);
    let (html, toc) = r.unwrap();
    assert_eq!(html, "");
    assert!(toc.is_empty());
}

#[test]
fn inline_shortcode_renders_and_suppresses_paragraph_end() {
    let ctx = plain_context(InsertAnchor::NoAnchor);
    let mut state = RenderState::new(false);
    let events = vec![
        StructuralEvent::Text(String::from("{{ youtube(id=\"abc\") }}")),
        StructuralEvent::ParagraphEnd,
    ];
    let outs = render_events(&events, &mut state, &ctx);
    assert!(matches!(&outs[0], Rendered::Html(h) if h == "</p><yt abc>"));
    assert!(matches!(&outs[1], Rendered::Html(h) if h.is_empty()));
}

#[test]
fn shortcodes_inert_inside_code_spans() {
    let ctx = plain_context(InsertAnchor::NoAnchor);
    let mut state = RenderState::new(false);
    let events = vec![
        StructuralEvent::InlineCodeStart,
        StructuralEvent::Text(String::from("{{ youtube(id=\"abc\") }}")),
        StructuralEvent::InlineCodeEnd,
    ];
    let outs = render_events(&events, &mut state, &ctx);
    assert!(matches!(&outs[1], Rendered::Keep));
}

#[test]
fn unknown_shortcode_template_fails_call() {
    let ctx = plain_context(InsertAnchor::NoAnchor);
    let mut state = RenderState::new(false);
    let events = vec![StructuralEvent::Text(String::from("{{ nope(a=\"b\") }}"))];
    let outs = render_events(&events, &mut state, &ctx);
    assert!(matches!(&outs[0], Rendered::Html(h) if h.is_empty()));
    match finish(String::from("partial"), state) {
        Err(RenderError::Template(_)) => {}
        _ => panic!("expected a template error"),
    }
}

#[test]
fn missing_relative_link_fails_call() {
    let ctx = plain_context(InsertAnchor::NoAnchor);
    let mut state = RenderState::new(false);
    let events = vec![
        StructuralEvent::LinkStart(String::from("./missing.md")),
        StructuralEvent::Text(String::from("x")),
        StructuralEvent::LinkEnd,
    ];
    let _ = render_events(&events, &mut state, &ctx);
    match finish(String::from("<a>partial</a>"), state) {
        Err(RenderError::LinkNotFound(l)) => assert_eq!(l, "./missing.md"),
        _ => panic!("expected a link resolution error"),
    }
}

#[test]
fn mapped_relative_link_is_rewritten() {
    let ctx = plain_context(InsertAnchor::NoAnchor);
    let mut state = RenderState::new(false);
    let events = vec![StructuralEvent::LinkStart(String::from("./other.md"))];
    let outs = render_events(&events, &mut state, &ctx);
    assert!(matches!(&outs[0], Rendered::Link(u) if u == "/other/"));
    assert!(finish(String::new(), state).is_ok());
}

#[test]
fn header_gets_slug_id_anchor_and_record() {
    let ctx = plain_context(InsertAnchor::Right);
    let mut state = RenderState::new(false);
    let events = vec![
        StructuralEvent::HeaderStart(2),
        StructuralEvent::Text(String::from("Hello World")),
        StructuralEvent::HeaderEnd,
    ];
    let outs = render_events(&events, &mut state, &ctx);
    assert!(matches!(&outs[0], Rendered::Html(h) if h == "<h2 "));
    assert!(matches!(&outs[1], Rendered::Html(h)
        if h == "id=\"hello-world\">Hello World<a href=\"#hello-world\">anchor</a>"));
    assert_eq!(state.headers.len(), 1);
    assert_eq!(state.headers[0].level, 2);
    assert_eq!(state.headers[0].id, "hello-world");
    assert_eq!(state.headers[0].title, "Hello World");
    assert_eq!(state.headers[0].permalink, "https://site.example/page/#hello-world");
}

#[test]
fn header_anchor_left_and_none_policies() {
    let ctx_left = plain_context(InsertAnchor::Left);
    let mut state = RenderState::new(false);
    let events = vec![
        StructuralEvent::HeaderStart(1),
        StructuralEvent::Text(String::from("Title")),
        StructuralEvent::HeaderEnd,
    ];
    let outs = render_events(&events, &mut state, &ctx_left);
    assert!(matches!(&outs[1], Rendered::Html(h)
        if h == "id=\"title\"><a href=\"#title\">anchor</a>Title"));
    let ctx_none = plain_context(InsertAnchor::NoAnchor);
    let mut state2 = RenderState::new(false);
    let events2 = vec![
        StructuralEvent::HeaderStart(1),
        StructuralEvent::Text(String::from("Title")),
        StructuralEvent::HeaderEnd,
    ];
    let outs2 = render_events(&events2, &mut state2, &ctx_none);
    assert!(matches!(&outs2[1], Rendered::Html(h) if h == "id=\"title\">Title"));
}

#[test]
fn duplicate_header_titles_get_numbered_ids() {
    let ctx = plain_context(InsertAnchor::NoAnchor);
    let mut state = RenderState::new(false);
    let mut events = Vec::new();
    for _ in 0..3 {
        events.push(StructuralEvent::HeaderStart(1));
        events.push(StructuralEvent::Text(String::from("Example")));
        events.push(StructuralEvent::HeaderEnd);
    }
    let _ = render_events(&events, &mut state, &ctx);
    assert_eq!(state.headers[0].id, "example");
    assert_eq!(state.headers[1].id, "example-1");
    assert_eq!(state.headers[2].id, "example-2");
}

#[test]
fn links_inside_headers_are_suppressed() {
    let ctx = plain_context(InsertAnchor::NoAnchor);
    let mut state = RenderState::new(false);
    let events = vec![
        StructuralEvent::HeaderStart(1),
        StructuralEvent::LinkStart(String::from("./other.md")),
        StructuralEvent::Text(String::from("T")),
        StructuralEvent::LinkEnd,
        StructuralEvent::HeaderEnd,
    ];
    let outs = render_events(&events, &mut state, &ctx);
    assert!(matches!(&outs[1], Rendered::Html(h) if h.is_empty()));
    assert!(matches!(&outs[3], Rendered::Html(h) if h.is_empty()));
}

#[test]
fn finish_strips_empty_paragraphs() {
    let state = RenderState::new(false);
    let r = finish(String::from("<p>a</p><p></p><p>b</p><p></p>"), state);
    let (html, _) = r.unwrap();
    assert_eq!(html, "<p>a</p><p>b</p>");
}

#[test]
fn toc_nests_by_level() {
    let ctx = plain_context(InsertAnchor::NoAnchor);
    let mut state = RenderState::new(false);
    let mut events = Vec::new();
    for (lvl, title) in [(1u8, "One"), (2u8, "Two"), (3u8, "Three"), (2u8, "Four"), (1u8, "Five")] {
        events.push(StructuralEvent::HeaderStart(lvl));
        events.push(StructuralEvent::Text(String::from(title)));
        events.push(StructuralEvent::HeaderEnd);
    }
    let _ = render_events(&events, &mut state, &ctx);
    let (_, toc) = finish(String::new(), state).unwrap();
    assert_eq!(toc.len(), 2);
    assert_eq!(toc[0].id, "one");
    assert_eq!(toc[0].children.len(), 2);
    assert_eq!(toc[0].children[0].id, "two");
    assert_eq!(toc[0].children[0].children.len(), 1);
    assert_eq!(toc[0].children[0].children[0].id, "three");
    assert_eq!(toc[0].children[1].id, "four");
    assert_eq!(toc[1].id, "five");
    assert!(toc[1].children.is_empty());
}

#[test]
fn shortcode_template_path_is_exact() {
    assert_eq!(shortcode_template_path(&String::from("youtube")), "shortcodes/youtube.html");
}

#[test]
fn shortcode_args_append_body_under_body_key() {
    let args = vec![(String::from("author"), String::from("bob"))];
    let inline = build_shortcode_args(&args, None);
    assert_eq!(inline, args);
    let body = String::from("wise words");
    let block = build_shortcode_args(&args, Some(&body));
    assert_eq!(
        block,
        vec![
            (String::from("author"), String::from("bob")),
            (String::from("body"), String::from("wise words")),
        ]
    );
}

#[test]
fn anchor_args_hold_the_identifier_under_id() {
    let r = build_anchor_args(&String::from("example-1"));
    assert_eq!(r, vec![(String::from("id"), String::from("example-1"))]);
}

#[test]
fn splice_prefixes_paragraph_close_on_success() {
    let mut state = RenderState::new(false);
    let out = splice_rendered(Ok(String::from("<b>x</b>")), &mut state);
    assert!(matches!(&out, Rendered::Html(h) if h == "</p><b>x</b>"));
    assert!(state.error.is_none());
}

#[test]
fn splice_records_first_template_error_on_failure() {
    let mut state = RenderState::new(false);
    let out = splice_rendered(Err(String::from("boom")), &mut state);
    assert!(matches!(&out, Rendered::Html(h) if h.is_empty()));
    assert!(matches!(&state.error, Some(RenderError::Template(m)) if m == "boom"));
    let _ = splice_rendered(Err(String::from("later")), &mut state);
    assert!(matches!(&state.error, Some(RenderError::Template(m)) if m == "boom"));
}

#[test]
fn fragment_is_engine_output_or_empty_with_error() {
    let mut state = RenderState::new(false);
    assert_eq!(fragment_of(Ok(String::from("<a>#</a>")), &mut state), "<a>#</a>");
    assert!(state.error.is_none());
    assert_eq!(fragment_of(Err(String::from("no template")), &mut state), "");
    assert!(matches!(&state.error, Some(RenderError::Template(_))));
}
