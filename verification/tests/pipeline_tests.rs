use pulldown_cmark::{html, CodeBlockKind, Event, Options, Parser, Tag, TagEnd};
use rendering::context::RenderContext;
use rendering::engine::{finish, should_highlight, transform_event, RenderState};
use rendering::events::Rendered;
use rendering::events::{InsertAnchor, RenderError, StructuralEvent};
use rendering::toc::Header;

/// Drives the external tokenizer and HTML serializer around the verified
/// transformer, as a caller of the library would.
fn markdown_to_html(
    content: &str,
    ctx: &RenderContext,
    mut state: RenderState,
) -> Result<(String, Vec<Header>), RenderError> {
    let mut opts = Options::empty();
    opts.insert(Options::ENABLE_TABLES);
    opts.insert(Options::ENABLE_FOOTNOTES);
    let mut html_out = String::new();
    {
        let parser = Parser::new_ext(content, opts).map(|event| {
            let ev = match &event {
                Event::Text(t) => StructuralEvent::Text(t.to_string()),
                Event::SoftBreak => StructuralEvent::SoftBreak,
                Event::Start(Tag::CodeBlock(kind)) => StructuralEvent::CodeBlockStart(match kind {
                    CodeBlockKind::Fenced(info) => info.to_string(),
                    CodeBlockKind::Indented => String::new(),
                }),
                Event::End(TagEnd::CodeBlock) => StructuralEvent::CodeBlockEnd,
                Event::Start(Tag::Heading { level, .. }) => {
                    StructuralEvent::HeaderStart(*level as u8)
                }
                Event::End(TagEnd::Heading(_)) => StructuralEvent::HeaderEnd,
                Event::Start(Tag::Link { dest_url, .. }) => {
                    StructuralEvent::LinkStart(dest_url.to_string())
                }
                Event::End(TagEnd::Link) => StructuralEvent::LinkEnd,
                Event::End(TagEnd::Paragraph) => StructuralEvent::ParagraphEnd,
                _ => StructuralEvent::Other,
            };
            match transform_event(&mut state, ev, ctx) {
                Rendered::Keep => event,
                Rendered::Html(h) => Event::Html(h.into()),
                Rendered::Link(url) => {
                    if let Event::Start(Tag::Link { link_type, title, id, .. }) = event {
                        Event::Start(Tag::Link { link_type, dest_url: url.into(), title, id })
                    } else {
                        event
                    }
                }
            }
        });
        html::push_html(&mut html_out, parser);
    }
    finish(html_out, state)
}

fn themed_context(highlight: bool, theme: &str) -> RenderContext {
    let tera = tera::Tera::default();
    RenderContext::new(
        tera,
        highlight,
        String::from(theme),
        String::from("https://site.example/page/"),
        Vec::new(),
        InsertAnchor::NoAnchor,
    )
}

fn context(insert_anchor: InsertAnchor, highlight: bool) -> RenderContext {
    let mut tera = tera::Tera::default();
    tera.add_raw_template("shortcodes/quote.html", "<blockquote>{{ body }} - {{ author }}</blockquote>")
        .unwrap();
    tera.add_raw_template("anchor-link.html", "<a class=\"anchor\" href=\"#{{ id }}\">#</a>")
        .unwrap();
    RenderContext::new(
        tera,
        highlight,
        String::from("base16-ocean.dark"),
        String::from("https://site.example/page/"),
        vec![(String::from("other.md"), String::from("/other/"))],
        insert_anchor,
    )
}

fn render(content: &str, ctx: &RenderContext) -> Result<(String, Vec<Header>), RenderError> {
    let state = RenderState::new(should_highlight(content, ctx.highlight_code));
    markdown_to_html(content, ctx, state)
}

#[test]
fn plain_paragraph_passes_through() {
    let ctx = context(InsertAnchor::NoAnchor, false);
    let (html, toc) = render("Hello world", &ctx).unwrap();
    assert_eq!(html, "<p>Hello world</p>\n");
    assert!(toc.is_empty());
}

#[test]
fn end_to_end_header_collision_and_link_rewrite() {
    // a pre-used identifier forces the numbered suffix, the anchor goes to the
    // right of the title, and the relative link target is rewritten
    let ctx = context(InsertAnchor::Right, false);
    let content = "# Example\n\nSee [x](./other.md)";
    let mut state = RenderState::new(should_highlight(content, ctx.highlight_code));
    state.anchors = vec![String::from("example")];
    let (html, toc) = markdown_to_html(content, &ctx, state).unwrap();
    assert!(html.contains("id=\"example-1\">Example<a class=\"anchor\" href=\"#example-1\">#</a>"));
    assert!(html.contains("<a href=\"/other/\">x</a>"));
    assert_eq!(toc.len(), 1);
    assert_eq!(toc[0].id, "example-1");
    assert_eq!(toc[0].permalink, "https://site.example/page/#example-1");
}

#[test]
fn end_to_end_block_shortcode_has_no_paragraph_wrapper() {
    let ctx = context(InsertAnchor::NoAnchor, false);
    let content = "{% quote(author=\"bob\") %}\nwise words\n{% end %}";
    let (html, _) = render(content, &ctx).unwrap();
    assert_eq!(html, "<blockquote>wise words - bob</blockquote>");
}

#[test]
fn end_to_end_missing_link_fails_whole_call() {
    let ctx = context(InsertAnchor::NoAnchor, false);
    let r = render("See [x](./missing.md)", &ctx);
    match r {
        Err(RenderError::LinkNotFound(l)) => assert_eq!(l, "./missing.md"),
        _ => panic!("expected a link resolution error, not partial output"),
    }
}

#[test]
fn end_to_end_two_code_blocks_highlight_independently() {
    // two fenced blocks yield two independent highlighter activations; the
    // second uses an unrecognized language token and falls back to plain text
    let ctx = context(InsertAnchor::NoAnchor, true);
    let content = "```rust\nlet x = 1;\n```\n\ntext\n\n```nosuchlanguage\nplain stuff\n```\n";
    let (html, _) = render(content, &ctx).unwrap();
    let opens = html.matches("<pre style=").count();
    assert_eq!(opens, 2);
    assert_eq!(html.matches("</pre>").count(), 2);
    assert!(html.contains("plain stuff"));
    assert!(!html.contains("<pre><code>"));
}

#[test]
fn end_to_end_no_fence_uses_plain_tags_even_when_enabled() {
    let ctx = context(InsertAnchor::NoAnchor, true);
    // an indented code block, so the raw source holds no fence marker
    let content = "para\n\n    indented code\n";
    let (html, _) = render(content, &ctx).unwrap();
    assert!(html.contains("<pre><code>"));
    assert!(!html.contains("<pre style="));
}

#[test]
fn rendering_twice_is_byte_identical() {
    let content = "# One\n\n# One\n\n{% quote(author=\"a\") %}\nbody\n{% end %}\n\n```rust\nlet x = 1;\n```\n\nSee [x](./other.md)";
    let ctx1 = context(InsertAnchor::Right, true);
    let ctx2 = context(InsertAnchor::Right, true);
    let (h1, t1) = render(content, &ctx1).unwrap();
    let (h2, t2) = render(content, &ctx2).unwrap();
    assert_eq!(h1, h2);
    assert_eq!(toc_shape(&t1), toc_shape(&t2));
}

fn toc_shape(toc: &[Header]) -> Vec<(u8, String, String, String, Vec<String>)> {
    toc.iter()
        .map(|h| {
            (
                h.level,
                h.id.clone(),
                h.title.clone(),
                h.permalink.clone(),
                h.children.iter().map(|c| c.id.clone()).collect(),
            )
        })
        .collect()
}

#[test]
fn shortcodes_ignored_inside_fenced_code() {
    let ctx = context(InsertAnchor::NoAnchor, false);
    let content = "```\n{{ quote(author=\"bob\") }}\n```\n";
    let (html, _) = render(content, &ctx).unwrap();
    assert!(html.contains("{{ quote(author=&quot;bob&quot;) }}") || html.contains("{{ quote(author=\"bob\") }}"));
    assert!(!html.contains("blockquote"));
}

#[test]
fn unknown_theme_pins_block_output_to_empty() {
    // the highlighter wrapper fails for a theme outside the default set, and
    // the contract pins the block's output to exactly the empty string
    let ctx = themed_context(true, "no-such-theme");
    let (html, _) = render("before\n\n```rust\nlet x = 1;\n```\n", &ctx).unwrap();
    assert!(html.contains("<p>before</p>"));
    assert!(!html.contains("<pre"));
    assert!(!html.contains("let x"));
}
