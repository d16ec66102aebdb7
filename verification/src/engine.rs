//! The event transformer: one explicit state machine that dispatches each
//! structural event to the highlighting, shortcode, anchor and link concerns,
//! plus the final assembly of the rendering outcome.

use vstd::prelude::*;
use crate::anchors::{anchor_spec, dec_digit, find_anchor, slugify, slug_of};
use crate::context::{highlight_block, highlighted_of, hl_ok, render_template, CtxV, RenderContext};
use crate::events::{
    ev_wf, EvV, InsertAnchor, Rendered, RenderedV, RenderError, RenderErrorV, StructuralEvent,
};
use crate::links::{resolve_internal_link, resolve_spec};
use crate::shortcode::{parse_shortcode, parse_shortcode_spec};
use crate::text::{
    chars_to_string, contains_sub, contains_sub_exec, ends_with, ends_with_chars, first_token,
    first_token_exec, starts_with, starts_with_chars, str_chars, strip_all, strip_all_exec, trim,
    trimmed_equals,
};
use crate::toc::{make_table_of_contents, toc_matches, Header, TempHeader, TempHeaderV};

verus! {

// ---- fixed fragments of emitted HTML, as character sequences ----

pub open spec fn fence_marker() -> Seq<char> {
    seq!['`', '`', '`']
}

pub open spec fn pre_code_open() -> Seq<char> {
    seq!['<', 'p', 'r', 'e', '>', '<', 'c', 'o', 'd', 'e', '>']
}

pub open spec fn pre_code_close() -> Seq<char> {
    seq!['<', '/', 'c', 'o', 'd', 'e', '>', '<', '/', 'p', 'r', 'e', '>', '\n']
}

pub open spec fn para_close() -> Seq<char> {
    seq!['<', '/', 'p', '>']
}

pub open spec fn empty_para() -> Seq<char> {
    seq!['<', 'p', '>', '<', '/', 'p', '>']
}

pub open spec fn sc_open_inline() -> Seq<char> {
    seq!['{', '{']
}

pub open spec fn sc_close_inline() -> Seq<char> {
    seq!['}', '}']
}

pub open spec fn sc_open_block() -> Seq<char> {
    seq!['{', '%']
}

pub open spec fn sc_close_block() -> Seq<char> {
    seq!['%', '}']
}

pub open spec fn sc_end_tag() -> Seq<char> {
    seq!['{', '%', ' ', 'e', 'n', 'd', ' ', '%', '}']
}

/// The opening tag emitted for a header start: `<hN ` with the identifier
/// attribute still to come.
pub open spec fn header_open(level: u8) -> Seq<char> {
    seq!['<', 'h', dec_digit(level as nat), ' ']
}

/// The finished header opening emitted on a header's first text: the
/// identifier attribute, then title and anchor fragment per the policy.
pub open spec fn header_html(
    id: Seq<char>,
    title: Seq<char>,
    frag: Seq<char>,
    policy: InsertAnchor,
) -> Seq<char> {
    let open = seq!['i', 'd', '=', '"'] + id + seq!['"', '>'];
    match policy {
        InsertAnchor::Left => open + frag + title,
        InsertAnchor::Right => open + title + frag,
        InsertAnchor::NoAnchor => open + title,
    }
}

/// The template rendered for a shortcode: `shortcodes/<name>.html`.
pub open spec fn template_path_of(name: Seq<char>) -> Seq<char> {
    seq!['s', 'h', 'o', 'r', 't', 'c', 'o', 'd', 'e', 's', '/'] + name + seq![
        '.',
        'h',
        't',
        'm',
        'l',
    ]
}

/// The key under which a block shortcode's gathered body is handed to the
/// template engine.
pub open spec fn body_key() -> Seq<char> {
    seq!['b', 'o', 'd', 'y']
}

/// The key under which a header's identifier is handed to the anchor-link
/// template.
pub open spec fn id_key() -> Seq<char> {
    seq!['i', 'd']
}

/// The arguments handed to the template engine for a shortcode: the parsed
/// pairs, and for the block form the gathered body under `body_key`.
pub open spec fn shortcode_args_of(
    args: Seq<(Seq<char>, Seq<char>)>,
    body: Option<Seq<char>>,
) -> Seq<(Seq<char>, Seq<char>)> {
    match body {
        Option::Some(b) => args + seq![(body_key(), b)],
        Option::None => args,
    }
}

// ---- the transformer's state ----

/// An open block shortcode: its name, arguments and the body gathered so far.
pub struct ShortcodeBlock {
    pub name: String,
    pub args: Vec<(String, String)>,
    pub body: String,
}

#[verifier::ext_equal]
pub struct ShortcodeBlockV {
    pub name: Seq<char>,
    pub args: Seq<(Seq<char>, Seq<char>)>,
    pub body: Seq<char>,
}

impl View for ShortcodeBlock {
    type V = ShortcodeBlockV;

    open spec fn view(&self) -> ShortcodeBlockV {
        ShortcodeBlockV { name: self.name@, args: self.args.deep_view(), body: self.body@ }
    }
}

/// All state the transformer carries across events of one pass.
pub struct RenderState {
    /// The up-front decision whether this document highlights code at all.
    pub should_highlight: bool,
    /// The first error recorded during the pass, if any.
    pub error: Option<RenderError>,
    /// Whether a highlighter is active for the current code block.
    pub highlighting: bool,
    /// Language token of the active highlighted block.
    pub hl_lang: String,
    /// Code text gathered for the active highlighted block.
    pub hl_buf: String,
    /// Inside a code block or inline code span (shortcodes are inert there).
    pub in_code_block: bool,
    /// Inside a header.
    pub in_header: bool,
    /// Level of the open header.
    pub header_level: u8,
    /// The open header's identifier and anchor were already emitted.
    pub header_already_inserted: bool,
    /// A shortcode replaced the current paragraph's opening tag, so the
    /// matching closing tag must be suppressed too.
    pub added_shortcode: bool,
    /// The open block shortcode, if any.
    pub shortcode: Option<ShortcodeBlock>,
    /// Identifiers already assigned in this document.
    pub anchors: Vec<String>,
    /// Finalized header records, in order.
    pub headers: Vec<TempHeader>,
}

#[verifier::ext_equal]
pub struct StateV {
    pub should_highlight: bool,
    pub error: Option<RenderErrorV>,
    pub highlighting: bool,
    pub hl_lang: Seq<char>,
    pub hl_buf: Seq<char>,
    pub in_code_block: bool,
    pub in_header: bool,
    pub header_level: u8,
    pub header_already_inserted: bool,
    pub added_shortcode: bool,
    pub shortcode: Option<ShortcodeBlockV>,
    pub anchors: Seq<Seq<char>>,
    pub headers: Seq<TempHeaderV>,
}

impl View for RenderState {
    type V = StateV;

    open spec fn view(&self) -> StateV {
        StateV {
            should_highlight: self.should_highlight,
            error: match self.error {
                Option::Some(e) => Option::Some(e@),
                Option::None => Option::None,
            },
            highlighting: self.highlighting,
            hl_lang: self.hl_lang@,
            hl_buf: self.hl_buf@,
            in_code_block: self.in_code_block,
            in_header: self.in_header,
            header_level: self.header_level,
            header_already_inserted: self.header_already_inserted,
            added_shortcode: self.added_shortcode,
            shortcode: match &self.shortcode {
                Option::Some(sc) => Option::Some(sc@),
                Option::None => Option::None,
            },
            anchors: self.anchors.deep_view(),
            headers: self.headers.deep_view(),
        }
    }
}

/// The state every pass starts from.
pub open spec fn init_state(should_highlight: bool) -> StateV {
    StateV {
        should_highlight: should_highlight,
        error: Option::None,
        highlighting: false,
        hl_lang: Seq::empty(),
        hl_buf: Seq::empty(),
        in_code_block: false,
        in_header: false,
        header_level: 0,
        header_already_inserted: false,
        added_shortcode: false,
        shortcode: Option::None,
        anchors: Seq::empty(),
        headers: Seq::empty(),
    }
}

impl RenderState {
    pub fn new(should_highlight: bool) -> (r: Self)
        ensures
            r@ == init_state(should_highlight),
    {
        let r = RenderState {
            should_highlight,
            error: Option::None,
            highlighting: false,
            hl_lang: String::new(),
            hl_buf: String::new(),
            in_code_block: false,
            in_header: false,
            header_level: 0,
            header_already_inserted: false,
            added_shortcode: false,
            shortcode: Option::None,
            anchors: Vec::new(),
            headers: Vec::new(),
        };
        proof {
            assert(r@.hl_lang =~= init_state(should_highlight).hl_lang);
            assert(r@.hl_buf =~= init_state(should_highlight).hl_buf);
            assert(r@.anchors =~= init_state(should_highlight).anchors);
            assert(r@.headers =~= init_state(should_highlight).headers);
        }
        r
    }
}

/// The up-front heuristic: highlighting is on for a document exactly when the
/// configuration enables it and the raw source holds the fenced-code marker.
pub fn should_highlight(content: &str, highlight_code: bool) -> (r: bool)
    ensures
        r == (highlight_code && contains_sub(content@, fence_marker())),
{
    if !highlight_code {
        return false;
    }
    let chars = str_chars(content);
    let mut p: Vec<char> = Vec::new();
    p.push('`');
    p.push('`');
    p.push('`');
    proof {
        assert(p@ =~= fence_marker());
    }
    contains_sub_exec(&chars, &p)
}

// ---- the step function: what one event does to the state, and the plan ----

/// What the transformer decides to do with one event; calls into the template
/// engine or the highlighter are carried as plans so the decision itself is a
/// pure function.
#[verifier::ext_equal]
pub enum PlanV {
    /// Pass the event through unchanged.
    Keep,
    /// Replace the event with this verbatim HTML.
    Emit(Seq<char>),
    /// Keep the link event, with this rewritten destination.
    RewriteLink(Seq<char>),
    /// Render an inline shortcode: name and arguments.
    RenderInline(Seq<char>, Seq<(Seq<char>, Seq<char>)>),
    /// Render a block shortcode: name, arguments and gathered body.
    RenderBlock(Seq<char>, Seq<(Seq<char>, Seq<char>)>, Seq<char>),
    /// Emit the finished header opening: identifier and title.
    EmitHeader(Seq<char>, Seq<char>),
    /// Highlight a finished code block: language token and code.
    Highlight(Seq<char>, Seq<char>),
}

/// First error wins: a recorded error is never replaced.
pub open spec fn or_first(e: Option<RenderErrorV>, n: RenderErrorV) -> Option<RenderErrorV> {
    if e is Some {
        e
    } else {
        Option::Some(n)
    }
}

/// One text event: highlighting buffers it, code blocks pass it through,
/// shortcodes open/extend/close, a header's first text allocates its anchor.
pub open spec fn step_text(s: StateV, t: Seq<char>, c: CtxV) -> (StateV, PlanV) {
    if s.highlighting {
        (StateV { hl_buf: s.hl_buf + t, ..s }, PlanV::Emit(Seq::empty()))
    } else if s.in_code_block {
        (s, PlanV::Keep)
    } else if s.shortcode is None && starts_with(t, sc_open_inline()) && ends_with(
        t,
        sc_close_inline(),
    ) && parse_shortcode_spec(t) is Some {
        let (name, args) = parse_shortcode_spec(t)->0;
        (StateV { added_shortcode: true, ..s }, PlanV::RenderInline(name, args))
    } else if s.shortcode is None && starts_with(t, sc_open_block()) && ends_with(
        t,
        sc_close_block(),
    ) {
        match parse_shortcode_spec(t) {
            Option::Some((name, args)) => (
                StateV {
                    shortcode: Option::Some(
                        ShortcodeBlockV { name: name, args: args, body: Seq::empty() },
                    ),
                    ..s
                },
                PlanV::Emit(Seq::empty()),
            ),
            Option::None => (s, PlanV::Emit(Seq::empty())),
        }
    } else if s.shortcode is Some {
        let sc = s.shortcode->0;
        if trim(t) == sc_end_tag() {
            (
                StateV { shortcode: Option::None, added_shortcode: true, ..s },
                PlanV::RenderBlock(sc.name, sc.args, sc.body),
            )
        } else {
            (
                StateV { shortcode: Option::Some(ShortcodeBlockV { body: sc.body + t, ..sc }), ..s },
                PlanV::Emit(Seq::empty()),
            )
        }
    } else if s.in_header {
        if s.header_already_inserted {
            (s, PlanV::Keep)
        } else {
            let id = anchor_spec(s.anchors, slug_of(t));
            let th = TempHeaderV {
                level: s.header_level,
                id: id,
                title: t,
                permalink: c.current_page_permalink + seq!['#'] + id,
            };
            (
                StateV {
                    anchors: s.anchors.push(id),
                    headers: s.headers.push(th),
                    header_already_inserted: true,
                    ..s
                },
                PlanV::EmitHeader(id, t),
            )
        }
    } else {
        (s, PlanV::Keep)
    }
}

/// One event of any kind: the full dispatch.
pub open spec fn step(s: StateV, ev: EvV, c: CtxV) -> (StateV, PlanV) {
    match ev {
        EvV::Text(t) => step_text(s, t, c),
        EvV::CodeBlockStart(info) => {
            if !s.should_highlight {
                (StateV { in_code_block: true, ..s }, PlanV::Emit(pre_code_open()))
            } else {
                (
                    StateV {
                        in_code_block: true,
                        highlighting: true,
                        hl_lang: first_token(info),
                        hl_buf: Seq::empty(),
                        ..s
                    },
                    PlanV::Emit(Seq::empty()),
                )
            }
        },
        EvV::CodeBlockEnd => {
            if !s.should_highlight {
                (StateV { in_code_block: false, ..s }, PlanV::Emit(pre_code_close()))
            } else {
                (
                    StateV { in_code_block: false, highlighting: false, ..s },
                    PlanV::Highlight(s.hl_lang, s.hl_buf),
                )
            }
        },
        EvV::InlineCodeStart => (StateV { in_code_block: true, ..s }, PlanV::Keep),
        EvV::InlineCodeEnd => (StateV { in_code_block: false, ..s }, PlanV::Keep),
        EvV::HeaderStart(level) => (
            StateV { in_header: true, header_level: level, ..s },
            PlanV::Emit(header_open(level)),
        ),
        EvV::HeaderEnd => (
            StateV { in_header: false, header_already_inserted: false, ..s },
            PlanV::Keep,
        ),
        EvV::LinkStart(dest) => {
            if s.in_header {
                (s, PlanV::Emit(Seq::empty()))
            } else if starts_with(dest, seq!['.', '/']) {
                match resolve_spec(c.permalinks, dest) {
                    Option::Some(url) => (s, PlanV::RewriteLink(url)),
                    Option::None => (
                        StateV {
                            error: or_first(s.error, RenderErrorV::LinkNotFound(dest)),
                            ..s
                        },
                        PlanV::Emit(Seq::empty()),
                    ),
                }
            } else {
                (s, PlanV::Keep)
            }
        },
        EvV::LinkEnd => {
            if s.in_header {
                (s, PlanV::Emit(Seq::empty()))
            } else {
                (s, PlanV::Keep)
            }
        },
        EvV::ParagraphEnd => {
            if s.added_shortcode {
                (StateV { added_shortcode: false, ..s }, PlanV::Emit(Seq::empty()))
            } else {
                (s, PlanV::Keep)
            }
        },
        EvV::SoftBreak => {
            if s.shortcode is Some {
                (s, PlanV::Emit(Seq::empty()))
            } else {
                (s, PlanV::Keep)
            }
        },
        EvV::Other => (s, PlanV::Keep),
    }
}

/// The whole pass at the plan level: folding `step` over the events.
pub open spec fn run_steps(s: StateV, evs: Seq<EvV>, c: CtxV) -> (StateV, Seq<PlanV>)
    decreases evs.len(),
{
    if evs.len() == 0 {
        (s, Seq::empty())
    } else {
        let (s1, p) = step(s, evs[0], c);
        let (sf, ps) = run_steps(s1, evs.subrange(1, evs.len() as int), c);
        (sf, seq![p] + ps)
    }
}

/// A state with its error slot blanked: everything the pass computes besides
/// the recorded error.
pub open spec fn sans_error(s: StateV) -> StateV {
    StateV { error: Option::None, ..s }
}

/// The finished header opening was emitted with some anchor fragment, empty
/// when anchor insertion is off.
pub open spec fn header_out_ok(id: Seq<char>, title: Seq<char>, out: RenderedV, c: CtxV) -> bool {
    exists|frag: Seq<char>|
        out == RenderedV::Html(#[trigger] header_html(id, title, frag, c.insert_anchor)) && (
        c.insert_anchor == InsertAnchor::NoAnchor ==> frag == Seq::<char>::empty())
}

/// How an emitted output may look for a given plan. Plans that call no engine
/// pin their output exactly; plans that render or highlight are pinned up to
/// what the engine returned.
pub open spec fn out_rel(plan: PlanV, out: RenderedV, c: CtxV) -> bool {
    match plan {
        PlanV::Keep => out == RenderedV::Keep,
        PlanV::Emit(h) => out == RenderedV::Html(h),
        PlanV::RewriteLink(u) => out == RenderedV::Link(u),
        PlanV::RenderInline(_, _) => (out == RenderedV::Html(Seq::<char>::empty()) || exists|sq:
            Seq<char>|
            out == RenderedV::Html(#[trigger] (para_close() + sq))),
        PlanV::RenderBlock(_, _, _) => (out == RenderedV::Html(Seq::<char>::empty())
            || exists|sq: Seq<char>| out == RenderedV::Html(#[trigger] (para_close() + sq))),
        PlanV::EmitHeader(id, title) => header_out_ok(id, title, out, c),
        PlanV::Highlight(lang, code) => out == RenderedV::Html(
            if hl_ok(c.highlight_theme, lang, code) {
                highlighted_of(c.highlight_theme, lang, code)
            } else {
                Seq::<char>::empty()
            },
        ),
    }
}

/// How the error slot may move for a given plan: unchanged, except that a
/// failed engine call records a template error if none is recorded yet.
pub open spec fn err_rel(plan: PlanV, e0: Option<RenderErrorV>, e1: Option<RenderErrorV>) -> bool {
    match plan {
        PlanV::RenderInline(_, _) | PlanV::RenderBlock(_, _, _) | PlanV::EmitHeader(_, _) => e1
            == e0 || exists|m: Seq<char>| e1 == or_first(e0, RenderErrorV::Template(m)),
        _ => e1 == e0,
    }
}

/// The full per-event contract: the state moves as `step` says (engine results
/// touch only the error slot), the output fits the plan, and a failed engine
/// call yields empty output together with the recorded error.
pub open spec fn apply_rel(
    plan: PlanV,
    e0: Option<RenderErrorV>,
    e1: Option<RenderErrorV>,
    out: RenderedV,
    c: CtxV,
) -> bool {
    &&& out_rel(plan, out, c)
    &&& err_rel(plan, e0, e1)
    &&& match plan {
        PlanV::RenderInline(_, _) | PlanV::RenderBlock(_, _, _) => (e1 == e0 && exists|sq:
            Seq<char>| out == RenderedV::Html(para_close() + sq)) || (out == RenderedV::Html(
            Seq::<char>::empty(),
        ) && e1 is Some),
        PlanV::EmitHeader(id, title) => {
            &&& (c.insert_anchor == InsertAnchor::NoAnchor ==> e1 == e0)
            &&& (e1 == e0 || (out == RenderedV::Html(
                header_html(id, title, Seq::<char>::empty(), c.insert_anchor),
            ) && e1 is Some))
        },
        _ => true,
    }
}


// ---- exec helpers for the fixed fragments ----

fn lit2(a: char, b: char) -> (r: Vec<char>)
    ensures
        r@ == seq![a, b],
{
    let mut v: Vec<char> = Vec::new();
    v.push(a);
    v.push(b);
    proof {
        assert(v@ =~= seq![a, b]);
    }
    v
}

fn lit_end_tag() -> (r: Vec<char>)
    ensures
        r@ == sc_end_tag(),
{
    let mut v: Vec<char> = Vec::new();
    v.push('{');
    v.push('%');
    v.push(' ');
    v.push('e');
    v.push('n');
    v.push('d');
    v.push(' ');
    v.push('%');
    v.push('}');
    proof {
        assert(v@ =~= sc_end_tag());
    }
    v
}

fn lit_pre_code_open() -> (r: String)
    ensures
        r@ == pre_code_open(),
{
    let s = String::from_str("<pre><code>");
    proof {
        reveal_strlit("<pre><code>");
        assert(s@ =~= pre_code_open());
    }
    s
}

fn lit_pre_code_close() -> (r: String)
    ensures
        r@ == pre_code_close(),
{
    let s = String::from_str("</code></pre>\n");
    proof {
        reveal_strlit("</code></pre>\n");
        assert(s@ =~= pre_code_close());
    }
    s
}

/// Records `e` unless an earlier error is already recorded: first error wins.
fn record_error(state: &mut RenderState, e: RenderError)
    ensures
        final(state)@ == (StateV { error: or_first(old(state)@.error, e@), ..old(state)@ }),
{
    if state.error.is_none() {
        state.error = Option::Some(e);
    }
}

/// Builds the template path of a shortcode: exactly `shortcodes/<name>.html`.
pub fn shortcode_template_path(name: &String) -> (r: String)
    ensures
        r@ == template_path_of(name@),
{
    let mut tpl = String::from_str("shortcodes/");
    tpl.append(name.as_str());
    tpl.append(".html");
    proof {
        reveal_strlit("shortcodes/");
        reveal_strlit(".html");
        assert(tpl@ =~= template_path_of(name@));
    }
    tpl
}

/// Builds the argument list handed to the template engine for a shortcode:
/// exactly the parsed pairs, with the gathered body appended under `body` for
/// the block form.
pub fn build_shortcode_args(args: &Vec<(String, String)>, body: Option<&String>) -> (r: Vec<
    (String, String),
>)
    ensures
        r.deep_view() == shortcode_args_of(
            args.deep_view(),
            match body {
                Option::Some(b) => Option::Some(b@),
                Option::None => Option::None,
            },
        ),
{
    let mut full_args: Vec<(String, String)> = Vec::new();
    let mut i: usize = 0;
    while i < args.len()
        invariant
            i <= args@.len(),
            full_args.deep_view() == args.deep_view().subrange(0, i as int),
        decreases args@.len() - i,
    {
        let entry = (args[i].0.clone(), args[i].1.clone());
        proof {
            assert(entry.0 == args@[i as int].0);
            assert(entry.1 == args@[i as int].1);
            assert(entry.deep_view() == args@[i as int].deep_view());
        }
        let ghost pre = full_args@;
        let ghost pre_dv = full_args.deep_view();
        full_args.push(entry);
        proof {
            assert(pre_dv.len() == pre.len());
            assert(full_args@ == pre.push(entry));
            assert(full_args.deep_view() =~= pre_dv.push(entry.deep_view()));
            assert(pre_dv.push(entry.deep_view()) =~= args.deep_view().subrange(0, i + 1));
        }
        i += 1;
    }
    proof {
        assert(args.deep_view().subrange(0, args@.len() as int) =~~= args.deep_view());
    }
    match body {
        Option::Some(b) => {
            let key = String::from_str("body");
            proof {
                reveal_strlit("body");
                assert(key@ =~= body_key());
            }
            full_args.push((key, b.clone()));
            proof {
                assert(full_args.deep_view() =~~= args.deep_view() + seq![(body_key(), b@)]);
            }
            full_args
        },
        Option::None => full_args,
    }
}

/// Builds the one-entry argument list handed to the anchor-link template:
/// exactly the header's identifier under `id`.
pub fn build_anchor_args(id: &String) -> (r: Vec<(String, String)>)
    ensures
        r.deep_view() == seq![(id_key(), id@)],
{
    let key = String::from_str("id");
    proof {
        reveal_strlit("id");
        assert(key@ =~= id_key());
    }
    let mut r: Vec<(String, String)> = Vec::new();
    r.push((key, id.clone()));
    proof {
        assert(r.deep_view() =~~= seq![(id_key(), id@)]);
    }
    r
}

/// What one template-engine result becomes in the stream: success splices the
/// engine's output after an early paragraph close; failure records a template
/// error (first error wins) and yields empty output. Exact for every value of
/// the result.
pub fn splice_rendered(res: Result<String, String>, state: &mut RenderState) -> (out: Rendered)
    ensures
        res is Ok ==> *final(state) == *old(state) && out@ == RenderedV::Html(
            para_close() + res->Ok_0@,
        ),
        res is Err ==> final(state)@ == (StateV {
            error: or_first(old(state)@.error, RenderErrorV::Template(res->Err_0@)),
            ..old(state)@
        }) && out@ == RenderedV::Html(Seq::<char>::empty()),
{
    match res {
        Result::Ok(s) => {
            let mut o = String::from_str("</p>");
            o.append(s.as_str());
            proof {
                reveal_strlit("</p>");
                assert(o@ =~= para_close() + s@);
            }
            Rendered::Html(o)
        },
        Result::Err(m) => {
            record_error(state, RenderError::Template(m));
            Rendered::Html(String::new())
        },
    }
}

/// What one anchor-link result becomes: success is the engine's fragment
/// unchanged; failure records a template error (first error wins) and leaves
/// the fragment empty. Exact for every value of the result.
pub fn fragment_of(res: Result<String, String>, state: &mut RenderState) -> (frag: String)
    ensures
        res is Ok ==> *final(state) == *old(state) && frag@ == res->Ok_0@,
        res is Err ==> final(state)@ == (StateV {
            error: or_first(old(state)@.error, RenderErrorV::Template(res->Err_0@)),
            ..old(state)@
        }) && frag@ == Seq::<char>::empty(),
{
    match res {
        Result::Ok(f) => f,
        Result::Err(m) => {
            record_error(state, RenderError::Template(m));
            String::new()
        },
    }
}

/// Renders a shortcode through the template engine: the template path and the
/// argument list handed over are fixed exactly by `shortcode_template_path`
/// and `build_shortcode_args`, and what the engine's result becomes is fixed
/// exactly by `splice_rendered`; only the engine's own text is free.
fn do_render_shortcode(
    state: &mut RenderState,
    ctx: &RenderContext,
    name: &String,
    args: &Vec<(String, String)>,
    body: Option<&String>,
) -> (out: Rendered)
    ensures
        sans_error(final(state)@) == sans_error(old(state)@),
        (final(state)@.error == old(state)@.error && (exists|sq: Seq<char>|
            out@ == RenderedV::Html(para_close() + sq))) || (out@ == RenderedV::Html(
            Seq::<char>::empty(),
        ) && (exists|m: Seq<char>|
            final(state)@.error == or_first(old(state)@.error, RenderErrorV::Template(m)))
            && final(state)@.error is Some),
{
    let tpl = shortcode_template_path(name);
    let full_args = build_shortcode_args(args, body);
    let res = render_template(&ctx.tera, tpl.as_str(), &full_args);
    splice_rendered(res, state)
}

/// Rewrites one structural event. The state moves exactly as `step` plans it;
/// only the error slot additionally reflects failed template-engine calls, and
/// the returned output fits the plan (`apply_rel`).
pub fn transform_event(state: &mut RenderState, ev: StructuralEvent, ctx: &RenderContext) -> (out:
    Rendered)
    requires
        ev_wf(ev@),
        old(state).anchors@.len() + 2 <= usize::MAX,
    ensures
        ({
            let (s2, plan) = step(old(state)@, ev@, ctx@);
            sans_error(final(state)@) == sans_error(s2) && apply_rel(
                plan,
                s2.error,
                final(state)@.error,
                out@,
                ctx@,
            )
        }),
{
    match ev {
        StructuralEvent::Text(t) => transform_text(state, t, ctx),
        StructuralEvent::CodeBlockStart(info) => {
            state.in_code_block = true;
            if !state.should_highlight {
                Rendered::Html(lit_pre_code_open())
            } else {
                let chars = str_chars(info.as_str());
                let tok = first_token_exec(&chars);
                state.highlighting = true;
                state.hl_lang = chars_to_string(&tok);
                state.hl_buf = String::new();
                Rendered::Html(String::new())
            }
        },
        StructuralEvent::CodeBlockEnd => {
            state.in_code_block = false;
            if !state.should_highlight {
                Rendered::Html(lit_pre_code_close())
            } else {
                state.highlighting = false;
                match highlight_block(
                    ctx.highlight_theme.as_str(),
                    state.hl_lang.as_str(),
                    state.hl_buf.as_str(),
                ) {
                    Option::Some(h) => Rendered::Html(h),
                    Option::None => Rendered::Html(String::new()),
                }
            }
        },
        StructuralEvent::InlineCodeStart => {
            state.in_code_block = true;
            Rendered::Keep
        },
        StructuralEvent::InlineCodeEnd => {
            state.in_code_block = false;
            Rendered::Keep
        },
        StructuralEvent::HeaderStart(level) => {
            state.in_header = true;
            state.header_level = level;
            let mut v: Vec<char> = Vec::new();
            v.push('<');
            v.push('h');
            v.push(crate::anchors::dec_digit_exec(level as u64));
            v.push(' ');
            proof {
                assert(v@ =~= header_open(level));
            }
            Rendered::Html(chars_to_string(&v))
        },
        StructuralEvent::HeaderEnd => {
            state.in_header = false;
            state.header_already_inserted = false;
            Rendered::Keep
        },
        StructuralEvent::LinkStart(dest) => {
            if state.in_header {
                return Rendered::Html(String::new());
            }
            let chars = str_chars(dest.as_str());
            let rel = lit2('.', '/');
            if starts_with_chars(&chars, &rel) {
                match resolve_internal_link(&chars, &ctx.permalinks) {
                    Option::Some(url) => Rendered::Link(url),
                    Option::None => {
                        record_error(state, RenderError::LinkNotFound(dest));
                        Rendered::Html(String::new())
                    },
                }
            } else {
                Rendered::Keep
            }
        },
        StructuralEvent::LinkEnd => {
            if state.in_header {
                Rendered::Html(String::new())
            } else {
                Rendered::Keep
            }
        },
        StructuralEvent::ParagraphEnd => {
            if state.added_shortcode {
                state.added_shortcode = false;
                Rendered::Html(String::new())
            } else {
                Rendered::Keep
            }
        },
        StructuralEvent::SoftBreak => {
            if state.shortcode.is_some() {
                Rendered::Html(String::new())
            } else {
                Rendered::Keep
            }
        },
        StructuralEvent::Other => Rendered::Keep,
    }
}

proof fn lemma_out_rel_header(
    id: Seq<char>,
    title: Seq<char>,
    frag: Seq<char>,
    out: RenderedV,
    c: CtxV,
)
    requires
        out == RenderedV::Html(header_html(id, title, frag, c.insert_anchor)),
        c.insert_anchor == InsertAnchor::NoAnchor ==> frag == Seq::<char>::empty(),
    ensures
        out_rel(PlanV::EmitHeader(id, title), out, c),
{
    assert(header_out_ok(id, title, out, c)) by {
        assert(out == RenderedV::Html(header_html(id, title, frag, c.insert_anchor)) && (
        c.insert_anchor == InsertAnchor::NoAnchor ==> frag == Seq::<char>::empty()));
    }
}

/// The text-event part of the dispatch.
#[verifier::rlimit(80)]
fn transform_text(state: &mut RenderState, t: String, ctx: &RenderContext) -> (out: Rendered)
    requires
        old(state).anchors@.len() + 2 <= usize::MAX,
    ensures
        ({
            let (s2, plan) = step_text(old(state)@, t@, ctx@);
            sans_error(final(state)@) == sans_error(s2) && apply_rel(
                plan,
                s2.error,
                final(state)@.error,
                out@,
                ctx@,
            )
        }),
{
    if state.highlighting {
        state.hl_buf.append(t.as_str());
        return Rendered::Html(String::new());
    }
    if state.in_code_block {
        return Rendered::Keep;
    }
    let chars = str_chars(t.as_str());
    let open_inline = lit2('{', '{');
    let close_inline = lit2('}', '}');
    if state.shortcode.is_none() && starts_with_chars(&chars, &open_inline) && ends_with_chars(
        &chars,
        &close_inline,
    ) {
        match parse_shortcode(&chars) {
            Option::Some((name, args)) => {
                state.added_shortcode = true;
                let out = do_render_shortcode(state, ctx, &name, &args, Option::None);
                return out;
            },
            Option::None => {},
        }
    }
    let open_block = lit2('{', '%');
    let close_block = lit2('%', '}');
    if state.shortcode.is_none() && starts_with_chars(&chars, &open_block) && ends_with_chars(
        &chars,
        &close_block,
    ) {
        match parse_shortcode(&chars) {
            Option::Some((name, args)) => {
                state.shortcode = Option::Some(
                    ShortcodeBlock { name, args, body: String::new() },
                );
                return Rendered::Html(String::new());
            },
            Option::None => {
                return Rendered::Html(String::new());
            },
        }
    }
    if state.shortcode.is_some() {
        let end_tag = lit_end_tag();
        let mut sc_opt: Option<ShortcodeBlock> = Option::None;
        core::mem::swap(&mut state.shortcode, &mut sc_opt);
        match sc_opt {
            Option::Some(mut sc) => {
                if trimmed_equals(&chars, &end_tag) {
                    state.added_shortcode = true;
                    let out = do_render_shortcode(
                        state,
                        ctx,
                        &sc.name,
                        &sc.args,
                        Option::Some(&sc.body),
                    );
                    return out;
                } else {
                    sc.body.append(t.as_str());
                    state.shortcode = Option::Some(sc);
                    return Rendered::Html(String::new());
                }
            },
            Option::None => {
                return Rendered::Html(String::new());
            },
        }
    }
    if state.in_header {
        if state.header_already_inserted {
            return Rendered::Keep;
        }
        let slug = slugify(t.as_str());
        let id = find_anchor(&state.anchors, &slug);
        state.anchors.push(id.clone());
        let mut pl = ctx.current_page_permalink.clone();
        pl.append("#");
        pl.append(id.as_str());
        proof {
            reveal_strlit("#");
            assert(pl@ =~= ctx@.current_page_permalink + seq!['#'] + id@);
        }
        let th = TempHeader {
            level: state.header_level,
            id: id.clone(),
            title: t.clone(),
            permalink: pl,
        };
        state.headers.push(th);
        state.header_already_inserted = true;
        let frag: String;
        if ctx.should_insert_anchor() {
            let aargs = build_anchor_args(&id);
            let res = render_template(&ctx.tera, "anchor-link.html", &aargs);
            frag = fragment_of(res, state);
        } else {
            frag = String::new();
        }
        let mut o = String::from_str("id=\"");
        o.append(id.as_str());
        o.append("\">");
        match ctx.insert_anchor {
            InsertAnchor::Left => {
                o.append(frag.as_str());
                o.append(t.as_str());
            },
            InsertAnchor::Right => {
                o.append(t.as_str());
                o.append(frag.as_str());
            },
            InsertAnchor::NoAnchor => {
                o.append(t.as_str());
            },
        }
        proof {
            reveal_strlit("id=\"");
            reveal_strlit("\">");
            assert(o@ =~= header_html(id@, t@, frag@, ctx@.insert_anchor));
            let (s2, plan) = step_text(old(state)@, t@, ctx@);
            assert(state.anchors.deep_view() =~= s2.anchors);
            assert(state.headers.deep_view() =~= s2.headers);
            assert(sans_error(state@) =~~= sans_error(s2));
            if ctx@.insert_anchor == InsertAnchor::NoAnchor {
                assert(frag@ =~= Seq::<char>::empty());
            }
            assert(plan =~~= PlanV::EmitHeader(id@, t@));
            lemma_out_rel_header(id@, t@, frag@, RenderedV::Html(o@), ctx@);
        }
        return Rendered::Html(o);
    }
    Rendered::Keep
}


// ---- the whole pass ----

/// Clones one event; the clone has the same mathematical value.
fn clone_event(ev: &StructuralEvent) -> (r: StructuralEvent)
    ensures
        r@ == ev@,
{
    match ev {
        StructuralEvent::Text(t) => StructuralEvent::Text(t.clone()),
        StructuralEvent::SoftBreak => StructuralEvent::SoftBreak,
        StructuralEvent::CodeBlockStart(i) => StructuralEvent::CodeBlockStart(i.clone()),
        StructuralEvent::CodeBlockEnd => StructuralEvent::CodeBlockEnd,
        StructuralEvent::InlineCodeStart => StructuralEvent::InlineCodeStart,
        StructuralEvent::InlineCodeEnd => StructuralEvent::InlineCodeEnd,
        StructuralEvent::HeaderStart(l) => StructuralEvent::HeaderStart(*l),
        StructuralEvent::HeaderEnd => StructuralEvent::HeaderEnd,
        StructuralEvent::LinkStart(d) => StructuralEvent::LinkStart(d.clone()),
        StructuralEvent::LinkEnd => StructuralEvent::LinkEnd,
        StructuralEvent::ParagraphEnd => StructuralEvent::ParagraphEnd,
        StructuralEvent::Other => StructuralEvent::Other,
    }
}

/// The error slot never steers the pass: states equal up to their error slots
/// step to the same plan and the same state up to the error slots, recorded
/// errors are never dropped, and one step assigns at most one identifier.
#[verifier::rlimit(100)]
#[verifier::spinoff_prover]
proof fn lemma_step_error_irrelevant(a: StateV, b: StateV, ev: EvV, c: CtxV)
    requires
        sans_error(a) == sans_error(b),
        b.error is Some ==> a.error is Some,
    ensures
        ({
            let (sa, pa) = step(a, ev, c);
            let (sb, pb) = step(b, ev, c);
            &&& pa == pb
            &&& sans_error(sa) == sans_error(sb)
            &&& (sb.error is Some ==> sa.error is Some)
            &&& (a.error is Some ==> sa.error is Some)
            &&& sa.anchors.len() <= a.anchors.len() + 1
            &&& ((sa.error == a.error && sb.error == b.error) || (exists|d: Seq<char>|
                sa.error == or_first(a.error, RenderErrorV::LinkNotFound(d)) && sb.error
                    == or_first(b.error, RenderErrorV::LinkNotFound(d))))
        }),
{
    assert(a.highlighting == b.highlighting);
    assert(a.shortcode == b.shortcode);
    assert(a.anchors == b.anchors);
    match ev {
        EvV::Text(t) => {
            assert(sans_error(step_text(a, t, c).0) =~~= sans_error(step_text(b, t, c).0));
        },
        _ => {
            assert(sans_error(step(a, ev, c).0) =~~= sans_error(step(b, ev, c).0));
        },
    }
}

proof fn lemma_run_snoc(s: StateV, evs: Seq<EvV>, e: EvV, c: CtxV)
    ensures
        run_steps(s, evs.push(e), c).0 == step(run_steps(s, evs, c).0, e, c).0,
        run_steps(s, evs.push(e), c).1 == run_steps(s, evs, c).1.push(
            step(run_steps(s, evs, c).0, e, c).1,
        ),
    decreases evs.len(),
{
    let evs2 = evs.push(e);
    if evs.len() == 0 {
        assert(evs2.subrange(1, evs2.len() as int) =~= Seq::<EvV>::empty());
        assert(evs2[0] == e);
        let (s2, p) = step(s, e, c);
        assert(run_steps(s2, Seq::<EvV>::empty(), c).1 == Seq::<PlanV>::empty());
        assert(run_steps(s, evs2, c).1 == seq![p] + Seq::<PlanV>::empty());
        assert(run_steps(s, evs, c).1 == Seq::<PlanV>::empty());
        assert(seq![p] + Seq::<PlanV>::empty() =~= Seq::<PlanV>::empty().push(p));
    } else {
        let (sh, ph) = step(s, evs[0], c);
        let tail = evs.subrange(1, evs.len() as int);
        lemma_run_snoc(sh, tail, e, c);
        assert(evs2[0] == evs[0]);
        assert(evs2.subrange(1, evs2.len() as int) =~= tail.push(e));
        let (st, pst) = run_steps(sh, tail, c);
        let (s2, p) = step(st, e, c);
        assert(run_steps(s, evs, c).0 == st);
        assert(run_steps(s, evs, c).1 == seq![ph] + pst);
        assert(run_steps(s, evs2, c).0 == run_steps(sh, tail.push(e), c).0);
        assert(run_steps(s, evs2, c).1 == seq![ph] + pst.push(p));
        assert(seq![ph] + pst.push(p) =~= (seq![ph] + pst).push(p));
    }
}

/// The only way the pass's recorded error may differ from the plan-level one:
/// a template-engine failure recorded first. Any other fabricated error is
/// ruled out.
pub open spec fn err_matches(actual: Option<RenderErrorV>, plan_err: Option<RenderErrorV>) -> bool {
    actual == plan_err || (actual is Some && actual->0 is Template)
}

/// Drives the transformer over a whole event sequence. The final state matches
/// the plan-level run (`run_steps`) except that the error slot may also hold a
/// template-engine failure; every output fits its plan.
pub fn render_events(
    events: &Vec<StructuralEvent>,
    state: &mut RenderState,
    ctx: &RenderContext,
) -> (outs: Vec<Rendered>)
    requires
        forall|i: int| 0 <= i < events@.len() ==> ev_wf(#[trigger] events@[i]@),
        old(state).anchors@.len() + events@.len() + 2 <= usize::MAX,
    ensures
        ({
            let (sf, ps) = run_steps(old(state)@, events.deep_view(), ctx@);
            &&& sans_error(final(state)@) == sans_error(sf)
            &&& err_matches(final(state)@.error, sf.error)
            &&& (sf.error is Some ==> final(state)@.error is Some)
            &&& (old(state)@.error is Some ==> final(state)@.error is Some)
            &&& outs@.len() == events@.len()
            &&& forall|j: int| 0 <= j < ps.len() ==> out_rel(ps[j], #[trigger] outs@[j]@, ctx@)
        }),
{
    let ghost evs = events.deep_view();
    let ghost s0 = old(state)@;
    let mut outs: Vec<Rendered> = Vec::new();
    let mut i: usize = 0;
    proof {
        assert(evs.subrange(0, 0) =~= Seq::<EvV>::empty());
    }
    while i < events.len()
        invariant
            i <= events@.len(),
            evs == events.deep_view(),
            evs.len() == events@.len(),
            forall|k: int| 0 <= k < events@.len() ==> ev_wf(#[trigger] events@[k]@),
            s0.anchors.len() + events@.len() + 2 <= usize::MAX,
            state.anchors@.len() <= s0.anchors.len() + i,
            outs@.len() == i,
            ({
                let (si, psi) = run_steps(s0, evs.subrange(0, i as int), ctx@);
                &&& sans_error(state@) == sans_error(si)
                &&& err_matches(state@.error, si.error)
                &&& (si.error is Some ==> state@.error is Some)
                &&& (s0.error is Some ==> state@.error is Some)
                &&& psi.len() == i
                &&& forall|j: int| 0 <= j < i ==> out_rel(psi[j], #[trigger] outs@[j]@, ctx@)
            }),
        decreases events@.len() - i,
    {
        let ghost pre = state@;
        let ghost (si, psi) = run_steps(s0, evs.subrange(0, i as int), ctx@);
        let ev = clone_event(&events[i]);
        assert(ev@ == evs[i as int]);
        let out = transform_event(state, ev, ctx);
        proof {
            lemma_step_error_irrelevant(pre, si, evs[i as int], ctx@);
            lemma_run_snoc(s0, evs.subrange(0, i as int), evs[i as int], ctx@);
            assert(evs.subrange(0, i as int).push(evs[i as int]) =~= evs.subrange(0, i + 1));
            let (s2, plan) = step(pre, evs[i as int], ctx@);
            let (si2, psi2) = run_steps(s0, evs.subrange(0, i + 1), ctx@);
            assert(psi2 =~= psi.push(plan));
        }
        outs.push(out);
        i += 1;
    }
    proof {
        assert(evs.subrange(0, i as int) =~= evs);
    }
    outs
}

/// Assembles the final outcome after the stream is drained: a recorded error
/// fails the whole call with that error and nothing else; otherwise the
/// residual empty paragraphs are stripped from the HTML and the header records
/// become the nested table of contents.
pub fn finish(html: String, state: RenderState) -> (r: Result<(String, Vec<Header>), RenderError>)
    ensures
        state@.error is Some ==> r is Err && r->Err_0@ == state@.error->0,
        state@.error is None ==> r is Ok && ({
            let p = r->Ok_0;
            p.0@ == strip_all(html@, empty_para()) && toc_matches(state@.headers, p.1@)
        }),
{
    let RenderState { error, headers, .. } = state;
    match error {
        Option::Some(e) => Result::Err(e),
        Option::None => {
            let chars = str_chars(html.as_str());
            let mut pat: Vec<char> = Vec::new();
            pat.push('<');
            pat.push('p');
            pat.push('>');
            pat.push('<');
            pat.push('/');
            pat.push('p');
            pat.push('>');
            proof {
                assert(pat@ =~= empty_para());
            }
            let stripped = strip_all_exec(&chars, &pat);
            let toc = make_table_of_contents(&headers);
            Result::Ok((chars_to_string(&stripped), toc))
        },
    }
}


// ---- laws of the pass ----

/// No plan of a run activates the highlighter.
pub open spec fn no_highlight_plans(ps: Seq<PlanV>) -> bool {
    forall|i: int| 0 <= i < ps.len() ==> !((#[trigger] ps[i]) is Highlight)
}

proof fn lemma_step_no_highlight(s: StateV, ev: EvV, c: CtxV)
    requires
        !s.should_highlight,
    ensures
        ({
            let (s1, p) = step(s, ev, c);
            &&& !(p is Highlight)
            &&& !s1.should_highlight
            &&& (ev is CodeBlockStart ==> p == PlanV::Emit(pre_code_open()))
            &&& (ev is CodeBlockEnd ==> p == PlanV::Emit(pre_code_close()))
        }),
{
}

proof fn lemma_run_no_highlight(s: StateV, evs: Seq<EvV>, c: CtxV)
    requires
        !s.should_highlight,
    ensures
        no_highlight_plans(run_steps(s, evs, c).1),
        !run_steps(s, evs, c).0.should_highlight,
    decreases evs.len(),
{
    if evs.len() > 0 {
        lemma_step_no_highlight(s, evs[0], c);
        let (s1, p) = step(s, evs[0], c);
        lemma_run_no_highlight(s1, evs.subrange(1, evs.len() as int), c);
        let ps = run_steps(s, evs, c).1;
        let pst = run_steps(s1, evs.subrange(1, evs.len() as int), c).1;
        assert(forall|i: int| 1 <= i < ps.len() ==> ps[i] == pst[i - 1]);
    }
}

/// Law: a document whose raw source holds no fenced-code marker never invokes
/// the highlighter, whatever the highlighting flag says. The up-front decision
/// is then off, so no step of the pass plans a highlighter call, and every
/// code block is emitted with the plain `<pre><code>` tags instead.
pub proof fn lemma_no_fence_never_highlights(
    content: Seq<char>,
    highlight_code: bool,
    evs: Seq<EvV>,
    c: CtxV,
)
    requires
        !contains_sub(content, fence_marker()),
    ensures
        no_highlight_plans(
            run_steps(
                init_state(highlight_code && contains_sub(content, fence_marker())),
                evs,
                c,
            ).1,
        ),
{
    lemma_run_no_highlight(
        init_state(highlight_code && contains_sub(content, fence_marker())),
        evs,
        c,
    );
}

/// Law: the round trip of a block shortcode. From a state with no open
/// shortcode, no active code block and no highlighter, the events of
/// `{% name(...) %}`, the body text, `{% end %}` and the paragraph end plan
/// exactly: empty output for both markers and the body (the body is gathered
/// verbatim), one template-engine call on (name, arguments, body), and empty
/// output for the suppressed paragraph end. A successful render therefore
/// leaves exactly the engine's output for (name, arguments, body) in the
/// stream, preceded by the early paragraph close and followed by no closing
/// paragraph tag.
pub proof fn lemma_block_shortcode_round_trip(
    s: StateV,
    open_text: Seq<char>,
    body: Seq<char>,
    end_text: Seq<char>,
    c: CtxV,
)
    requires
        s.shortcode is None,
        !s.highlighting,
        !s.in_code_block,
        starts_with(open_text, sc_open_block()),
        ends_with(open_text, sc_close_block()),
        parse_shortcode_spec(open_text) is Some,
        trim(body) != sc_end_tag(),
        trim(end_text) == sc_end_tag(),
    ensures
        ({
            let (name, args) = parse_shortcode_spec(open_text)->0;
            let (s1, p1) = step(s, EvV::Text(open_text), c);
            let (s2, p2) = step(s1, EvV::Text(body), c);
            let (s3, p3) = step(s2, EvV::Text(end_text), c);
            let (s4, p4) = step(s3, EvV::ParagraphEnd, c);
            &&& p1 == PlanV::Emit(Seq::<char>::empty())
            &&& p2 == PlanV::Emit(Seq::<char>::empty())
            &&& p3 == PlanV::RenderBlock(name, args, body)
            &&& s3.shortcode is None
            &&& s3.added_shortcode
            &&& p4 == PlanV::Emit(Seq::<char>::empty())
            &&& !s4.added_shortcode
        }),
{
    assert(open_text.subrange(0, 2)[1] == open_text[1]);
    assert(!starts_with(open_text, sc_open_inline()));
    let (s1, p1) = step(s, EvV::Text(open_text), c);
    let (s2, p2) = step(s1, EvV::Text(body), c);
    assert(s2.shortcode->0.body =~= body);
    let (name, args) = parse_shortcode_spec(open_text)->0;
    let (s3, p3) = step(s2, EvV::Text(end_text), c);
    assert(p3 =~~= PlanV::RenderBlock(name, args, body));
}

/// Law: the pass is deterministic. `run_steps` is a function of the initial
/// state, the events and the context alone, so two passes over the same
/// document with an unchanged permalink table and theme plan the same output;
/// and for every plan whose output the plan pins — including every highlighted
/// code block — the emitted text agrees byte for byte. (Only template-engine
/// text is not pinned: it agrees whenever the engine itself returns the same
/// text for the same input, which no fact of this crate can force.)
pub proof fn lemma_rendering_deterministic(plan: PlanV, o1: RenderedV, o2: RenderedV, c: CtxV)
    requires
        out_rel(plan, o1, c),
        out_rel(plan, o2, c),
        engine_free(plan),
    ensures
        o1 == o2,
{
}

/// A plan whose output is pinned by the plan and the context alone. Highlight
/// plans qualify: the highlighter's output and its success are named functions
/// of the theme and the block's own language token and text, so no state can
/// leak between blocks.
pub open spec fn engine_free(p: PlanV) -> bool {
    p is Keep || p is Emit || p is RewriteLink || p is Highlight
}

/// Law: idempotence of the whole pass. The planned run is a function of the
/// initial state, the events and the context alone, so two passes over the
/// same document with an unchanged permalink table and theme follow the same
/// plans; and wherever a plan consults no engine, the two passes' outputs are
/// byte-identical. (Engine outputs agree whenever the engines themselves are
/// deterministic, which no fact of this crate can force.)
pub proof fn lemma_pass_idempotent(
    s0: StateV,
    evs: Seq<EvV>,
    c: CtxV,
    outs1: Seq<RenderedV>,
    outs2: Seq<RenderedV>,
)
    requires
        outs1.len() == run_steps(s0, evs, c).1.len(),
        outs2.len() == outs1.len(),
        forall|j: int|
            0 <= j < outs1.len() ==> out_rel(run_steps(s0, evs, c).1[j], #[trigger] outs1[j], c),
        forall|j: int|
            0 <= j < outs2.len() ==> out_rel(run_steps(s0, evs, c).1[j], #[trigger] outs2[j], c),
    ensures
        forall|j: int|
            0 <= j < outs1.len() && engine_free(run_steps(s0, evs, c).1[j]) ==> #[trigger] outs1[j]
                == outs2[j],
{
    let ps = run_steps(s0, evs, c).1;
    assert forall|j: int|
        0 <= j < outs1.len() && engine_free(ps[j]) implies #[trigger] outs1[j] == outs2[j] by {
        lemma_rendering_deterministic(ps[j], outs1[j], outs2[j], c);
    }
}

proof fn lemma_run_keeps_error(s: StateV, evs: Seq<EvV>, c: CtxV)
    requires
        s.error is Some,
    ensures
        run_steps(s, evs, c).0.error is Some,
    decreases evs.len(),
{
    if evs.len() > 0 {
        lemma_step_error_irrelevant(s, s, evs[0], c);
        lemma_run_keeps_error(step(s, evs[0], c).0, evs.subrange(1, evs.len() as int), c);
    }
}

/// Law: a relative link whose target is missing from the permalink table
/// fails the whole call. The step on its link event records the
/// link-resolution error (first error wins), every later step keeps an error
/// once recorded, and `finish` on a state with a recorded error returns
/// exactly that error and no HTML or table of contents: no partial success.
pub proof fn lemma_missing_link_fails(s: StateV, dest: Seq<char>, evs: Seq<EvV>, c: CtxV)
    requires
        !s.in_header,
        starts_with(dest, seq!['.', '/']),
        resolve_spec(c.permalinks, dest) is None,
    ensures
        ({
            let (s1, p) = step(s, EvV::LinkStart(dest), c);
            &&& s1.error is Some
            &&& (s.error is None ==> s1.error == Option::Some(RenderErrorV::LinkNotFound(dest)))
            &&& p == PlanV::Emit(Seq::<char>::empty())
            &&& run_steps(s1, evs, c).0.error is Some
        }),
{
    let (s1, p) = step(s, EvV::LinkStart(dest), c);
    lemma_run_keeps_error(s1, evs, c);
}

} // verus!
