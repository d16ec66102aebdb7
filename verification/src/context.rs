//! The read-only configuration of one rendering call, and the trusted
//! boundaries to the template engine and the syntax highlighter.

use vstd::prelude::*;
use crate::events::InsertAnchor;

verus! {

/// Relies on `tera::Tera` being an ordinary owned type; declared so a template
/// engine handle can sit in a field and be passed to the rendering wrapper.
#[verifier::external_type_specification]
#[verifier::external_body]
pub struct ExTera(tera::Tera);

/// Read-only configuration for one rendering call.
pub struct RenderContext {
    /// The template engine used for shortcodes and anchor-link fragments.
    pub tera: tera::Tera,
    /// Permalink of the page being rendered; header permalinks extend it.
    pub current_page_permalink: String,
    /// The `(relative path, permalink)` table used for link resolution.
    pub permalinks: Vec<(String, String)>,
    /// Where anchor fragments go relative to header titles.
    pub insert_anchor: InsertAnchor,
    /// Whether code blocks may be highlighted at all.
    pub highlight_code: bool,
    /// Name of the highlighting theme.
    pub highlight_theme: String,
}

/// The mathematical value of a `RenderContext`; the engine handle itself has
/// no value-level content.
#[verifier::ext_equal]
pub struct CtxV {
    pub current_page_permalink: Seq<char>,
    pub permalinks: Seq<(Seq<char>, Seq<char>)>,
    pub insert_anchor: InsertAnchor,
    pub highlight_code: bool,
    pub highlight_theme: Seq<char>,
}

impl View for RenderContext {
    type V = CtxV;

    open spec fn view(&self) -> CtxV {
        CtxV {
            current_page_permalink: self.current_page_permalink@,
            permalinks: self.permalinks.deep_view(),
            insert_anchor: self.insert_anchor,
            highlight_code: self.highlight_code,
            highlight_theme: self.highlight_theme@,
        }
    }
}

impl RenderContext {
    pub fn new(
        tera: tera::Tera,
        highlight_code: bool,
        highlight_theme: String,
        current_page_permalink: String,
        permalinks: Vec<(String, String)>,
        insert_anchor: InsertAnchor,
    ) -> (r: Self)
        ensures
            r@ == (CtxV {
                current_page_permalink: current_page_permalink@,
                permalinks: permalinks.deep_view(),
                insert_anchor: insert_anchor,
                highlight_code: highlight_code,
                highlight_theme: highlight_theme@,
            }),
    {
        RenderContext {
            tera,
            current_page_permalink,
            permalinks,
            insert_anchor,
            highlight_code,
            highlight_theme,
        }
    }

    /// Whether an anchor fragment is inserted at all.
    pub fn should_insert_anchor(&self) -> (r: bool)
        ensures
            r == (self@.insert_anchor != InsertAnchor::NoAnchor),
    {
        match self.insert_anchor {
            InsertAnchor::Left => true,
            InsertAnchor::Right => true,
            InsertAnchor::NoAnchor => false,
        }
    }
}

/// Relies on `tera::Tera::render` and `tera::Context::insert`: renders the
/// named template with the given string arguments. What comes back depends on
/// the templates the engine holds, so nothing is claimed of the text; the
/// error case carries the engine's message.
#[verifier::external_body]
pub fn render_template(tera: &tera::Tera, template: &str, args: &Vec<(String, String)>) -> (r:
    Result<String, String>) {
    let mut c = tera::Context::new();
    for (k, v) in args.iter() {
        c.insert(k.clone(), v);
    }
    match tera.render(template, &c) {
        Ok(s) => Ok(s),
        Err(e) => Err(e.to_string()),
    }
}

/// What the syntax highlighter produces for one whole code block, given the
/// theme name, the language token and the code text. The grammar and theme
/// sets are fixed assets embedded in the highlighting crate, so the result is
/// a pure function of the arguments.
pub uninterp spec fn highlighted_of(theme: Seq<char>, lang: Seq<char>, code: Seq<char>) -> Seq<
    char,
>;

/// Whether highlighting a code block succeeds: the theme name is in the
/// default theme set and the highlighting pass itself goes through. Both
/// depend only on the arguments and the crate's fixed embedded assets.
pub uninterp spec fn hl_ok(theme: Seq<char>, lang: Seq<char>, code: Seq<char>) -> bool;

/// Relies on syntect: `SyntaxSet::load_defaults_newlines`,
/// `ThemeSet::load_defaults`, `find_syntax_by_token` (with
/// `find_syntax_plain_text` as the fallback for unknown language tokens) and
/// `highlighted_html_for_string`. `None` exactly when the theme name is not in
/// the default theme set or the highlighting pass itself fails — a condition
/// on the arguments alone, named `hl_ok`.
#[verifier::external_body]
pub fn highlight_block(theme: &str, lang: &str, code: &str) -> (r: Option<String>)
    ensures
        r is Some <==> hl_ok(theme@, lang@, code@),
        r is Some ==> r->0@ == highlighted_of(theme@, lang@, code@),
{
    let ss = syntect::parsing::SyntaxSet::load_defaults_newlines();
    let ts = syntect::highlighting::ThemeSet::load_defaults();
    let th = match ts.themes.get(theme) {
        Some(t) => t,
        None => return None,
    };
    let syntax = match ss.find_syntax_by_token(lang) {
        Some(s) => s,
        None => ss.find_syntax_plain_text(),
    };
    syntect::html::highlighted_html_for_string(code, &ss, syntax, th).ok()
}

} // verus!
