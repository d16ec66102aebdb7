//! The structural events the transformer consumes, the rewritten events it
//! produces, and the errors a pass can record.

use vstd::prelude::*;

verus! {

/// One structural unit of a tokenized document, as the external tokenizer
/// reports it. Events the transformer does not act on arrive as `Other` and
/// pass through unchanged.
pub enum StructuralEvent {
    /// A run of text, inside or outside a block.
    Text(String),
    /// A soft line break inside a paragraph.
    SoftBreak,
    /// Start of a fenced or indented code block, with its info string.
    CodeBlockStart(String),
    CodeBlockEnd,
    /// Start of an inline code span.
    InlineCodeStart,
    InlineCodeEnd,
    /// Start of a header at the given nesting level (1 through 6).
    HeaderStart(u8),
    HeaderEnd,
    /// Start of a link with the given destination.
    LinkStart(String),
    LinkEnd,
    ParagraphEnd,
    /// Any event the transformer passes through untouched.
    Other,
}

/// The mathematical value of a `StructuralEvent`.
#[verifier::ext_equal]
pub enum EvV {
    Text(Seq<char>),
    SoftBreak,
    CodeBlockStart(Seq<char>),
    CodeBlockEnd,
    InlineCodeStart,
    InlineCodeEnd,
    HeaderStart(u8),
    HeaderEnd,
    LinkStart(Seq<char>),
    LinkEnd,
    ParagraphEnd,
    Other,
}

impl View for StructuralEvent {
    type V = EvV;

    open spec fn view(&self) -> EvV {
        match self {
            StructuralEvent::Text(t) => EvV::Text(t@),
            StructuralEvent::SoftBreak => EvV::SoftBreak,
            StructuralEvent::CodeBlockStart(info) => EvV::CodeBlockStart(info@),
            StructuralEvent::CodeBlockEnd => EvV::CodeBlockEnd,
            StructuralEvent::InlineCodeStart => EvV::InlineCodeStart,
            StructuralEvent::InlineCodeEnd => EvV::InlineCodeEnd,
            StructuralEvent::HeaderStart(l) => EvV::HeaderStart(*l),
            StructuralEvent::HeaderEnd => EvV::HeaderEnd,
            StructuralEvent::LinkStart(d) => EvV::LinkStart(d@),
            StructuralEvent::LinkEnd => EvV::LinkEnd,
            StructuralEvent::ParagraphEnd => EvV::ParagraphEnd,
            StructuralEvent::Other => EvV::Other,
        }
    }
}

impl DeepView for StructuralEvent {
    type V = EvV;

    open spec fn deep_view(&self) -> EvV {
        self.view()
    }
}

/// The tokenizer only emits header levels 1 through 6.
pub open spec fn ev_wf(ev: EvV) -> bool {
    match ev {
        EvV::HeaderStart(l) => 1 <= l <= 6,
        _ => true,
    }
}

/// The transformer's verdict on one event: pass it through, replace it with
/// verbatim HTML, or keep it as a link with a rewritten destination.
#[derive(Debug)]
pub enum Rendered {
    Keep,
    Html(String),
    Link(String),
}

#[verifier::ext_equal]
pub enum RenderedV {
    Keep,
    Html(Seq<char>),
    Link(Seq<char>),
}

impl View for Rendered {
    type V = RenderedV;

    open spec fn view(&self) -> RenderedV {
        match self {
            Rendered::Keep => RenderedV::Keep,
            Rendered::Html(h) => RenderedV::Html(h@),
            Rendered::Link(u) => RenderedV::Link(u@),
        }
    }
}

/// The two failures a pass can record: a template-rendering failure (from
/// either shortcode form or the anchor fragment) and a relative link whose
/// target is not in the permalink table.
#[derive(Debug)]
pub enum RenderError {
    Template(String),
    LinkNotFound(String),
}

#[verifier::ext_equal]
pub enum RenderErrorV {
    Template(Seq<char>),
    LinkNotFound(Seq<char>),
}

impl View for RenderError {
    type V = RenderErrorV;

    open spec fn view(&self) -> RenderErrorV {
        match self {
            RenderError::Template(m) => RenderErrorV::Template(m@),
            RenderError::LinkNotFound(l) => RenderErrorV::LinkNotFound(l@),
        }
    }
}

/// Where the anchor link fragment is inserted relative to a header's title.
#[derive(Clone, Copy, PartialEq, Eq, Structural)]
pub enum InsertAnchor {
    Left,
    Right,
    NoAnchor,
}

} // verus!
