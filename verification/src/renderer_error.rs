//! The errors of the rendering and templating front end.
use vstd::prelude::*;

use crate::error::HtmlError;

verus! {

/// What went wrong while rendering; each kind carries its message.
#[derive(Debug, Clone, PartialEq, Eq)]
pub enum RendererError {
    InvalidRequest(String),
    TemplateNotFound(String),
    Json(String),
    Template(String),
    Html(String),
    Font(String),
    Render(String),
    Encode(String),
    Io(String),
}

/// The kind of a [`RendererError`] and its message.
pub enum RendererErrorView {
    InvalidRequest(Seq<char>),
    TemplateNotFound(Seq<char>),
    Json(Seq<char>),
    Template(Seq<char>),
    Html(Seq<char>),
    Font(Seq<char>),
    Render(Seq<char>),
    Encode(Seq<char>),
    Io(Seq<char>),
}

impl View for RendererError {
    type V = RendererErrorView;

    open spec fn view(&self) -> RendererErrorView {
        match self {
            RendererError::InvalidRequest(m) => RendererErrorView::InvalidRequest(m@),
            RendererError::TemplateNotFound(m) => RendererErrorView::TemplateNotFound(m@),
            RendererError::Json(m) => RendererErrorView::Json(m@),
            RendererError::Template(m) => RendererErrorView::Template(m@),
            RendererError::Html(m) => RendererErrorView::Html(m@),
            RendererError::Font(m) => RendererErrorView::Font(m@),
            RendererError::Render(m) => RendererErrorView::Render(m@),
            RendererError::Encode(m) => RendererErrorView::Encode(m@),
            RendererError::Io(m) => RendererErrorView::Io(m@),
        }
    }
}

/// The text an error reads as: a phrase for its kind, then its message.
pub open spec fn renderer_error_text(e: RendererErrorView) -> Seq<char> {
    match e {
        RendererErrorView::InvalidRequest(m) => "invalid render request: "@ + m,
        RendererErrorView::TemplateNotFound(m) => "template not found: "@ + m,
        RendererErrorView::Json(m) => "failed to parse JSON context: "@ + m,
        RendererErrorView::Template(m) => "failed to render template: "@ + m,
        RendererErrorView::Html(m) => "failed to convert HTML: "@ + m,
        RendererErrorView::Font(m) => "failed to load font: "@ + m,
        RendererErrorView::Render(m) => "failed to render image: "@ + m,
        RendererErrorView::Encode(m) => "failed to encode image: "@ + m,
        RendererErrorView::Io(m) => "I/O error: "@ + m,
    }
}

fn prefixed(prefix: &str, message: &String) -> (r: String)
    ensures
        r@ == prefix@ + message@,
{
    let mut r = prefix.to_owned();
    r.append(message.as_str());
    r
}

impl RendererError {
    /// The text the error reads as.
    pub fn message(&self) -> (r: String)
        ensures
            r@ == renderer_error_text(self@),
    {
        match self {
            RendererError::InvalidRequest(m) => prefixed("invalid render request: ", m),
            RendererError::TemplateNotFound(m) => prefixed("template not found: ", m),
            RendererError::Json(m) => prefixed("failed to parse JSON context: ", m),
            RendererError::Template(m) => prefixed("failed to render template: ", m),
            RendererError::Html(m) => prefixed("failed to convert HTML: ", m),
            RendererError::Font(m) => prefixed("failed to load font: ", m),
            RendererError::Render(m) => prefixed("failed to render image: ", m),
            RendererError::Encode(m) => prefixed("failed to encode image: ", m),
            RendererError::Io(m) => prefixed("I/O error: ", m),
        }
    }

    pub fn invalid_request(message: &str) -> (r: Self)
        ensures
            r@ == RendererErrorView::InvalidRequest(message@),
    {
        RendererError::InvalidRequest(message.to_owned())
    }

    pub fn template_not_found(message: &str) -> (r: Self)
        ensures
            r@ == RendererErrorView::TemplateNotFound(message@),
    {
        RendererError::TemplateNotFound(message.to_owned())
    }

    pub fn encode(message: &str) -> (r: Self)
        ensures
            r@ == RendererErrorView::Encode(message@),
    {
        RendererError::Encode(message.to_owned())
    }

    /// A conversion failure, with the conversion error's text.
    pub fn from_html_error(error: &HtmlError) -> (r: Self)
        ensures
            r@ == RendererErrorView::Html(crate::error::error_message(error@)),
    {
        RendererError::Html(error.message())
    }
}

} // verus!
