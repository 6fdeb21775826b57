//! The request and result types of the rendering and templating front end.
use takumi::prelude::{OutputFormat, Quality};
use vstd::prelude::*;

verus! {

/// The encoding of a rendered image.
#[derive(Debug, Clone, Copy, PartialEq, Eq, Structural)]
pub enum ImageFormat {
    Png,
    WebP,
    Jpeg,
}

/// The media type of each image encoding.
pub open spec fn format_media_type(format: ImageFormat) -> Seq<char> {
    match format {
        ImageFormat::Png => "image/png"@,
        ImageFormat::WebP => "image/webp"@,
        ImageFormat::Jpeg => "image/jpeg"@,
    }
}

/// `OutputFormat::content_type` from takumi, for the output format that
/// stands for `format` (the quality given plays no part in it). Claims the
/// media types that the function's source returns for those formats.
#[verifier::external_body]
fn output_content_type(format: ImageFormat) -> (r: String)
    ensures
        r@ == format_media_type(format),
{
    match format {
        ImageFormat::Png => OutputFormat::Png,
        ImageFormat::WebP => OutputFormat::WebP { quality: Quality::default() },
        ImageFormat::Jpeg => OutputFormat::Jpeg { quality: Quality::default() },
    }.content_type().to_owned()
}

impl ImageFormat {
    /// The media type of the encoding.
    pub fn content_type(self) -> (r: String)
        ensures
            r@ == format_media_type(self),
    {
        output_content_type(self)
    }
}

/// A template given in the request itself, with the name it is known by.
#[derive(Debug, Clone, PartialEq, Eq)]
pub struct InlineTemplateInput {
    pub source: String,
    pub logical_name: Option<String>,
}

/// Where a template comes from: the request, a file, or the templates
/// registered by name.
#[derive(Debug, Clone, PartialEq, Eq)]
pub enum TemplateInput {
    Inline(InlineTemplateInput),
    File(String),
    Registered(String),
}

/// What a template holds: Markdown, a Jinja template of HTML, or a Jinja
/// template of Markdown.
#[derive(Debug, Clone, Copy, PartialEq, Eq, Structural)]
pub enum TemplateContentKind {
    Markdown,
    JinjaHtml,
    JinjaMarkdown,
}

impl TemplateContentKind {
    pub open spec fn needs_jinja(self) -> bool {
        self == TemplateContentKind::JinjaHtml || self == TemplateContentKind::JinjaMarkdown
    }

    pub open spec fn needs_markdown(self) -> bool {
        self == TemplateContentKind::Markdown || self == TemplateContentKind::JinjaMarkdown
    }

    /// Whether the content is rendered as a Jinja template first.
    pub fn requires_jinja(self) -> (r: bool)
        ensures
            r == self.needs_jinja(),
    {
        match self {
            TemplateContentKind::JinjaHtml | TemplateContentKind::JinjaMarkdown => true,
            TemplateContentKind::Markdown => false,
        }
    }

    /// Whether the content is turned from Markdown into HTML.
    pub fn requires_markdown(self) -> (r: bool)
        ensures
            r == self.needs_markdown(),
    {
        match self {
            TemplateContentKind::Markdown | TemplateContentKind::JinjaMarkdown => true,
            TemplateContentKind::JinjaHtml => false,
        }
    }
}

/// A request to render a template into markup.
#[derive(Debug, Clone, PartialEq, Eq)]
pub struct TemplateRequest {
    pub input: TemplateInput,
    pub context_json: Option<String>,
    pub content_kind: TemplateContentKind,
    pub syntax_theme: Option<String>,
}

/// The HTML to render: given in the request, or the path of a file.
#[derive(Debug, Clone, PartialEq, Eq)]
pub enum RenderInput {
    Inline(String),
    File(String),
}

/// A rendered image: its encoded bytes, encoding, size and media type.
#[derive(Debug, Clone, PartialEq, Eq)]
pub struct RenderedImage {
    pub bytes: Vec<u8>,
    pub format: ImageFormat,
    pub width: u32,
    pub height: u32,
    pub content_type: Option<String>,
}

/// The size of a laid-out document.
#[derive(Debug, Clone, Copy, PartialEq, Eq, Structural)]
pub struct MeasuredLayout {
    pub width: u32,
    pub height: u32,
}

} // verus!
