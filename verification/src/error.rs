//! The errors of the HTML conversion.
use vstd::prelude::*;

verus! {

/// Why an HTML document could not be converted.
#[derive(Debug, Clone, PartialEq, Eq)]
pub enum HtmlError {
    MissingImageSource { tag_name: String },
    MissingLinkedStylesheetHref { tag_name: String },
    MissingBasePathForRelativeReference { reference: String, kind: String },
    AssetReadFailed { path: String, reason: String },
    InlineStyleParse { tag_name: String, value: String, reason: String },
}

pub enum HtmlErrorView {
    MissingImageSource { tag_name: Seq<char> },
    MissingLinkedStylesheetHref { tag_name: Seq<char> },
    MissingBasePathForRelativeReference { reference: Seq<char>, kind: Seq<char> },
    AssetReadFailed { path: Seq<char>, reason: Seq<char> },
    InlineStyleParse { tag_name: Seq<char>, value: Seq<char>, reason: Seq<char> },
}

impl View for HtmlError {
    type V = HtmlErrorView;

    open spec fn view(&self) -> HtmlErrorView {
        match self {
            HtmlError::MissingImageSource { tag_name } => HtmlErrorView::MissingImageSource {
                tag_name: tag_name@,
            },
            HtmlError::MissingLinkedStylesheetHref { tag_name } =>
                HtmlErrorView::MissingLinkedStylesheetHref { tag_name: tag_name@ },
            HtmlError::MissingBasePathForRelativeReference { reference, kind } =>
                HtmlErrorView::MissingBasePathForRelativeReference {
                reference: reference@,
                kind: kind@,
            },
            HtmlError::AssetReadFailed { path, reason } => HtmlErrorView::AssetReadFailed {
                path: path@,
                reason: reason@,
            },
            HtmlError::InlineStyleParse { tag_name, value, reason } =>
                HtmlErrorView::InlineStyleParse {
                tag_name: tag_name@,
                value: value@,
                reason: reason@,
            },
        }
    }
}

/// The human-readable message of an error.
pub open spec fn error_message(e: HtmlErrorView) -> Seq<char> {
    match e {
        HtmlErrorView::MissingImageSource { tag_name } => "<"@ + tag_name
            + "> elements require a src attribute"@,
        HtmlErrorView::MissingLinkedStylesheetHref { tag_name } => "<"@ + tag_name
            + "> stylesheet links require an href attribute"@,
        HtmlErrorView::MissingBasePathForRelativeReference { reference, kind } =>
            "cannot resolve relative "@ + kind + " reference `"@ + reference
            + "` without a base_path"@,
        HtmlErrorView::AssetReadFailed { path, reason } => "failed to read asset `"@ + path
            + "` ("@ + reason + ")"@,
        HtmlErrorView::InlineStyleParse { tag_name, value, reason } =>
            "failed to parse inline style on <"@ + tag_name + ">: `"@ + value + "` ("@ + reason
            + ")"@,
    }
}

impl HtmlError {
    /// The human-readable message, as `Display` would write it.
    pub fn message(&self) -> (m: String)
        ensures
            m@ == error_message(self@),
    {
        let mut m = String::new();
        match self {
            HtmlError::MissingImageSource { tag_name } => {
                m.append("<");
                m.append(tag_name.as_str());
                m.append("> elements require a src attribute");
            },
            HtmlError::MissingLinkedStylesheetHref { tag_name } => {
                m.append("<");
                m.append(tag_name.as_str());
                m.append("> stylesheet links require an href attribute");
            },
            HtmlError::MissingBasePathForRelativeReference { reference, kind } => {
                m.append("cannot resolve relative ");
                m.append(kind.as_str());
                m.append(" reference `");
                m.append(reference.as_str());
                m.append("` without a base_path");
            },
            HtmlError::AssetReadFailed { path, reason } => {
                m.append("failed to read asset `");
                m.append(path.as_str());
                m.append("` (");
                m.append(reason.as_str());
                m.append(")");
            },
            HtmlError::InlineStyleParse { tag_name, value, reason } => {
                m.append("failed to parse inline style on <");
                m.append(tag_name.as_str());
                m.append(">: `");
                m.append(value.as_str());
                m.append("` (");
                m.append(reason.as_str());
                m.append(")");
            },
        }
        m
    }
}

} // verus!
