//! Options that steer the HTML conversion.
use vstd::prelude::*;

use crate::emoji::EmojiType;

verus! {

/// What happens to references to local files (images, `url(..)` in CSS).
#[derive(Debug, Clone, Copy, PartialEq, Eq, Structural)]
pub enum LocalAssetMode {
    /// Keep the reference as written.
    Preserve,
    /// Replace it by a `data:` URI with the file's bytes.
    InlineDataUri,
    /// Replace it by the file's canonical absolute path.
    AbsolutePath,
}

impl Default for LocalAssetMode {
    fn default() -> (r: Self)
        ensures
            r == LocalAssetMode::Preserve,
    {
        LocalAssetMode::Preserve
    }
}

/// How HTML is converted: where relative references are resolved from,
/// whether linked stylesheets are read, what becomes of local assets,
/// whether whitespace is collapsed and which emoji images are used.
#[derive(Debug, Clone, PartialEq, Eq)]
pub struct FromHtmlOptions {
    pub base_path: Option<String>,
    pub load_linked_stylesheets: bool,
    pub resolve_local_assets: bool,
    pub local_asset_mode: Option<LocalAssetMode>,
    pub normalize_whitespace: bool,
    pub emoji_type: Option<EmojiType>,
}

/// The options with nothing enabled.
pub open spec fn default_options() -> FromHtmlOptions {
    FromHtmlOptions {
        base_path: None,
        load_linked_stylesheets: false,
        resolve_local_assets: false,
        local_asset_mode: None,
        normalize_whitespace: false,
        emoji_type: None,
    }
}

/// The local asset mode in force: the explicit mode if one was chosen,
/// otherwise data URIs when local assets are resolved and the reference as
/// written when not.
pub open spec fn effective_mode(options: FromHtmlOptions) -> LocalAssetMode {
    match options.local_asset_mode {
        Some(mode) => mode,
        None => if options.resolve_local_assets {
            LocalAssetMode::InlineDataUri
        } else {
            LocalAssetMode::Preserve
        },
    }
}

impl Default for FromHtmlOptions {
    fn default() -> (r: Self)
        ensures
            r == default_options(),
    {
        FromHtmlOptions {
            base_path: None,
            load_linked_stylesheets: false,
            resolve_local_assets: false,
            local_asset_mode: None,
            normalize_whitespace: false,
            emoji_type: None,
        }
    }
}

impl FromHtmlOptions {
    pub fn new() -> (r: Self)
        ensures
            r == default_options(),
    {
        Self::default()
    }

    /// Resolves relative references against `base_path`.
    pub fn with_base_path(self, base_path: &str) -> (r: Self)
        ensures
            r.base_path matches Some(p) && p@ == base_path@,
            r.load_linked_stylesheets == self.load_linked_stylesheets,
            r.resolve_local_assets == self.resolve_local_assets,
            r.local_asset_mode == self.local_asset_mode,
            r.normalize_whitespace == self.normalize_whitespace,
            r.emoji_type == self.emoji_type,
    {
        FromHtmlOptions { base_path: Some(base_path.to_owned()), ..self }
    }

    pub fn load_linked_stylesheets(self, enabled: bool) -> (r: Self)
        ensures
            r == (FromHtmlOptions { load_linked_stylesheets: enabled, ..self }),
    {
        FromHtmlOptions { load_linked_stylesheets: enabled, ..self }
    }

    /// Turns local asset resolution on or off; an explicit mode chosen before
    /// is forgotten.
    pub fn resolve_local_assets(self, enabled: bool) -> (r: Self)
        ensures
            r == (FromHtmlOptions { resolve_local_assets: enabled, local_asset_mode: None, ..self }),
    {
        FromHtmlOptions { resolve_local_assets: enabled, local_asset_mode: None, ..self }
    }

    /// Chooses the local asset mode; `resolve_local_assets` then says
    /// whether the mode is `InlineDataUri`.
    pub fn local_asset_mode(self, mode: LocalAssetMode) -> (r: Self)
        ensures
            r == (FromHtmlOptions {
                resolve_local_assets: mode == LocalAssetMode::InlineDataUri,
                local_asset_mode: Some(mode),
                ..self
            }),
    {
        let inline = match mode {
            LocalAssetMode::InlineDataUri => true,
            _ => false,
        };
        FromHtmlOptions { resolve_local_assets: inline, local_asset_mode: Some(mode), ..self }
    }

    pub fn normalize_whitespace(self, enabled: bool) -> (r: Self)
        ensures
            r == (FromHtmlOptions { normalize_whitespace: enabled, ..self }),
    {
        FromHtmlOptions { normalize_whitespace: enabled, ..self }
    }

    pub fn emoji_type(self, emoji_type: EmojiType) -> (r: Self)
        ensures
            r == (FromHtmlOptions { emoji_type: Some(emoji_type), ..self }),
    {
        FromHtmlOptions { emoji_type: Some(emoji_type), ..self }
    }

    /// The local asset mode in force.
    pub fn effective_local_asset_mode(&self) -> (r: LocalAssetMode)
        ensures
            r == effective_mode(*self),
    {
        match self.local_asset_mode {
            Some(mode) => mode,
            None => if self.resolve_local_assets {
                LocalAssetMode::InlineDataUri
            } else {
                LocalAssetMode::Preserve
            },
        }
    }
}

/// Choosing a mode makes it the mode in force, whatever was set before.
pub proof fn law_chosen_mode_is_effective(options: FromHtmlOptions, mode: LocalAssetMode)
    ensures
        effective_mode(
            FromHtmlOptions {
                resolve_local_assets: mode == LocalAssetMode::InlineDataUri,
                local_asset_mode: Some(mode),
                ..options
            },
        ) == mode,
{
}

/// Turning local asset resolution on means data URIs, turning it off means
/// references as written, whatever mode was chosen before.
pub proof fn law_resolve_local_assets_overrides_mode(options: FromHtmlOptions, enabled: bool)
    ensures
        effective_mode(
            FromHtmlOptions { resolve_local_assets: enabled, local_asset_mode: None, ..options },
        ) == if enabled {
            LocalAssetMode::InlineDataUri
        } else {
            LocalAssetMode::Preserve
        },
{
}

/// By default local references are kept as written.
pub proof fn law_default_preserves_assets()
    ensures
        effective_mode(default_options()) == LocalAssetMode::Preserve,
{
}

} // verus!
