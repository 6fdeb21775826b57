//! Conversion of HTML into a renderable node model, with the stylesheet,
//! asset, emoji and template logic around it.
pub mod text;
pub mod resource;
pub mod emoji;
pub mod options;
pub mod error;
pub mod node;
pub mod assets;
pub mod whitespace;
pub mod metadata;
pub mod convert;
pub mod parser;
pub mod renderer_error;
pub mod api;
pub mod highlight;
pub mod markdown;
pub mod template;
pub mod cache;
pub mod renderer;
pub mod filters;
pub mod template_paths;
pub mod path_order;
