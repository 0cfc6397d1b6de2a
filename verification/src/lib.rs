//! High-level HTML helpers: slimming, pretty printing, CSS selection,
//! and conversions between HTML and Markdown.

pub mod error;
pub mod slim_options;
pub mod pretty_options;
pub mod text;
pub mod names;
pub mod dom;
pub mod escape;
pub mod elem;
pub mod slim;
pub mod inline;
pub mod pretty;
pub mod html_content;
pub mod select;
pub mod to_md_options;
pub mod to_md;
pub mod md_to_html_options;
pub mod md_to_html;

pub use slim_options::SlimOptions;
pub use error::{Error, Result};
pub use slim::slim;
pub use elem::{AttrMap, Elem};
pub use pretty_options::PrettyOptions;
pub use pretty::pretty;
pub use select::select;
pub use to_md::to_md;
pub use to_md_options::ToMdOptions;
pub use escape::decode_html_entities;
pub use md_to_html::md_to_html;
pub use md_to_html_options::MdToHtmlOptions;
pub use html_content::{HtmlContent, HtmlParsed};
