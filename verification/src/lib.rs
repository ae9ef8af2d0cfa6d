//! A document-pipeline filter: it walks a JSON-like document tree, renders the
//! TeX source found in math nodes through the KaTeX engine, and replaces each
//! math node with a raw HTML node, leaving every other node unchanged.

pub mod doc;
pub mod options;
pub mod engine;
pub mod walker;
pub mod laws;

pub use doc::DocValue;
pub use doc::SpecDoc;
pub use options::RenderOptions;
pub use options::resolve_options;
pub use walker::RewriteError;
pub use walker::rewrite;
