//! Structured, mutable access to TOML text: parse a document, read and write
//! values through dotted key paths, and convert between the document model and
//! a dynamic host-value representation.

pub mod bindings;
pub mod codec;
pub mod doc;
pub mod host;
pub mod laws;
pub mod model;
pub mod path;

pub use doc::DocError;
pub use doc::TomlDocument;
pub use host::HostValue;
pub use host::SpecHost;
pub use model::SpecItem;
pub use model::SpecValue;
