//! Runtime localization: a dictionary of translated templates, selected by
//! locale and rendered with positional or named values.

pub mod dictionary;
pub mod laws;
pub mod limits;
pub mod render;
pub mod resource;
pub mod snapshot;

pub use dictionary::Dictionary;
pub use render::{can_render, render, Arguments, FormatError};
pub use resource::Resource;
pub use snapshot::ParseError;
