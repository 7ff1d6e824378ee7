//! A markup-to-widget compiler: it reads a declarative markup document
//! holding `<window>` fragments, resolves each tag to a widget kind, coerces
//! string attributes into typed configuration, assembles children into
//! parents bottom-up, and emits per-window build plans that a host
//! windowing runtime can replay.

pub mod text;
pub mod markup;
pub mod values;
pub mod lexer;
pub mod widget;
pub mod builder;
pub mod loader;
pub mod assembly;
pub mod laws;
pub mod dynamic;
