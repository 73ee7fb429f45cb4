//! Named critic panels: the built-in presets and the resolution of a panel
//! name against the credentials config.

pub use crate::persona::{resolve_panel, resolved_panel, Panel};
