//! Jutsu Audio: the project model, its validation and file rules, the preset
//! library, the single-writer session layer, and the editor's own decisions,
//! each with a contract checked by Verus.

pub mod text;
pub mod digits;
pub mod model;
pub mod paths;
pub mod order;
pub mod store;
pub mod assets;
pub mod report;
pub mod bundle;
pub mod autosave;
pub mod presets;
pub mod session;
pub mod editor;
