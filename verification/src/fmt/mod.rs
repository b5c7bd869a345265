//! Rendering of log lines: colors, icons, templates, tags, scopes and inline styles.
pub mod color;
pub mod style;
pub mod format;
pub mod tag;
pub mod scope;
pub mod icon;
pub mod highlight;
