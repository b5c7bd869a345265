//! Scope column rendering: casing and padding so the message column stays aligned.
use crate::fmt::tag::{pad, spec_apply, spec_pad, Alignment, Transform};
use vstd::prelude::*;

verus! {

/// How the scope column looks.
#[derive(Debug, Clone, Copy, PartialEq, Eq, Structural)]
pub struct ScopeConfig {
    /// Minimum width of the scope column.
    pub min_width: usize,
    /// Placement of the scope inside the width.
    pub alignment: Alignment,
    /// Casing of the scope.
    pub transform: Transform,
}

/// The rendered scope column.
pub open spec fn spec_format_scope(c: ScopeConfig, scope: Seq<char>) -> Seq<char> {
    spec_pad(spec_apply(c.transform, scope), c.min_width as nat, c.alignment)
}

impl ScopeConfig {
    /// Width 12, left-aligned, unchanged casing.
    pub fn new() -> (r: ScopeConfig)
        ensures
            r == (ScopeConfig {
                min_width: 12,
                alignment: Alignment::Left,
                transform: Transform::Unchanged,
            }),
    {
        ScopeConfig { min_width: 12, alignment: Alignment::Left, transform: Transform::Unchanged }
    }

    /// Sets the minimum width.
    pub fn min_width(self, width: usize) -> (r: ScopeConfig)
        ensures
            r == (ScopeConfig { min_width: width, ..self }),
    {
        ScopeConfig { min_width: width, ..self }
    }

    /// Sets the alignment.
    pub fn alignment(self, alignment: Alignment) -> (r: ScopeConfig)
        ensures
            r == (ScopeConfig { alignment, ..self }),
    {
        ScopeConfig { alignment, ..self }
    }

    /// Sets the casing.
    pub fn transform(self, transform: Transform) -> (r: ScopeConfig)
        ensures
            r == (ScopeConfig { transform, ..self }),
    {
        ScopeConfig { transform, ..self }
    }

    /// The scope transformed, then padded.
    pub fn format(&self, scope: &str) -> (r: String)
        ensures
            r@ == spec_format_scope(*self, scope@),
    {
        let transformed = self.transform.apply(scope);
        pad(transformed.as_str(), self.min_width, self.alignment)
    }
}

impl Default for ScopeConfig {
    fn default() -> (r: ScopeConfig)
        ensures
            r == (ScopeConfig {
                min_width: 12,
                alignment: Alignment::Left,
                transform: Transform::Unchanged,
            }),
    {
        ScopeConfig::new()
    }
}

} // verus!
