//! Hall Parlors: plugin modules that extend Hall functionality (education,
//! watch-together, code-together). The interface is defined; no parlor is
//! implemented yet.

use vstd::prelude::*;

verus! {

/// Identifier for a parlor module type
#[derive(Debug, Clone, Copy, PartialEq, Eq, Structural, Hash)]
pub struct ParlorId(pub u128);

impl ParlorId {
    /// A fresh random identifier (a version-4 UUID).
    pub fn new() -> (p: Self)
        ensures
            crate::ids::is_v4_id(p.0),
    {
        ParlorId(crate::ids::new_id())
    }
}

/// Parlor module interface, for parlors to implement: they will add UI
/// panels, handle custom message types, sync state between members, and
/// define permissions.
pub trait ParlorModule {
    /// Unique identifier for this parlor type
    fn parlor_type_id(&self) -> &'static str;

    /// Human-readable name
    fn display_name(&self) -> &'static str;

    /// Called when parlor is activated in a Hall
    fn on_activate(&mut self, hall_id: u128);

    /// Called when parlor is deactivated
    fn on_deactivate(&mut self, hall_id: u128);
}

/// Registry for available parlor modules (none are registered yet)
#[derive(Debug)]
pub struct ParlorRegistry {
    modules: (),
}

impl ParlorRegistry {
    pub fn new() -> (r: Self) {
        ParlorRegistry { modules: () }
    }
}

impl Default for ParlorRegistry {
    fn default() -> (r: Self) {
        ParlorRegistry::new()
    }
}

} // verus!
