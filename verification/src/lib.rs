pub mod assoc;
pub mod bridge;
pub mod editor;
pub mod json;
pub mod pending;
pub mod persistence;
pub mod protocol;
pub mod registry;
pub mod terminal;
pub mod text;
pub mod workspace;

use vstd::prelude::*;

verus! {

/// Display name advertised in the negotiation response and in lock descriptors.
pub fn app_display_name() -> (r: &'static str)
    ensures
        r@ == "aiTerm"@,
{
    "aiTerm"
}

/// Version advertised in the negotiation response and in lock descriptors.
pub fn app_version() -> (r: &'static str)
    ensures
        r@ == "0.1.0"@,
{
    "0.1.0"
}

} // verus!
