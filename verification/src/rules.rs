//! Game rules over system classification.

use vstd::prelude::*;

use crate::types::{security_class_of, system_class_of, SecurityClass, System, SystemClass};

verus! {

/// Whether a cynosural field can be lit in a system: only in known
/// space outside Highsec. The system's ID must lie in the recognized
/// range, as `SystemClass::from` demands.
pub fn allows_cynos(system: &System) -> (r: bool)
    requires
        system.id.0 < 32_000_000,
    ensures
        r == (system_class_of(system.id.0) == SystemClass::KSpace && security_class_of(
            system.security.0 as int,
        ) != SecurityClass::Highsec),
{
    let sec_class = SecurityClass::from(system.security);
    let sys_class = SystemClass::from(system);
    match (sys_class, sec_class) {
        (SystemClass::KSpace, SecurityClass::Highsec) => false,
        (SystemClass::KSpace, SecurityClass::Lowsec) => true,
        (SystemClass::KSpace, SecurityClass::Nullsec) => true,
        (SystemClass::WSpace, _) => false,
    }
}

} // verus!
