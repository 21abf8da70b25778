use crate::ident::is_well_formed_uuid;
use crate::ident::module_id_text;
use crate::ident::parse_module_id;
use crate::ident::spec_parse_uuid;
use crate::model::Module;
use crate::registry::spec_find_module;
use crate::registry::Registry;
use vstd::prelude::*;

verus! {

// The request-level operations behind the HTTP surface: the greeting, the
// catalog listing, and the lookup of one record by its textual identifier.
// A malformed identifier is a client error, reported before the snapshot is
// consulted at all; a well-formed but absent identifier is merely not found.

/// Why a lookup by textual identifier failed.
#[derive(Debug)]
pub enum GetModuleError {
    /// The given text is not a well-formed identifier; it is returned as is.
    UuidError(String),
    /// No record carries the identifier; its canonical text is returned.
    ModuleNotFound(String),
}

/// The greeting served at the root.
pub fn get_index() -> (r: &'static str)
    ensures
        r@ == "Hello from Nexus, the HotChocolate module registry!\nI'm blazing fast and memory-safe, as I'm written in Rust!"@,
{
    "Hello from Nexus, the HotChocolate module registry!\nI'm blazing fast and memory-safe, as I'm written in Rust!"
}

/// The whole current snapshot, in catalog order.
pub fn get_modules(registry: &Registry) -> (r: Vec<Module>)
    ensures
        r.deep_view() == registry@.modules,
{
    registry.get_modules()
}

/// Look one record up by its textual identifier. A text that is not a
/// well-formed identifier is rejected before the snapshot is consulted;
/// a well-formed identifier absent from the snapshot is not found.
pub fn get_module(registry: &Registry, uuid: String) -> (r: Result<Module, GetModuleError>)
    ensures
        match r {
            Ok(m) => spec_parse_uuid(uuid@) matches Some(id) && spec_find_module(
                registry@.modules,
                id,
            ) == Some(m@),
            Err(e) => match e {
                GetModuleError::UuidError(t) => spec_parse_uuid(uuid@) is None && t@ == uuid@,
                GetModuleError::ModuleNotFound(t) => spec_parse_uuid(uuid@) matches Some(id)
                    && spec_find_module(registry@.modules, id) is None && is_well_formed_uuid(t@)
                    && spec_parse_uuid(t@) == Some(id),
            },
        },
{
    let id = match parse_module_id(uuid.as_str()) {
        Some(id) => id,
        None => {
            return Err(GetModuleError::UuidError(uuid));
        },
    };
    match registry.get_module_by_uuid(id) {
        Some(m) => Ok(m),
        None => Err(GetModuleError::ModuleNotFound(module_id_text(id))),
    }
}

} // verus!
