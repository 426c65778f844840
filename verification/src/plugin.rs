//! A plugin class picked for loading, and the decisions made while loading
//! it and preparing it to play.
use crate::text::{push_i32, signed_decimal};
use vstd::prelude::*;
use vstd::string::*;

verus! {

/// The class of a plugin module to instantiate: its display name and its
/// 16-byte class id.
#[derive(Clone)]
pub struct PluginDescriptor {
    pub name: String,
    pub class_id: [i8; 16],
}

/// The COM result code of success (`kResultOk`).
pub const K_RESULT_OK: i32 = 0;

/// The error given when the factory hands back no component for the class
/// `name` names.
pub fn component_missing_message(name: &String) -> (m: String)
    ensures
        m@ == name@ + ": No se pudo instanciar el componente"@,
{
    let mut m = name.clone();
    m.append(": No se pudo instanciar el componente");
    m
}

/// Whether the component's audio processor is linked: the query for the
/// interface succeeded and handed back an object.
pub fn processor_linked(query_result: i32, object_is_null: bool) -> (linked: bool)
    ensures
        linked == (query_result == K_RESULT_OK && !object_is_null),
{
    query_result == K_RESULT_OK && !object_is_null
}

/// The outcome of preparing a plugin to play.  Without a processor there is
/// nothing to set up; with one, any result of `setupProcessing` other than
/// success is an error naming the plugin and the code.
pub fn setup_outcome(name: &String, has_processor: bool, setup_result: i32) -> (r: Result<(), String>)
    ensures
        r is Err <==> (has_processor && setup_result != K_RESULT_OK),
        r matches Err(m) ==> m@ == "Fallo setup_processing en "@ + name@ + ": "@ + signed_decimal(
            setup_result as int,
        ),
{
    if has_processor && setup_result != K_RESULT_OK {
        let mut m = String::from_str("Fallo setup_processing en ");
        m.append(name.as_str());
        m.append(": ");
        push_i32(&mut m, setup_result);
        Err(m)
    } else {
        Ok(())
    }
}

} // verus!
