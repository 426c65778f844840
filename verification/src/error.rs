//! Errors of loading and discovering VST3 plugins.
//!
//! Deliberately not `Copy`: `Io` and `MissingSymbol` carry heap data.  These
//! errors only arise on the scanning/loading (main) thread, never on the
//! audio thread.
use crate::text::{push_i32, signed_decimal};
use vstd::prelude::*;
use vstd::string::*;

verus! {

#[verifier::external_type_specification]
#[verifier::external_body]
pub struct ExIoError(std::io::Error);

/// Errors of loading and discovering VST3 plugins.
#[derive(Debug)]
pub enum Vst3Error {
    /// Opening the module or bundle on disk failed.
    Io { path: String, source: std::io::Error },
    /// The module loaded but does not export the entry point.
    MissingSymbol { path: String, symbol: &'static str },
    /// `GetPluginFactory` returned null.
    NullFactory { path: String },
    /// The requested class is not of category `kVstAudioEffectClass`.
    NotAnAudioEffect { class_id: String },
    /// `createInstance` returned a COM code other than `kResultOk`.
    InstantiationFailed { class_id: String, code: i32 },
}

/// `io::Error`'s `Display` text.  The operating system words it, so nothing
/// is stated of it.
#[verifier::external_body]
fn io_error_text(e: &std::io::Error) -> String {
    e.to_string()
}

/// The text of an I/O failure on `path`: the path, `: `, then the
/// operating system's description of the failure.
pub fn io_message(path: &String, os_text: &String) -> (m: String)
    ensures
        m@ == path@ + ": "@ + os_text@,
{
    let mut m = path.clone();
    m.append(": ");
    m.append(os_text.as_str());
    m
}

impl Vst3Error {
    /// The human-readable description of the error (its `Display` text).
    pub fn message(&self) -> (m: String)
        ensures
            match self {
                Vst3Error::Io { path, .. } => exists|t: Seq<char>| m@ == path@ + ": "@ + t,
                Vst3Error::MissingSymbol { path, symbol } => m@ == path@ + ": missing symbol `"@
                    + symbol@ + "`"@,
                Vst3Error::NullFactory { path } => m@ == path@
                    + ": GetPluginFactory returned null"@,
                Vst3Error::NotAnAudioEffect { class_id } => m@ == "class "@ + class_id@
                    + " is not a kVstAudioEffectClass"@,
                Vst3Error::InstantiationFailed { class_id, code } => m@ == "createInstance("@
                    + class_id@ + ") failed with code "@ + signed_decimal(*code as int),
            },
    {
        match self {
            Vst3Error::Io { path, source } => io_message(path, &io_error_text(source)),
            Vst3Error::MissingSymbol { path, symbol } => {
                let mut m = path.clone();
                m.append(": missing symbol `");
                m.append(symbol);
                m.append("`");
                m
            },
            Vst3Error::NullFactory { path } => {
                let mut m = path.clone();
                m.append(": GetPluginFactory returned null");
                m
            },
            Vst3Error::NotAnAudioEffect { class_id } => {
                let mut m = String::from_str("class ");
                m.append(class_id.as_str());
                m.append(" is not a kVstAudioEffectClass");
                m
            },
            Vst3Error::InstantiationFailed { class_id, code } => {
                let mut m = String::from_str("createInstance(");
                m.append(class_id.as_str());
                m.append(") failed with code ");
                push_i32(&mut m, *code);
                m
            },
        }
    }

    /// The underlying I/O error, for the `Io` variant only.
    pub fn source(&self) -> (s: Option<&std::io::Error>)
        ensures
            match self {
                Vst3Error::Io { source, .. } => s == Some(source),
                _ => s is None,
            },
    {
        match self {
            Vst3Error::Io { source, .. } => Some(source),
            _ => None,
        }
    }
}

} // verus!
