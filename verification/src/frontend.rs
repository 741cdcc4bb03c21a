//! The message envelopes exchanged with frontends. The byte-level JSON
//! framing lives at the edge of the system; the decision layer works on
//! these decoded values.

use crate::library::preferences::{DiagType, FieldType, PreferenceDiag};
use crate::library::{
    LibraryItemDetails, LibraryItemFrontend, LibraryItemFrontendDetails, LibraryItemProviderMethods,
};
use crate::smap::StringMap;
use vstd::prelude::*;
use vstd::string::StringExecFns;

verus! {

/// Frontend --> core.
#[derive(Debug)]
pub enum FrontendActions {
    GetGameLibrary,
    GetFullGameLibrary,
    GetGameDetails(String),
    GameMethod(LibraryItemProviderMethods),
    RequestPreferenceDiag(String, DiagType),
    PreferenceDiagUpdate((String, DiagType), StringMap<FieldType>),
}

#[derive(Debug)]
pub struct FrontendEvent {
    pub version: String,
    pub uuid: Option<String>,
    pub action: FrontendActions,
}

/// Core --> frontend.
#[derive(Debug)]
pub enum CoreActions {
    SignalSuccessHandshake(String),
    ResponseGameLibrary(Vec<LibraryItemFrontend>),
    ResponseFullGameLibrary(Vec<LibraryItemFrontendDetails>),
    ResponseItemDetails(LibraryItemDetails),
    ResponseGameUpdate(LibraryItemFrontend),
    PreferenceDiagResponse((String, DiagType), PreferenceDiag),
    Error(String, String),
}

#[derive(Debug)]
pub struct CoreEvent {
    pub version: String,
    pub uuid: Option<String>,
    pub action: CoreActions,
}

impl CoreEvent {
    /// An envelope under the current protocol version; `uuid` is the
    /// correlation id echoed from the request, `None` on unsolicited
    /// events.
    pub fn new(action: CoreActions, uuid: Option<String>) -> (r: Self)
        ensures
            r.version@ == crate::protocol_version(),
            r.uuid == uuid,
            r.action == action,
    {
        CoreEvent { version: String::from_str("0.0.0"), uuid, action }
    }
}

} // verus!
