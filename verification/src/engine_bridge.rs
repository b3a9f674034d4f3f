//! Handles of the control connection to the browser engine.

use vstd::prelude::*;
use vstd::string::StringExecFns;

verus! {

/// Identifier of a tab inside the engine.
#[derive(Debug)]
pub struct TargetId(pub String);

/// A control connection to the engine.
#[derive(Debug)]
pub struct Engine {
    /// Address of the engine's control socket.
    pub ws_url: String,
}

impl Engine {
    /// The handle for the engine at `ws_url`.
    pub fn connect(ws_url: String) -> (e: Engine)
        ensures
            e.ws_url == ws_url,
    {
        Engine { ws_url }
    }

    /// The identifier under which a new tab is addressed. Until tabs are
    /// created through the control connection it is always `dummy`.
    pub fn new_tab(&self) -> (t: TargetId)
        ensures
            t.0@ == "dummy"@,
    {
        TargetId(String::from_str("dummy"))
    }
}

} // verus!
