//! The bar's side of the compositor's socket: which workspace a click asks
//! to focus, and what the compositor's reply means for the bar.
use vstd::prelude::*;
use crate::bar::WORKSPACE_COUNT;
use crate::ipc::WorkspaceReferenceArg;
use crate::text::{append, append_str, decimal, decimal_of, string_of};

verus! {

/// IPC client handle; the connection itself is held by the program that
/// sends the requests.
#[derive(Debug)]
pub struct IpcClient;

/// The error for a workspace index out of range.
pub open spec fn invalid_index_message(idx: nat) -> Seq<char> {
    "Invalid workspace index: "@ + decimal(idx)
}

/// The error for a refused focus request.
pub open spec fn refused_message(e: Seq<char>) -> Seq<char> {
    "FocusWorkspace failed: "@ + e
}

impl IpcClient {
    /// Switch to a specific workspace: the workspace to ask the compositor
    /// to focus, by its one-based index, or the error for an index past the
    /// last workspace.
    pub fn switch_workspace(&mut self, idx: usize) -> (r: Result<WorkspaceReferenceArg, String>)
        ensures
            idx < WORKSPACE_COUNT ==> (r matches Ok(WorkspaceReferenceArg::Index(n)) && n == idx
                + 1),
            idx >= WORKSPACE_COUNT ==> (r matches Err(e) && e@ == invalid_index_message(
                idx as nat,
            )),
    {
        if idx >= WORKSPACE_COUNT {
            let mut m: Vec<char> = Vec::new();
            append_str(&mut m, "Invalid workspace index: ");
            let d = decimal_of(idx as u64);
            append(&mut m, d.as_slice());
            return Err(string_of(m.as_slice()));
        }
        Ok(WorkspaceReferenceArg::Index(idx as u8 + 1))
    }

    /// What the compositor's reply to a focus request means: any response
    /// is a success, a refusal is an error that carries its reason.
    pub fn focus_outcome(reply: Result<(), String>) -> (r: Result<(), String>)
        ensures
            reply is Ok ==> r is Ok,
            reply matches Err(e) ==> (r matches Err(m) && m@ == refused_message(e@)),
    {
        match reply {
            Ok(()) => Ok(()),
            Err(e) => {
                let mut m: Vec<char> = Vec::new();
                append_str(&mut m, "FocusWorkspace failed: ");
                append(&mut m, crate::text::chars_of(e.as_str()).as_slice());
                Err(string_of(m.as_slice()))
            },
        }
    }
}

} // verus!
