//! What the server announces to an editor when a session begins.

use vstd::prelude::*;
use vstd::string::*;

verus! {

/// How an editor is to send the changes of a document.
#[derive(Clone, Copy, Debug, PartialEq, Eq, Structural)]
pub enum TextDocumentSyncKind {
    /// Not at all.
    Off,
    /// The whole text after every change.
    Full,
    /// Only what changed.
    Incremental,
}

/// What the server can do.
#[derive(Debug, PartialEq, Eq)]
pub struct ServerCapabilities {
    pub text_document_sync: TextDocumentSyncKind,
    /// The characters that make an editor ask for completions.
    pub completion_trigger_characters: Vec<String>,
    /// Whether completion items are filled in by a second request.
    pub completion_resolve_provider: bool,
    pub code_action_provider: bool,
}

/// The capabilities of this server: documents are sent whole; completions
/// are offered, anew behind a colon and behind a space, and complete at
/// once; code actions are offered.
pub fn server_capabilities() -> (capabilities: ServerCapabilities)
    ensures
        capabilities.text_document_sync == TextDocumentSyncKind::Full,
        capabilities.completion_trigger_characters@.len() == 2,
        capabilities.completion_trigger_characters@[0]@ == ":"@,
        capabilities.completion_trigger_characters@[1]@ == " "@,
        !capabilities.completion_resolve_provider,
        capabilities.code_action_provider,
{
    let mut triggers: Vec<String> = Vec::new();
    triggers.push(":".to_owned());
    triggers.push(" ".to_owned());
    ServerCapabilities {
        text_document_sync: TextDocumentSyncKind::Full,
        completion_trigger_characters: triggers,
        completion_resolve_provider: false,
        code_action_provider: true,
    }
}

}
