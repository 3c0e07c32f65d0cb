//! Tool-call permissions: what the harness and the UI exchange about a tool
//! call that waits for the user.

use crate::json::{Json, JsonView};
use vstd::prelude::*;

verus! {

/// The user's answer to a pending interaction.
#[derive(Debug, Clone, Copy, PartialEq, Eq, Structural)]
pub enum PermissionDecision {
    /// Allow for this call only.
    AllowOnce,
    /// Deny (an error is fed back to the model).
    Deny,
}

/// Payload the UI sends back: a bare allow/deny decision, or the answers
/// collected from the user.
#[derive(Debug)]
pub enum ToolAuthorizationResponse {
    Decision(PermissionDecision),
    AskUserQuestion {
        /// (question text, selected labels joined by ", " or free-form text).
        answers: Vec<(String, String)>,
        /// Free-form reply that dismisses the whole question card; when set,
        /// `answers` is ignored.
        response: Option<String>,
    },
}

/// Metadata of a pending interaction, kept so that the card can be shown again
/// when the user comes back to the thread.
#[derive(Debug, PartialEq, Eq)]
pub struct PendingAuthMeta {
    pub tool_name: String,
    pub summary: String,
    pub input: Json,
}

/// The mathematical value of a [`PendingAuthMeta`].
#[verifier::ext_equal]
pub struct PendingAuthMetaView {
    pub tool_name: Seq<char>,
    pub summary: Seq<char>,
    pub input: JsonView,
}

impl DeepView for PendingAuthMeta {
    type V = PendingAuthMetaView;

    open spec fn deep_view(&self) -> PendingAuthMetaView {
        PendingAuthMetaView {
            tool_name: self.tool_name@,
            summary: self.summary@,
            input: self.input.deep_view(),
        }
    }
}

impl Clone for PendingAuthMeta {
    fn clone(&self) -> (r: Self)
        ensures
            r.deep_view() == self.deep_view(),
    {
        let r = PendingAuthMeta {
            tool_name: self.tool_name.clone(),
            summary: self.summary.clone(),
            input: self.input.clone(),
        };
        r
    }
}

/// The view of a [`PendingAuthMeta`] is made of all its parts, each as it is.
pub proof fn pending_auth_meta_is_viewed_whole(x: &PendingAuthMeta)
    ensures
        x.deep_view() == (PendingAuthMetaView {
            tool_name: x.tool_name@,
            summary: x.summary@,
            input: x.input.deep_view(),
        }),
{
}

} // verus!
