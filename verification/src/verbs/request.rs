//! `glide request`: a ready-to-send access request.

use vstd::prelude::*;

use crate::config::{push_owned, strs};
use crate::errors::GlideError;
use crate::text::{owned, push_str, push_string, string_of};

verus! {

/// A drafted access request and where to send it.
#[derive(Debug, Clone)]
pub struct RequestResponse {
    pub permission: String,
    pub for_person: Option<String>,
    pub draft_message: String,
    pub channels: Vec<String>,
    pub status: &'static str,
}

/// The message asking for `permission` on behalf of `who`.
pub open spec fn draft_text(permission: Seq<char>, who: Seq<char>) -> Seq<char> {
    "Hi team — could we get `"@ + permission + "` access for "@ + who
        + "? Blocking ramp; happy to provide context."@
}

/// Who the request is for: the named person, else the new hire.
pub open spec fn requester(for_person: Option<String>) -> Seq<char> {
    match for_person {
        Some(p) => p@,
        None => "the new hire"@,
    }
}

/// The status a draft carries: nothing is sent.
pub open spec fn draft_status() -> Seq<char> {
    "draft (no network send in v1; pipe to `pbcopy` or your sender of choice)"@
}

/// Drafts the request: a message naming the permission and who needs it,
/// the two channels it goes to, and a status saying nothing was sent.
pub fn request(permission: &str, for_person: Option<String>) -> (r: Result<RequestResponse, GlideError>)
    ensures
        r matches Ok(resp) && resp.permission@ == permission@ && resp.for_person == for_person
            && resp.draft_message@ == draft_text(permission@, requester(for_person))
            && strs(resp.channels@) == seq!["slack:#access-requests"@, "jira:ACCESS-NEW"@]
            && resp.status@ == draft_status(),
{
    let mut m: Vec<char> = Vec::new();
    push_str(&mut m, "Hi team — could we get `");
    push_str(&mut m, permission);
    push_str(&mut m, "` access for ");
    match &for_person {
        Some(p) => push_string(&mut m, p),
        None => push_str(&mut m, "the new hire"),
    }
    push_str(&mut m, "? Blocking ramp; happy to provide context.");
    let mut channels: Vec<String> = Vec::new();
    push_owned(&mut channels, "slack:#access-requests");
    push_owned(&mut channels, "jira:ACCESS-NEW");
    assert(strs(Seq::<String>::empty()) =~= Seq::<Seq<char>>::empty());
    assert(strs(channels@) =~= seq!["slack:#access-requests"@, "jira:ACCESS-NEW"@]);
    Ok(RequestResponse {
        permission: owned(permission),
        for_person,
        draft_message: string_of(&m),
        channels,
        status: "draft (no network send in v1; pipe to `pbcopy` or your sender of choice)",
    })
}

} // verus!
