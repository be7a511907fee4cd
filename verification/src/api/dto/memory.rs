use vstd::prelude::*;

use crate::text::{is_empty_text, trim, trim_seq};

verus! {

/// Whose memory a request is about.
#[derive(Debug, Clone)]
pub struct MemoryQuery {
    pub user_id: Option<String>,
    pub agent_id: Option<String>,
}

/// The trimmed text, when it is not blank.
pub open spec fn present(o: Option<String>) -> Option<Seq<char>> {
    match o {
        Some(v) => if trim_seq(v@).len() > 0 {
            Some(trim_seq(v@))
        } else {
            None
        },
        None => None,
    }
}

fn present_exec(o: &Option<String>) -> (r: Option<String>)
    ensures
        match r {
            Some(v) => present(*o) == Some(v@),
            None => present(*o) is None,
        },
{
    match o {
        Some(v) => {
            let t = trim(v.as_str());
            if is_empty_text(t.as_str()) {
                None
            } else {
                Some(t)
            }
        },
        None => None,
    }
}

impl MemoryQuery {
    /// The user the query names: the trimmed user id, or else the trimmed
    /// agent id; blank ids count as absent.
    pub fn effective_user_id(&self) -> (r: Option<String>)
        ensures
            match r {
                Some(v) => Some(v@) == match present(self.user_id) {
                    Some(u) => Some(u),
                    None => present(self.agent_id),
                },
                None => present(self.user_id) is None && present(self.agent_id) is None,
            },
    {
        match present_exec(&self.user_id) {
            Some(u) => Some(u),
            None => present_exec(&self.agent_id),
        }
    }
}

/// A user's memory files.
#[derive(Debug)]
pub struct MemoryResponse {
    pub user_id: Option<String>,
    pub user_md: String,
    pub memory_md: String,
    pub count: usize,
}

/// The answer to deleting a session.
#[derive(Debug)]
pub struct SessionDeleteResponse {
    pub success: bool,
    pub session_id: String,
}

} // verus!
