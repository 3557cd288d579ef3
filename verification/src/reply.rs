//! What comes back when an action was carried out.
use vstd::prelude::*;
use vstd::string::*;

verus! {

/// The answer to an action: to a question `yes`, to a deed `error` where it failed.
#[derive(Debug)]
pub struct Reply {
    pub yes: bool,
    pub error: Option<String>,
}

pub struct ReplyView {
    pub yes: bool,
    pub error: Option<Seq<char>>,
}

impl DeepView for Reply {
    type V = ReplyView;

    open spec fn deep_view(&self) -> ReplyView {
        ReplyView { yes: self.yes, error: self.error.deep_view() }
    }
}

impl Reply {
    /// The answer to a question.
    pub fn answer(yes: bool) -> (r: Reply)
        ensures
            r.deep_view() == (ReplyView { yes, error: None }),
    {
        Reply { yes, error: None }
    }

    /// A deed that succeeded.
    pub fn done() -> (r: Reply)
        ensures
            r.deep_view() == (ReplyView { yes: true, error: None }),
    {
        Reply { yes: true, error: None }
    }

    /// A deed that failed.
    pub fn failed(error: String) -> (r: Reply)
        ensures
            r.deep_view() == (ReplyView { yes: false, error: Some(error@) }),
    {
        Reply { yes: false, error: Some(error) }
    }
}

} // verus!
