//! The head of an answer: its status and headers.
use vstd::prelude::*;

verus! {

/// The head of an answer.
#[derive(Debug, PartialEq, Eq)]
pub struct Reply {
    pub status: u16,
    pub headers: Vec<(String, String)>,
}

/// What a `Reply` holds.
#[verifier::ext_equal]
pub struct ReplyView {
    pub status: u16,
    pub headers: Seq<(Seq<char>, Seq<char>)>,
}

impl View for Reply {
    type V = ReplyView;

    open spec fn view(&self) -> ReplyView {
        ReplyView { status: self.status, headers: self.headers.deep_view() }
    }
}

impl DeepView for Reply {
    type V = ReplyView;

    open spec fn deep_view(&self) -> ReplyView {
        self@
    }
}

impl ReplyView {
    /// An answer without headers.
    pub open spec fn bare(status: u16) -> ReplyView {
        ReplyView { status, headers: Seq::empty() }
    }

    /// The answer with one more header.
    pub open spec fn with(self, name: Seq<char>, value: Seq<char>) -> ReplyView {
        ReplyView { status: self.status, headers: self.headers.push((name, value)) }
    }
}

impl Reply {
    /// An answer without headers.
    pub fn bare(status: u16) -> (r: Self)
        ensures
            r@ == ReplyView::bare(status),
    {
        let r = Reply { status, headers: Vec::new() };
        assert(r@ =~= ReplyView::bare(status));
        r
    }

    /// The answer with one more header.
    pub fn with(self, name: &str, value: &str) -> (r: Self)
        ensures
            r@ == self@.with(name@, value@),
    {
        let ghost before = self.headers.deep_view();
        let mut headers = self.headers;
        headers.push((name.to_string(), value.to_string()));
        assert(headers.deep_view() =~= before.push((name@, value@)));
        Reply { status: self.status, headers }
    }
}

} // verus!
