//! What can go wrong in the library itself.
use url::ParseError;
use vstd::prelude::*;

verus! {

/// An error of the library.
#[derive(Debug)]
pub enum ClewdrError {
    /// The client asked for something that makes no sense.
    BadRequest { msg: &'static str },
    /// Something that should be known by now is not.
    UnexpectedNone { msg: &'static str },
    /// Anything else, in words, with what caused it.
    Whatever { message: String, source: Option<ParseError> },
}

/// An error as a mathematical value.
pub ghost enum ErrorView {
    BadRequest(Seq<char>),
    UnexpectedNone(Seq<char>),
    Whatever { message: Seq<char>, source: Option<ParseError> },
}

impl View for ClewdrError {
    type V = ErrorView;

    open spec fn view(&self) -> ErrorView {
        match self {
            ClewdrError::BadRequest { msg } => ErrorView::BadRequest(msg@),
            ClewdrError::UnexpectedNone { msg } => ErrorView::UnexpectedNone(msg@),
            ClewdrError::Whatever { message, source } => ErrorView::Whatever {
                message: message@,
                source: *source,
            },
        }
    }
}

/// An error is seen as its kind with its words and its cause.
pub proof fn law_an_error_is_seen_whole(error: ClewdrError)
    ensures
        error matches ClewdrError::BadRequest { msg } ==> error@ == ErrorView::BadRequest(msg@),
        error matches ClewdrError::UnexpectedNone { msg } ==> error@ == ErrorView::UnexpectedNone(
            msg@,
        ),
        error matches ClewdrError::Whatever { message, source } ==> (error@ matches
            ErrorView::Whatever { message: words, source: cause } && words == message@ && cause
            == source),
{
}

} // verus!
