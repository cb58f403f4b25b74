//! Addresses of the endpoints.
use url::ParseError;
use vstd::prelude::*;

verus! {

/// Why `url` could not make an address.
#[verifier::external_type_specification]
#[verifier::external_body]
pub struct ExParseError(url::ParseError);

/// What `url::Url::join` makes of a path on a base address: the text of the
/// joined address, or the error.
pub uninterp spec fn url_join(base: Seq<char>, path: Seq<char>) -> Result<Seq<char>, ParseError>;

/// The displayed form of an error of `url`.
pub uninterp spec fn parse_error_text(error: ParseError) -> Seq<char>;

/// The outcome of a join as a mathematical value.
pub open spec fn joined_view(joined: Result<String, ParseError>) -> Result<Seq<char>, ParseError> {
    match joined {
        Ok(url) => Ok(url@),
        Err(error) => Err(error),
    }
}

/// `url::Url::join`, on the text of an absolute base address and on a relative
/// one; where the base is no address the error is that of `url::Url::parse`.
#[verifier::external_body]
pub(crate) fn join_url(base: &str, path: &str) -> (joined: Result<String, ParseError>)
    ensures
        joined_view(joined) == url_join(base@, path@),
{
    match url::Url::parse(base) {
        Ok(base) => match base.join(path) {
            Ok(url) => Ok(url.to_string()),
            Err(error) => Err(error),
        },
        Err(error) => Err(error),
    }
}

/// `url::ParseError` in its displayed form: one fixed sentence for each error.
#[verifier::external_body]
pub(crate) fn describe_parse_error(error: &ParseError) -> (text: String)
    ensures
        text@ == parse_error_text(*error),
{
    error.to_string()
}

/// The outcome of a join is seen as the text of the address or as the error.
pub proof fn law_a_join_is_seen_whole(joined: Result<String, ParseError>)
    ensures
        joined matches Ok(url) ==> joined_view(joined) == Ok::<Seq<char>, ParseError>(url@),
        joined matches Err(error) ==> joined_view(joined) == Err::<Seq<char>, ParseError>(error),
{
}

} // verus!
