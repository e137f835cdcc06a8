use vstd::prelude::*;

verus! {

/// Errors from the OpenDB layer or path handling.
#[derive(Debug, Clone, PartialEq, Eq)]
pub enum Error {
    /// An error surfaced by the C++ OpenDB layer (or by a composed edit), with its message.
    Odb(String),
    /// A path that is not valid UTF-8.
    NonUtf8Path,
}

/// What an [`Error`] means in contracts: the same shape, with the message as characters.
pub enum ErrorView {
    Odb(Seq<char>),
    NonUtf8Path,
}

impl View for Error {
    type V = ErrorView;

    open spec fn view(&self) -> ErrorView {
        match self {
            Error::Odb(m) => ErrorView::Odb(m@),
            Error::NonUtf8Path => ErrorView::NonUtf8Path,
        }
    }
}

/// The text an error is displayed as: the OpenDB message itself, or a fixed sentence for a
/// path that is not UTF-8.
pub open spec fn error_message(e: ErrorView) -> Seq<char> {
    match e {
        ErrorView::Odb(m) => m,
        ErrorView::NonUtf8Path => "path is not valid UTF-8"@,
    }
}

impl Error {
    /// The human-readable message of this error (what the error displays as).
    pub fn message(&self) -> (m: String)
        ensures
            m@ == error_message(self@),
    {
        match self {
            Error::Odb(m) => m.clone(),
            Error::NonUtf8Path => String::from_str("path is not valid UTF-8"),
        }
    }
}

} // verus!

verus! {

/// `std::str::from_utf8`, with the text copied out: `Some` exactly when `bytes` are well-formed
/// UTF-8, holding the characters they encode (std documents that `from_utf8` accepts exactly
/// valid UTF-8, and `str`'s characters are the ones its bytes encode).
#[verifier::external_body]
fn utf8_text(bytes: &[u8]) -> (r: Option<String>)
    ensures
        r is Some <==> vstd::utf8::valid_utf8(bytes@),
        r matches Some(s) ==> s@ == vstd::utf8::decode_utf8(bytes@),
{
    std::str::from_utf8(bytes).ok().map(String::from)
}

/// A path, given by its bytes, as a string: the text the bytes encode when they are valid
/// UTF-8, and [`Error::NonUtf8Path`] otherwise.
pub fn path_str(path: &[u8]) -> (r: Result<String, Error>)
    ensures
        match r {
            Ok(s) => vstd::utf8::valid_utf8(path@) && s@ == vstd::utf8::decode_utf8(path@),
            Err(e) => !vstd::utf8::valid_utf8(path@) && e@ == ErrorView::NonUtf8Path,
        },
{
    match utf8_text(path) {
        Some(s) => Ok(s),
        None => Err(Error::NonUtf8Path),
    }
}

} // verus!
