//! Errors of a client which fetches data from storage services.
use vstd::prelude::*;

verus! {

/// An error returned by the data client for failed calls.
#[derive(Clone, Debug, PartialEq, Eq)]
pub enum Error {
    DataIsUnavailable(String),
    DataIsTooLarge(String),
    InvalidRequest(String),
    InvalidResponse(String),
    TimeoutWaitingForResponse(String),
    UnexpectedErrorEncountered(String),
}

/// The mathematical value of an [`Error`].
pub enum ErrorView {
    DataIsUnavailable(Seq<char>),
    DataIsTooLarge(Seq<char>),
    InvalidRequest(Seq<char>),
    InvalidResponse(Seq<char>),
    TimeoutWaitingForResponse(Seq<char>),
    UnexpectedErrorEncountered(Seq<char>),
}

impl ErrorView {
    /// The label of the error.
    pub open spec fn label(self) -> Seq<char> {
        match self {
            ErrorView::DataIsUnavailable(_) => "data_is_unavailable"@,
            ErrorView::DataIsTooLarge(_) => "data_is_too_large"@,
            ErrorView::InvalidRequest(_) => "invalid_request"@,
            ErrorView::InvalidResponse(_) => "invalid_response"@,
            ErrorView::TimeoutWaitingForResponse(_) => "timeout_waiting_for_response"@,
            ErrorView::UnexpectedErrorEncountered(_) => "unexpected_error_encountered"@,
        }
    }

    /// The text of the error.
    pub open spec fn text(self) -> Seq<char> {
        match self {
            ErrorView::DataIsUnavailable(detail) =>
                "The requested data is unavailable and cannot be found! Error: "@ + detail,
            ErrorView::DataIsTooLarge(detail) => "The requested data is too large: "@ + detail,
            ErrorView::InvalidRequest(detail) => "Invalid request: "@ + detail,
            ErrorView::InvalidResponse(detail) => "Invalid response: "@ + detail,
            ErrorView::TimeoutWaitingForResponse(detail) =>
                "Timed out waiting for a response: "@ + detail,
            ErrorView::UnexpectedErrorEncountered(detail) =>
                "Unexpected error encountered: "@ + detail,
        }
    }

    /// Whether two errors are of one kind.
    pub open spec fn same_kind(self, other: ErrorView) -> bool {
        &&& self is DataIsUnavailable <==> other is DataIsUnavailable
        &&& self is DataIsTooLarge <==> other is DataIsTooLarge
        &&& self is InvalidRequest <==> other is InvalidRequest
        &&& self is InvalidResponse <==> other is InvalidResponse
        &&& self is TimeoutWaitingForResponse <==> other is TimeoutWaitingForResponse
        &&& self is UnexpectedErrorEncountered <==> other is UnexpectedErrorEncountered
    }
}

impl View for Error {
    type V = ErrorView;

    open spec fn view(&self) -> ErrorView {
        match *self {
            Error::DataIsUnavailable(detail) => ErrorView::DataIsUnavailable(detail@),
            Error::DataIsTooLarge(detail) => ErrorView::DataIsTooLarge(detail@),
            Error::InvalidRequest(detail) => ErrorView::InvalidRequest(detail@),
            Error::InvalidResponse(detail) => ErrorView::InvalidResponse(detail@),
            Error::TimeoutWaitingForResponse(detail) => ErrorView::TimeoutWaitingForResponse(
                detail@,
            ),
            Error::UnexpectedErrorEncountered(detail) => ErrorView::UnexpectedErrorEncountered(
                detail@,
            ),
        }
    }
}

impl Error {
    /// Returns a summary label for the error.
    pub fn get_label(&self) -> (label: &'static str)
        ensures
            label@ == self@.label(),
            *self is DataIsUnavailable ==> label@ == "data_is_unavailable"@,
            *self is DataIsTooLarge ==> label@ == "data_is_too_large"@,
            *self is InvalidRequest ==> label@ == "invalid_request"@,
            *self is InvalidResponse ==> label@ == "invalid_response"@,
            *self is TimeoutWaitingForResponse ==> label@ == "timeout_waiting_for_response"@,
            *self is UnexpectedErrorEncountered ==> label@ == "unexpected_error_encountered"@,
    {
        match self {
            Error::DataIsUnavailable(_) => "data_is_unavailable",
            Error::DataIsTooLarge(_) => "data_is_too_large",
            Error::InvalidRequest(_) => "invalid_request",
            Error::InvalidResponse(_) => "invalid_response",
            Error::TimeoutWaitingForResponse(_) => "timeout_waiting_for_response",
            Error::UnexpectedErrorEncountered(_) => "unexpected_error_encountered",
        }
    }

    /// Returns true iff the error is a timeout error.
    pub fn is_timeout(&self) -> (timeout: bool)
        ensures
            timeout == (self@ is TimeoutWaitingForResponse),
            timeout <==> *self is TimeoutWaitingForResponse,
    {
        match self {
            Error::TimeoutWaitingForResponse(_) => true,
            _ => false,
        }
    }

    /// Returns the text of the error.
    pub fn to_string(&self) -> (text: String)
        ensures
            text@ == self@.text(),
            *self matches Error::DataIsUnavailable(detail) ==> text@ == "The requested data is unavailable and cannot be found! Error: "@
                + detail@,
            *self matches Error::DataIsTooLarge(detail) ==> text@ == "The requested data is too large: "@
                + detail@,
            *self matches Error::InvalidRequest(detail) ==> text@ == "Invalid request: "@
                + detail@,
            *self matches Error::InvalidResponse(detail) ==> text@ == "Invalid response: "@
                + detail@,
            *self matches Error::TimeoutWaitingForResponse(detail) ==> text@ == "Timed out waiting for a response: "@
                + detail@,
            *self matches Error::UnexpectedErrorEncountered(detail) ==> text@ == "Unexpected error encountered: "@
                + detail@,
    {
        let (opening, detail): (&str, &String) = match self {
            Error::DataIsUnavailable(detail) => (
                "The requested data is unavailable and cannot be found! Error: ",
                detail,
            ),
            Error::DataIsTooLarge(detail) => ("The requested data is too large: ", detail),
            Error::InvalidRequest(detail) => ("Invalid request: ", detail),
            Error::InvalidResponse(detail) => ("Invalid response: ", detail),
            Error::TimeoutWaitingForResponse(detail) => (
                "Timed out waiting for a response: ",
                detail,
            ),
            Error::UnexpectedErrorEncountered(detail) => ("Unexpected error encountered: ", detail),
        };
        let mut text: String = opening.to_owned();
        text.append(detail.as_str());
        text
    }

    /// Returns the error for a failure of the storage service client, which
    /// `message` describes.
    pub fn from_client_failure(message: String) -> (error: Error)
        ensures
            error@ == ErrorView::UnexpectedErrorEncountered(message@),
            error matches Error::UnexpectedErrorEncountered(detail) && detail@ == message@,
    {
        Error::UnexpectedErrorEncountered(message)
    }

    /// Returns the error for a response of a storage service which is itself
    /// an error, which `message` describes.
    pub fn from_response_failure(message: String) -> (error: Error)
        ensures
            error@ == ErrorView::InvalidResponse(message@),
            error matches Error::InvalidResponse(detail) && detail@ == message@,
    {
        Error::InvalidResponse(message)
    }
}

/// The label tells the kinds of errors apart, and nothing else.
pub proof fn law_label_is_the_kind(a: ErrorView, b: ErrorView)
    ensures
        a.label() == b.label() <==> a.same_kind(b),
{
    reveal_strlit("data_is_unavailable");
    reveal_strlit("data_is_too_large");
    reveal_strlit("invalid_request");
    reveal_strlit("invalid_response");
    reveal_strlit("timeout_waiting_for_response");
    reveal_strlit("unexpected_error_encountered");
    assert("data_is_unavailable"@.len() == 19);
    assert("data_is_too_large"@.len() == 17);
    assert("invalid_request"@.len() == 15);
    assert("invalid_response"@.len() == 16);
    assert("timeout_waiting_for_response"@.len() == 28);
    assert("unexpected_error_encountered"@.len() == 28);
    assert("timeout_waiting_for_response"@[0] != "unexpected_error_encountered"@[0]);
}

/// The text of an error is what its kind says, and then the whole detail.
pub proof fn law_text_ends_with_the_detail(detail: Seq<char>)
    ensures
        ErrorView::DataIsUnavailable(detail).text() == "The requested data is unavailable and cannot be found! Error: "@
            + detail,
        ErrorView::DataIsTooLarge(detail).text() == "The requested data is too large: "@
            + detail,
        ErrorView::InvalidRequest(detail).text() == "Invalid request: "@
            + detail,
        ErrorView::InvalidResponse(detail).text() == "Invalid response: "@
            + detail,
        ErrorView::TimeoutWaitingForResponse(detail).text() == "Timed out waiting for a response: "@
            + detail,
        ErrorView::UnexpectedErrorEncountered(detail).text() == "Unexpected error encountered: "@
            + detail,
{
}

/// Each kind of error has the label which is its name.
pub proof fn law_label_is_the_name(error: ErrorView)
    ensures
        error is DataIsUnavailable ==> error.label() == "data_is_unavailable"@,
        error is DataIsTooLarge ==> error.label() == "data_is_too_large"@,
        error is InvalidRequest ==> error.label() == "invalid_request"@,
        error is InvalidResponse ==> error.label() == "invalid_response"@,
        error is TimeoutWaitingForResponse ==> error.label() == "timeout_waiting_for_response"@,
        error is UnexpectedErrorEncountered ==> error.label() == "unexpected_error_encountered"@,
{
}

} // verus!
