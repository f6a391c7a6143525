//! Failures: the message of one, and the answer that a caller gets for it.

use vstd::prelude::*;

use crate::json::object;
use crate::json::object_view;
use crate::json::pair_views;
use crate::json::Json;
use crate::json::JsonView;
use crate::text::cat2;

verus! {

/// Why something could not be done, in words.
#[derive(Debug, PartialEq)]
pub struct Failure {
    pub message: String,
}

impl View for Failure {
    type V = Seq<char>;

    open spec fn view(&self) -> Seq<char> {
        self.message@
    }
}

impl Failure {
    /// A failure with the given words.
    pub fn of(words: &str) -> (r: Failure)
        ensures
            r@ == words@,
    {
        Failure { message: words.to_owned() }
    }

    /// A failure with the given message.
    pub fn new(message: String) -> (r: Failure)
        ensures
            r@ == message@,
    {
        Failure { message }
    }
}

/// What a result stands for: the view of what came out, or the message.
pub open spec fn told<T: View>(r: Result<T, Failure>) -> Result<T::V, Seq<char>> {
    match r {
        Ok(v) => Ok(v@),
        Err(e) => Err(e@),
    }
}

/// A failed request, by the kind of answer that it gets.
#[derive(Debug, PartialEq)]
pub enum AppError {
    BadRequest(String),
    NotFound(String),
    MethodNotAllowed(String),
    Upstream(String),
    Internal(Failure),
}

/// What an [`AppError`] stands for.
pub enum AppErrorView {
    BadRequest(Seq<char>),
    NotFound(Seq<char>),
    MethodNotAllowed(Seq<char>),
    Upstream(Seq<char>),
    Internal(Seq<char>),
}

impl View for AppError {
    type V = AppErrorView;

    open spec fn view(&self) -> AppErrorView {
        match *self {
            AppError::BadRequest(m) => AppErrorView::BadRequest(m@),
            AppError::NotFound(m) => AppErrorView::NotFound(m@),
            AppError::MethodNotAllowed(m) => AppErrorView::MethodNotAllowed(m@),
            AppError::Upstream(m) => AppErrorView::Upstream(m@),
            AppError::Internal(e) => AppErrorView::Internal(e@),
        }
    }
}

pub type AppResult<T> = Result<T, AppError>;

impl AppErrorView {
    /// The HTTP status of the answer.
    pub open spec fn status(self) -> u16 {
        match self {
            AppErrorView::BadRequest(_) => 400,
            AppErrorView::NotFound(_) => 404,
            AppErrorView::MethodNotAllowed(_) => 405,
            AppErrorView::Upstream(_) => 502,
            AppErrorView::Internal(_) => 500,
        }
    }

    /// The message.
    pub open spec fn message(self) -> Seq<char> {
        match self {
            AppErrorView::BadRequest(m) => m,
            AppErrorView::NotFound(m) => m,
            AppErrorView::MethodNotAllowed(m) => m,
            AppErrorView::Upstream(m) => m,
            AppErrorView::Internal(m) => m,
        }
    }

    /// The body of the answer.
    pub open spec fn body(self) -> JsonView {
        object_view(seq![("error"@, JsonView::String(self.message()))])
    }

    /// The error in words, with its kind.
    pub open spec fn text(self) -> Seq<char> {
        match self {
            AppErrorView::BadRequest(m) => "bad request: "@ + m,
            AppErrorView::NotFound(m) => "not found: "@ + m,
            AppErrorView::MethodNotAllowed(m) => "method not allowed: "@ + m,
            AppErrorView::Upstream(m) => "upstream error: "@ + m,
            AppErrorView::Internal(m) => "internal error: "@ + m,
        }
    }
}

impl AppError {
    pub fn bad_request(msg: String) -> (r: AppError)
        ensures
            r@ == AppErrorView::BadRequest(msg@),
    {
        AppError::BadRequest(msg)
    }

    pub fn not_found(msg: String) -> (r: AppError)
        ensures
            r@ == AppErrorView::NotFound(msg@),
    {
        AppError::NotFound(msg)
    }

    pub fn method_not_allowed(msg: String) -> (r: AppError)
        ensures
            r@ == AppErrorView::MethodNotAllowed(msg@),
    {
        AppError::MethodNotAllowed(msg)
    }

    pub fn upstream(msg: String) -> (r: AppError)
        ensures
            r@ == AppErrorView::Upstream(msg@),
    {
        AppError::Upstream(msg)
    }

    /// The message.
    pub fn message(&self) -> (r: &str)
        ensures
            r@ == self@.message(),
    {
        match self {
            AppError::BadRequest(m) => m.as_str(),
            AppError::NotFound(m) => m.as_str(),
            AppError::MethodNotAllowed(m) => m.as_str(),
            AppError::Upstream(m) => m.as_str(),
            AppError::Internal(e) => e.message.as_str(),
        }
    }

    /// The error in words, with its kind.
    pub fn to_text(&self) -> (r: String)
        ensures
            r@ == self@.text(),
    {
        match self {
            AppError::BadRequest(m) => cat2("bad request: ", m.as_str()),
            AppError::NotFound(m) => cat2("not found: ", m.as_str()),
            AppError::MethodNotAllowed(m) => cat2("method not allowed: ", m.as_str()),
            AppError::Upstream(m) => cat2("upstream error: ", m.as_str()),
            AppError::Internal(e) => cat2("internal error: ", e.message.as_str()),
        }
    }

    /// The HTTP status and the body of the answer.
    pub fn into_response(&self) -> (r: (u16, Json))
        ensures
            r.0 == self@.status(),
            r.1@ == self@.body(),
    {
        let status: u16 = match self {
            AppError::BadRequest(_) => 400,
            AppError::NotFound(_) => 404,
            AppError::MethodNotAllowed(_) => 405,
            AppError::Upstream(_) => 502,
            AppError::Internal(_) => 500,
        };
        let pairs = vec![("error".to_owned(), Json::text(self.message()))];
        assert(pair_views(pairs@) =~= seq![("error"@, JsonView::String(self@.message()))]);
        (status, object(pairs))
    }
}

impl From<Failure> for AppError {
    fn from(e: Failure) -> (r: AppError) {
        AppError::Internal(e)
    }
}

impl vstd::std_specs::convert::FromSpecImpl<Failure> for AppError {
    open spec fn obeys_from_spec() -> bool {
        true
    }

    open spec fn from_spec(e: Failure) -> AppError {
        AppError::Internal(e)
    }
}

} // verus!
