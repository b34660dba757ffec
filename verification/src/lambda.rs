//! The HTTP-shaped error answered at the request boundary: an
//! item-not-found or bad-argument failure maps to status 400, a store
//! failure to status 500.

use vstd::prelude::*;
use vstd::string::StringExecFns;

use crate::api::ApiErr;
use crate::func::RepoErr;

verus! {

/// Mathematical value of an [`HttpError`].
pub struct HttpErrorView {
    pub status_code: i32,
    pub err_type: Seq<char>,
    pub msg: Option<Seq<char>>,
}

/// An error ready for the response envelope: an HTTP status code, a
/// short machine-readable error type, and an optional message.
#[derive(Clone, Debug, PartialEq)]
pub struct HttpError {
    pub status_code: i32,
    pub err_type: String,
    pub msg: Option<String>,
}

impl View for HttpError {
    type V = HttpErrorView;

    open spec fn view(&self) -> HttpErrorView {
        HttpErrorView {
            status_code: self.status_code,
            err_type: self.err_type@,
            msg: match self.msg {
                Some(m) => Some(m@),
                None => None,
            },
        }
    }
}

/// The HTTP shape of a storage error: status 400 and type
/// `item-not-found` for a missing item, status 500 and type `db-failure`
/// for a store failure; the message carries the missing id, or the
/// store's own description.
pub open spec fn http_of_repo_err(e: RepoErr) -> HttpErrorView {
    match e {
        RepoErr::ItemNotFound(id) => HttpErrorView {
            status_code: 400,
            err_type: "item-not-found"@,
            msg: Some(id@),
        },
        RepoErr::DBFailure(m) => HttpErrorView {
            status_code: 500,
            err_type: "db-failure"@,
            msg: Some(m@),
        },
    }
}

/// The HTTP shape of a request error: a storage error keeps its shape
/// under [`http_of_repo_err`]; a bad argument maps to status 400 and
/// type `argument-err`, with the complaint as message.
pub open spec fn http_of_api_err(e: ApiErr) -> HttpErrorView {
    match e {
        ApiErr::RepoErr(re) => http_of_repo_err(re),
        ApiErr::ArgumentErr(m) => HttpErrorView {
            status_code: 400,
            err_type: "argument-err"@,
            msg: Some(m@),
        },
    }
}

impl HttpError {
    /// Map a storage error to its HTTP shape.
    pub fn from_repo_err(e: &RepoErr) -> (r: HttpError)
        ensures
            r@ == http_of_repo_err(*e),
    {
        match e {
            RepoErr::ItemNotFound(id) => HttpError {
                status_code: 400,
                err_type: String::from_str("item-not-found"),
                msg: Some(id.clone()),
            },
            RepoErr::DBFailure(m) => HttpError {
                status_code: 500,
                err_type: String::from_str("db-failure"),
                msg: Some(m.clone()),
            },
        }
    }

    /// Map a request error to its HTTP shape.
    pub fn from_api_err(e: &ApiErr) -> (r: HttpError)
        ensures
            r@ == http_of_api_err(*e),
    {
        match e {
            ApiErr::RepoErr(re) => HttpError::from_repo_err(re),
            ApiErr::ArgumentErr(m) => HttpError {
                status_code: 400,
                err_type: String::from_str("argument-err"),
                msg: Some(m.clone()),
            },
        }
    }
}

} // verus!
