use vstd::prelude::*;

verus! {

/// The status of a login to the exchange.
#[derive(Debug, Copy, Clone, PartialEq, Eq, Structural)]
pub enum LoginStatus {
    Success,
    Limited,
    Restricted,
    Fail,
}

/// The name the exchange gives a login status.
pub open spec fn login_status_name(s: LoginStatus) -> Seq<char> {
    match s {
        LoginStatus::Success => "SUCCESS"@,
        LoginStatus::Limited => "LIMITED_ACCESS"@,
        LoginStatus::Restricted => "LOGIN_RESTRICTED"@,
        LoginStatus::Fail => "FAIL"@,
    }
}

impl LoginStatus {
    /// The status as the exchange names it.
    pub fn __repr__(&self) -> (r: &'static str)
        ensures
            r@ == login_status_name(*self),
    {
        match self {
            LoginStatus::Success => "SUCCESS",
            LoginStatus::Limited => "LIMITED_ACCESS",
            LoginStatus::Restricted => "LOGIN_RESTRICTED",
            LoginStatus::Fail => "FAIL",
        }
    }
}

/// A refused login: its status and the exchange's detail.
#[derive(Debug)]
pub struct LoginError {
    pub status: LoginStatus,
    pub detail: String,
}

/// What the answer to a login request gives: its session token where its
/// status is `SUCCESS`; otherwise the error it names.
pub fn login_outcome(token: String, error: String, status: LoginStatus) -> (r: Result<String, String>)
    ensures
        status == LoginStatus::Success ==> r == Ok::<String, String>(token),
        status != LoginStatus::Success ==> r == Err::<String, String>(error),
{
    match status {
        LoginStatus::Success => Ok(token),
        _ => Err(error),
    }
}

} // verus!
