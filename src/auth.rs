//! The authentication schemes that a request can name in `AUTH_TYPE`.

use vstd::prelude::*;

use crate::text::str_eq;

verus! {

/// An HTTP authentication scheme.
#[derive(Clone, Copy, Debug, PartialEq, Eq, Structural)]
pub enum Auth {
    Basic,
    Digest,
}

/// The error returned when a string names no known scheme.
#[derive(Clone, Copy, Debug)]
pub struct AuthParseError {
    _priv: (),
}

impl Auth {
    /// The name of the scheme, as it is written in `AUTH_TYPE`.
    pub open spec fn name(self) -> Seq<char> {
        match self {
            Auth::Basic => "Basic"@,
            Auth::Digest => "Digest"@,
        }
    }

    pub fn as_str(self) -> (r: &'static str)
        ensures
            r@ == self.name(),
    {
        match self {
            Auth::Basic => "Basic",
            Auth::Digest => "Digest",
        }
    }

    /// Reads a scheme from its name; the match is exact and case-sensitive.
    pub fn from_name(s: &str) -> (r: Result<Auth, AuthParseError>)
        ensures
            r matches Ok(a) ==> a.name() == s@,
            r is Err ==> s@ != Auth::Basic.name() && s@ != Auth::Digest.name(),
    {
        if str_eq(s, "Basic") {
            Ok(Auth::Basic)
        } else if str_eq(s, "Digest") {
            Ok(Auth::Digest)
        } else {
            Err(AuthParseError { _priv: () })
        }
    }
}

impl std::str::FromStr for Auth {
    type Err = AuthParseError;

    fn from_str(s: &str) -> Result<Auth, AuthParseError> {
        Auth::from_name(s)
    }
}

} // verus!
