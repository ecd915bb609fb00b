//! Checks on names taken from request paths: user and repository names.

use vstd::prelude::*;
use vstd::string::StrSliceExecFns;

verus! {

/// An ASCII letter or digit, `_` or `-`.
pub open spec fn is_aaud_char(c: char) -> bool {
    ('a' <= c && c <= 'z') || ('A' <= c && c <= 'Z') || ('0' <= c && c <= '9') || c == '_' || c
        == '-'
}

pub open spec fn is_aaud(s: Seq<char>) -> bool {
    forall|i: int| 0 <= i < s.len() ==> is_aaud_char(#[trigger] s[i])
}

/// A string of ASCII letters and digits, `_` and `-`.
#[derive(Clone, Copy, Debug)]
pub struct AaudStr<'a> {
    inner: &'a str,
}

impl<'a> View for AaudStr<'a> {
    type V = Seq<char>;

    closed spec fn view(&self) -> Seq<char> {
        self.inner@
    }
}

fn all_aaud(s: &str) -> (r: bool)
    ensures
        r == is_aaud(s@),
{
    let n = s.unicode_len();
    let mut i: usize = 0;
    while i < n
        invariant
            n == s@.len(),
            i <= n,
            forall|j: int| 0 <= j < i ==> is_aaud_char(#[trigger] s@[j]),
        decreases n - i,
    {
        let c = s.get_char(i);
        if !(('a' <= c && c <= 'z') || ('A' <= c && c <= 'Z') || ('0' <= c && c <= '9') || c
            == '_' || c == '-') {
            return false;
        }
        i = i + 1;
    }
    true
}

impl<'a> AaudStr<'a> {
    #[verifier::type_invariant]
    spec fn inv(self) -> bool {
        is_aaud(self.inner@)
    }

    pub fn new(str: &'a str) -> (r: Option<AaudStr<'a>>)
        ensures
            r is Some <==> is_aaud(str@),
            r matches Some(a) ==> a@ == str@,
    {
        if all_aaud(str) {
            Some(AaudStr { inner: str })
        } else {
            None
        }
    }

    pub fn is_valid(str: &'a str) -> (r: bool)
        ensures
            r == is_aaud(str@),
    {
        AaudStr::new(str).is_some()
    }

    pub fn as_str(&self) -> (r: &'a str)
        ensures
            r@ == self@,
            is_aaud(r@),
    {
        proof {
            use_type_invariant(self);
        }
        self.inner
    }

    /// Reads a path segment: it must be non-empty.
    pub fn from_param(param: &'a str) -> (r: Result<AaudStr<'a>, &'a str>)
        ensures
            r is Ok <==> param@.len() > 0 && is_aaud(param@),
            r matches Ok(a) ==> a@ == param@,
            r matches Err(e) ==> e == param,
    {
        if param.unicode_len() == 0 {
            return Err(param);
        }
        match AaudStr::new(param) {
            Some(a) => Ok(a),
            None => Err(param),
        }
    }

    /// Reads a form value, which may be empty.
    pub fn from_form_value(form_value: &'a str) -> (r: Result<AaudStr<'a>, &'a str>)
        ensures
            r is Ok <==> is_aaud(form_value@),
            r matches Ok(a) ==> a@ == form_value@,
            r matches Err(e) ==> e == form_value,
    {
        match AaudStr::new(form_value) {
            Some(a) => Ok(a),
            None => Err(form_value),
        }
    }
}

/// A user name as it stands in a path: `~` followed by the name.
#[derive(Clone, Copy, Debug)]
pub struct UserNameGuard<'a> {
    name: AaudStr<'a>,
}

impl<'a> View for UserNameGuard<'a> {
    type V = Seq<char>;

    closed spec fn view(&self) -> Seq<char> {
        self.name@
    }
}

impl<'a> UserNameGuard<'a> {
    /// Reads `~name`; the name is what follows the `~`.
    pub fn from_param(param: &'a str) -> (r: Result<UserNameGuard<'a>, &'a str>)
        ensures
            r is Ok <==> param@.len() > 1 && param@[0] == '~' && is_aaud(param@.drop_first()),
            r matches Ok(g) ==> g@ == param@.drop_first(),
            r matches Err(e) ==> e == param,
    {
        let n = param.unicode_len();
        if n == 0 || param.get_char(0) != '~' {
            return Err(param);
        }
        let rest = param.substring_char(1, n);
        assert(rest@ =~= param@.drop_first());
        match AaudStr::from_param(rest) {
            Ok(name) => Ok(UserNameGuard { name }),
            Err(_) => Err(param),
        }
    }

    /// The name, without the `~`.
    pub fn as_str(&self) -> (r: &'a str)
        ensures
            r@ == self@,
    {
        self.name.as_str()
    }
}

} // verus!
