//! Routing policy pieces: the per-route CSRF mode and the pure CSRF
//! decision it implies for a request, separated from the HTTP plumbing
//! that gathers cookies, headers and query parameters.

use vstd::prelude::*;

use crate::strutil::str_eq;

verus! {

/// How a route is protected against cross-site request forgery.
#[derive(Debug, Clone, Copy, PartialEq, Eq, Structural)]
pub enum CSRFType {
    /// Check the token header on unsafe methods.
    Header,
    /// Check the token header, or the query parameter, on unsafe methods.
    Param,
    /// Check the token header on every method.
    ForceHeader,
    /// Check the token header or query parameter on every method.
    ForceParam,
    /// No CSRF check on this route.
    Disabled,
}

impl CSRFType {
    /// Whether this is the `Header` mode.
    pub fn is_header(&self) -> (r: bool)
        ensures
            r == (*self is Header),
    {
        match self {
            CSRFType::Header => true,
            _ => false,
        }
    }

    /// Whether this is the `Param` mode.
    pub fn is_param(&self) -> (r: bool)
        ensures
            r == (*self is Param),
    {
        match self {
            CSRFType::Param => true,
            _ => false,
        }
    }

    /// Whether this is the `ForceHeader` mode.
    pub fn is_force_header(&self) -> (r: bool)
        ensures
            r == (*self is ForceHeader),
    {
        match self {
            CSRFType::ForceHeader => true,
            _ => false,
        }
    }

    /// Whether this is the `ForceParam` mode.
    pub fn is_force_param(&self) -> (r: bool)
        ensures
            r == (*self is ForceParam),
    {
        match self {
            CSRFType::ForceParam => true,
            _ => false,
        }
    }

    /// Whether the check is disabled.
    pub fn is_disabled(&self) -> (r: bool)
        ensures
            r == (*self is Disabled),
    {
        match self {
            CSRFType::Disabled => true,
            _ => false,
        }
    }
}

/// The outcome of the CSRF pre-check for one request.
#[derive(Debug)]
pub enum CsrfCheck {
    /// No check applies: the method is safe and the mode is not forced,
    /// or the check is disabled.
    Skip,
    /// The check applies and fails outright: no token cookie, no matching
    /// token, or a token that differs from the cookie.
    Reject,
    /// The token matched the cookie; the application's checker gets the
    /// final say over this token.
    Consult(String),
}

/// Whether a CSRF check applies at all: forced modes always check; other
/// modes check on unsafe methods only.
pub open spec fn csrf_applies(csrf: CSRFType, method_safe: bool) -> bool {
    csrf is ForceHeader || csrf is ForceParam || !method_safe
}

/// Whether the query parameter may carry the token in this mode.
pub open spec fn csrf_allows_param(csrf: CSRFType) -> bool {
    csrf is Param || csrf is ForceParam
}

/// The token that the check considers, if any: the header token first,
/// then the query parameter where the mode allows it.
pub open spec fn csrf_token(
    csrf: CSRFType,
    header: Option<Seq<char>>,
    param: Option<Seq<char>>,
) -> Option<Seq<char>> {
    if header is Some {
        header
    } else if csrf_allows_param(csrf) {
        param
    } else {
        None
    }
}

/// The pure CSRF decision: given the route's mode, whether the request
/// method is safe, the token cookie and the token candidates, decide
/// whether the request passes outright, fails outright, or goes to the
/// application's checker with the matched token.
pub fn csrf_precheck(
    csrf: CSRFType,
    method_safe: bool,
    cookie: Option<&String>,
    header: Option<&String>,
    param: Option<&String>,
) -> (r: CsrfCheck)
    ensures
        !csrf_applies(csrf, method_safe) ==> r is Skip,
        csrf_applies(csrf, method_safe) && csrf is Disabled ==> r is Skip,
        csrf_applies(csrf, method_safe) && !(csrf is Disabled) ==> {
            let hv = match header {
                Some(h) => Some(h@),
                None => None,
            };
            let pv = match param {
                Some(p) => Some(p@),
                None => None,
            };
            match (cookie, csrf_token(csrf, hv, pv)) {
                (Some(c), Some(t)) => if c@ == t {
                    r matches CsrfCheck::Consult(tok) && tok@ == t
                } else {
                    r is Reject
                },
                _ => r is Reject,
            }
        },
{
    let applies = match csrf {
        CSRFType::ForceHeader => true,
        CSRFType::ForceParam => true,
        _ => !method_safe,
    };
    if !applies {
        return CsrfCheck::Skip;
    }
    let allow_param = match csrf {
        CSRFType::Param => true,
        CSRFType::ForceParam => true,
        _ => false,
    };
    match csrf {
        CSRFType::Disabled => CsrfCheck::Skip,
        _ => {
            let c = match cookie {
                Some(c) => c,
                None => {
                    return CsrfCheck::Reject;
                },
            };
            let token: &String = match header {
                Some(h) => h,
                None => {
                    if allow_param {
                        match param {
                            Some(p) => p,
                            None => {
                                return CsrfCheck::Reject;
                            },
                        }
                    } else {
                        return CsrfCheck::Reject;
                    }
                },
            };
            if str_eq(token.as_str(), c.as_str()) {
                CsrfCheck::Consult(token.clone())
            } else {
                CsrfCheck::Reject
            }
        },
    }
}

} // verus!
