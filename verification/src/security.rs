//! Security response headers: a policy record with secure defaults and
//! the exact header name/value pairs it denotes.

use vstd::prelude::*;

use crate::strutil::{spec_dec, u64_to_string};

verus! {

/// The `Referrer-Policy` header value.
#[derive(Clone, Debug)]
pub enum RefererPolicy {
    NoReferrer,
    NoReferrerWhenDowngrade,
    Origin,
    OriginWhenCrossOrigin,
    SameOrigin,
    StrictOrigin,
    StrictOriginWhenCrossOrigin,
    UnsafeUrl,
}

/// The header text of a referrer policy.
pub open spec fn referer_policy_text(p: RefererPolicy) -> Seq<char> {
    match p {
        RefererPolicy::NoReferrer => "no-referrer"@,
        RefererPolicy::NoReferrerWhenDowngrade => "no-referrer-when-downgrade"@,
        RefererPolicy::Origin => "origin"@,
        RefererPolicy::OriginWhenCrossOrigin => "origin-when-cross-origin"@,
        RefererPolicy::SameOrigin => "same-origin"@,
        RefererPolicy::StrictOrigin => "strict-origin"@,
        RefererPolicy::StrictOriginWhenCrossOrigin => "strict-origin-when-cross-origin"@,
        RefererPolicy::UnsafeUrl => "unsafe-url"@,
    }
}

impl RefererPolicy {
    /// The header value.
    pub fn to_text(&self) -> (r: String)
        ensures
            r@ == referer_policy_text(*self),
    {
        match self {
            RefererPolicy::NoReferrer => "no-referrer".to_owned(),
            RefererPolicy::NoReferrerWhenDowngrade => "no-referrer-when-downgrade".to_owned(),
            RefererPolicy::Origin => "origin".to_owned(),
            RefererPolicy::OriginWhenCrossOrigin => "origin-when-cross-origin".to_owned(),
            RefererPolicy::SameOrigin => "same-origin".to_owned(),
            RefererPolicy::StrictOrigin => "strict-origin".to_owned(),
            RefererPolicy::StrictOriginWhenCrossOrigin => {
                "strict-origin-when-cross-origin".to_owned()
            },
            RefererPolicy::UnsafeUrl => "unsafe-url".to_owned(),
        }
    }
}

/// The `X-Frame-Options` header value.
#[derive(Clone, Debug)]
pub enum XFrameOptions {
    Deny,
    SameOrigin,
}

/// The header text of a frame policy.
pub open spec fn x_frame_options_text(p: XFrameOptions) -> Seq<char> {
    match p {
        XFrameOptions::Deny => "DENY"@,
        XFrameOptions::SameOrigin => "SAMEORIGIN"@,
    }
}

impl XFrameOptions {
    /// The header value.
    pub fn to_text(&self) -> (r: String)
        ensures
            r@ == x_frame_options_text(*self),
    {
        match self {
            XFrameOptions::Deny => "DENY".to_owned(),
            XFrameOptions::SameOrigin => "SAMEORIGIN".to_owned(),
        }
    }
}

/// The `X-XSS-Protection` header value.
#[derive(Clone, Debug)]
pub enum XXSSProtection {
    Disable,
    Enable,
    EnableBlock,
    EnableReport(String),
}

/// The header text of an XSS protection policy.
pub open spec fn x_xss_protection_text(p: XXSSProtection) -> Seq<char> {
    match p {
        XXSSProtection::Disable => "0"@,
        XXSSProtection::Enable => "1"@,
        XXSSProtection::EnableBlock => "1; mode=block"@,
        XXSSProtection::EnableReport(x) => "1; report="@ + x@,
    }
}

impl XXSSProtection {
    /// The header value.
    pub fn to_text(&self) -> (r: String)
        ensures
            r@ == x_xss_protection_text(*self),
    {
        match self {
            XXSSProtection::Disable => "0".to_owned(),
            XXSSProtection::Enable => "1".to_owned(),
            XXSSProtection::EnableBlock => "1; mode=block".to_owned(),
            XXSSProtection::EnableReport(x) => {
                let mut out = "1; report=".to_owned();
                out.append(x.as_str());
                out
            },
        }
    }
}

/// The `Cross-Origin-Opener-Policy` header value.
#[derive(Clone, Debug)]
pub enum CrossOriginOpenerPolicy {
    UnsafeNone,
    SameOriginAllowPopups,
    SameOrigin,
}

/// The header text of an opener policy.
pub open spec fn cross_origin_opener_policy_text(p: CrossOriginOpenerPolicy) -> Seq<char> {
    match p {
        CrossOriginOpenerPolicy::UnsafeNone => "unsafe-none"@,
        CrossOriginOpenerPolicy::SameOriginAllowPopups => "same-origin-allow-popups"@,
        CrossOriginOpenerPolicy::SameOrigin => "same-origin"@,
    }
}

impl CrossOriginOpenerPolicy {
    /// The header value.
    pub fn to_text(&self) -> (r: String)
        ensures
            r@ == cross_origin_opener_policy_text(*self),
    {
        match self {
            CrossOriginOpenerPolicy::UnsafeNone => "unsafe-none".to_owned(),
            CrossOriginOpenerPolicy::SameOriginAllowPopups => {
                "same-origin-allow-popups".to_owned()
            },
            CrossOriginOpenerPolicy::SameOrigin => "same-origin".to_owned(),
        }
    }
}

/// The `Strict-Transport-Security` header value: a max-age in seconds,
/// optionally extended to subdomains, optionally preloadable.
#[derive(Clone, Debug)]
pub enum StrictTransportSecurity {
    MaxAge(u32),
    IncludeSubDomains(u32),
    Preload(u32),
}

/// The header text of an HSTS policy.
pub open spec fn strict_transport_security_text(p: StrictTransportSecurity) -> Seq<char> {
    match p {
        StrictTransportSecurity::MaxAge(x) => "max-age="@ + spec_dec(x as nat),
        StrictTransportSecurity::IncludeSubDomains(x) => "max-age="@ + spec_dec(x as nat)
            + "; includeSubDomains"@,
        StrictTransportSecurity::Preload(x) => "max-age="@ + spec_dec(x as nat)
            + "; includeSubDomains; preload"@,
    }
}

impl StrictTransportSecurity {
    /// The header value.
    pub fn to_text(&self) -> (r: String)
        ensures
            r@ == strict_transport_security_text(*self),
    {
        match self {
            StrictTransportSecurity::MaxAge(x) => {
                let mut out = "max-age=".to_owned();
                out.append(u64_to_string(*x as u64).as_str());
                out
            },
            StrictTransportSecurity::IncludeSubDomains(x) => {
                let mut out = "max-age=".to_owned();
                out.append(u64_to_string(*x as u64).as_str());
                out.append("; includeSubDomains");
                out
            },
            StrictTransportSecurity::Preload(x) => {
                let mut out = "max-age=".to_owned();
                out.append(u64_to_string(*x as u64).as_str());
                out.append("; includeSubDomains; preload");
                out
            },
        }
    }
}

/// The security header set, with its policy fields.
#[derive(Clone, Debug)]
pub struct SecurityHeader {
    pub referer_policy: RefererPolicy,
    pub x_frame_options: XFrameOptions,
    pub x_xss_protection: XXSSProtection,
    pub cross_origin_opener_policy: CrossOriginOpenerPolicy,
    pub content_security_policy: String,
    pub strict_transport_security: Option<StrictTransportSecurity>,
}

impl Default for SecurityHeader {
    /// The strictest broadly compatible defaults; no HSTS until opted in.
    fn default() -> (r: Self)
        ensures
            r.referer_policy is StrictOriginWhenCrossOrigin,
            r.x_frame_options is Deny,
            r.x_xss_protection is EnableBlock,
            r.cross_origin_opener_policy is SameOrigin,
            r.strict_transport_security is None,
    {
        SecurityHeader {
            referer_policy: RefererPolicy::StrictOriginWhenCrossOrigin,
            x_frame_options: XFrameOptions::Deny,
            x_xss_protection: XXSSProtection::EnableBlock,
            cross_origin_opener_policy: CrossOriginOpenerPolicy::SameOrigin,
            content_security_policy: String::from_str(
                "default-src 'none'; script-src 'none'; object-src 'none'; base-uri 'none'; form-action 'none'; frame-ancestors 'none'",
            ),
            strict_transport_security: None,
        }
    }
}

impl SecurityHeader {
    /// Sets the default HSTS policy: one year, subdomains included,
    /// preloadable.
    pub fn set_default_hsts(&mut self)
        ensures
            final(self).strict_transport_security == Some(
                StrictTransportSecurity::Preload(31536000u32),
            ),
            final(self).referer_policy == old(self).referer_policy,
            final(self).x_frame_options == old(self).x_frame_options,
            final(self).x_xss_protection == old(self).x_xss_protection,
            final(self).cross_origin_opener_policy == old(self).cross_origin_opener_policy,
            final(self).content_security_policy == old(self).content_security_policy,
    {
        self.strict_transport_security = Some(StrictTransportSecurity::Preload(31536000));
    }

    /// The header name/value pairs this policy denotes, in emission order;
    /// the HSTS header appears exactly when one is configured.
    pub fn build(self) -> (r: Vec<(String, String)>)
        ensures
            r@.len() == (if self.strict_transport_security is Some {
                7int
            } else {
                6int
            }),
            r@[0].0@ == "X-Content-Type-Options"@ && r@[0].1@ == "nosniff"@,
            r@[1].0@ == "Referrer-Policy"@ && r@[1].1@ == referer_policy_text(self.referer_policy),
            r@[2].0@ == "X-Frame-Options"@ && r@[2].1@ == x_frame_options_text(
                self.x_frame_options,
            ),
            r@[3].0@ == "X-XSS-Protection"@ && r@[3].1@ == x_xss_protection_text(
                self.x_xss_protection,
            ),
            r@[4].0@ == "Cross-Origin-Opener-Policy"@ && r@[4].1@
                == cross_origin_opener_policy_text(self.cross_origin_opener_policy),
            r@[5].0@ == "Content-Security-Policy"@ && r@[5].1@ == self.content_security_policy@,
            self.strict_transport_security matches Some(h) ==> r@[6].0@
                == "Strict-Transport-Security"@ && r@[6].1@ == strict_transport_security_text(h),
    {
        let mut out: Vec<(String, String)> = Vec::new();
        out.push(("X-Content-Type-Options".to_owned(), "nosniff".to_owned()));
        out.push(("Referrer-Policy".to_owned(), self.referer_policy.to_text()));
        out.push(("X-Frame-Options".to_owned(), self.x_frame_options.to_text()));
        out.push(("X-XSS-Protection".to_owned(), self.x_xss_protection.to_text()));
        out.push(
            ("Cross-Origin-Opener-Policy".to_owned(), self.cross_origin_opener_policy.to_text()),
        );
        out.push(("Content-Security-Policy".to_owned(), self.content_security_policy));
        match &self.strict_transport_security {
            Some(h) => {
                out.push(("Strict-Transport-Security".to_owned(), h.to_text()));
            },
            None => {},
        }
        out
    }
}

} // verus!
