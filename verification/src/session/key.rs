//! The session key codec: an opaque identifier exchanged via cookie,
//! validated against the cookie content size ceiling and generated from a
//! cryptographically strong random source.

use vstd::prelude::*;
use vstd::utf8::encode_utf8;

use crate::error::Error;
use crate::utils::is_alnum_char;

verus! {

/// A session key, the string stored in a client-side cookie to associate a
/// user with its session state on the backend. Session keys travel in
/// cookies, so they are required to be at most 4064 bytes.
#[derive(Debug)]
pub struct SessionKey {
    key: String,
}

impl View for SessionKey {
    type V = Seq<char>;

    closed spec fn view(&self) -> Seq<char> {
        self.key@
    }
}

impl SessionKey {
    /// The key is within the cookie content size ceiling.
    pub closed spec fn wf(&self) -> bool {
        encode_utf8(self.key@).len() <= 4064
    }

    /// Accepts `val` as a session key if it fits in a cookie: at most 4064
    /// bytes.
    pub fn try_from(val: String) -> (r: Result<SessionKey, Error>)
        ensures
            match r {
                Ok(k) => k@ == val@ && k.wf() && encode_utf8(val@).len() <= 4064,
                Err(e) => e is Session && encode_utf8(val@).len() > 4064,
            },
    {
        let bs = val.as_str().as_bytes();
        let nbytes = bs.len();
        proof {
            assert(bs@ == encode_utf8(val@));
            assert(nbytes == bs@.len());
        }
        if nbytes > 4064 {
            Err(
                Error::Session(
                    "the session key is bigger than 4064 bytes, the upper limit on cookie content".to_owned(),
                ),
            )
        } else {
            let ghost v0 = val@;
            proof {
                assert(encode_utf8(v0).len() <= 4064);
            }
            let k = SessionKey { key: val };
            proof {
                assert(k.key@ == v0);
                assert(k.wf());
            }
            Ok(k)
        }
    }

    /// The key as a string slice.
    pub fn as_str(&self) -> (r: &str)
        ensures
            r@ == self@,
    {
        self.key.as_str()
    }

    /// Consumes the key, returning the underlying string.
    pub fn into_string(self) -> (r: String)
        ensures
            r@ == self@,
    {
        self.key
    }

}

/// A fresh session key: 64 random alphanumeric characters, plenty of
/// entropy for an unguessable session identifier.
pub fn generate_session_key() -> (r: SessionKey)
    ensures
        r.wf(),
        r@.len() == 64,
        forall|i: int| 0 <= i < r@.len() ==> is_alnum_char(#[trigger] r@[i]),
{
    let s = crate::utils::rand_string(64);
    proof {
        assert(vstd::utf8::is_ascii_chars(s@)) by {
            assert forall|i: int| 0 <= i < s@.len() implies '\0' <= #[trigger] s@[i]
                <= '\u{7f}' by {
                assert(is_alnum_char(s@[i]));
            }
        }
        vstd::utf8::is_ascii_chars_encode_utf8(s@);
    }
    match SessionKey::try_from(s) {
        Ok(k) => k,
        Err(_) => SessionKey { key: String::new() },  // unreachable: 64 bytes fit
    }
}

} // verus!
