//! The response envelope: an HTTP status, an application code, a message
//! (optionally translated through the locale table) and optional payload.
//! The HTTP glue that turns it into a wire response lives with the
//! embedding application.

use vstd::prelude::*;

use crate::i18n::{spec_translate, Locale};

verus! {

/// An opaque internal-error marker: the handler failed, and the client
/// sees a generic server error with no diagnostic detail.
#[derive(Debug)]
pub struct ResponseError {
    message: String,
}

impl ResponseError {
    /// Wraps a root-cause description, kept for server-side logs only.
    pub fn new(message: String) -> (r: ResponseError)
        ensures
            r.spec_message() == message@,
    {
        ResponseError { message }
    }

    /// The root-cause description, for logs.
    pub fn message(&self) -> (r: &str)
        ensures
            r@ == self.spec_message(),
    {
        self.message.as_str()
    }

    /// The wrapped description.
    pub closed spec fn spec_message(&self) -> Seq<char> {
        self.message@
    }
}

/// Response codes generated from the application's response tables: an
/// application code and its default message.
pub trait ResponseCodeTrait {
    /// The application-level response code.
    fn code(&self) -> i64;

    /// The default message for the code.
    fn message(&self) -> &'static str;
}

/// A response under construction: HTTP status, application code, message
/// and optional payload; `translate` marks the message for translation
/// through the locale table.
#[derive(Debug)]
pub struct Response<T> {
    pub http_code: u16,
    pub code: i64,
    pub message: String,
    pub data: Option<T>,
    pub translate: bool,
}

impl<T> Response<T> {
    /// A 200 response carrying a response code's code and message, marked
    /// for translation.
    pub fn new<C: ResponseCodeTrait>(r: C) -> (res: Response<T>)
        ensures
            res.http_code == 200,
            res.data is None,
            res.translate == true,
    {
        let code = r.code();
        let message = r.message().to_owned();
        Response { http_code: 200, code, message, data: None, translate: true }
    }

    /// A bare response with the given HTTP status and no message.
    pub fn new_code(code: u16) -> (res: Response<T>)
        ensures
            res.http_code == code,
            res.code == 0,
            res.message@ == Seq::<char>::empty(),
            res.data is None,
            res.translate == false,
    {
        Response {
            http_code: code,
            code: 0,
            message: String::new(),
            data: None,
            translate: false,
        }
    }

    /// A 400 response with the given message.
    pub fn bad_request(s: String) -> (res: Response<T>)
        ensures
            res.http_code == 400,
            res.code == 0,
            res.message@ == s@,
            res.data is None,
            res.translate == false,
    {
        Self::new_code(400).message(s)
    }

    /// A bare 404 response.
    pub fn not_found() -> (res: Response<T>)
        ensures
            res.http_code == 404,
            res.code == 0,
            res.data is None,
            res.translate == false,
    {
        Self::new_code(404)
    }

    /// Replaces the message.
    pub fn message(self, s: String) -> (res: Response<T>)
        ensures
            res.message@ == s@,
            res.http_code == self.http_code,
            res.code == self.code,
            res.data == self.data,
            res.translate == self.translate,
    {
        Response { message: s, ..self }
    }

    /// Attaches a payload.
    pub fn data(self, data: T) -> (res: Response<T>)
        ensures
            res.data == Some(data),
            res.http_code == self.http_code,
            res.code == self.code,
            res.message == self.message,
            res.translate == self.translate,
    {
        Response { data: Some(data), ..self }
    }

    /// Marks the message for translation.
    pub fn translate(self) -> (res: Response<T>)
        ensures
            res.translate == true,
            res.http_code == self.http_code,
            res.code == self.code,
            res.message == self.message,
            res.data == self.data,
    {
        Response { translate: true, ..self }
    }

    /// The message as the client should see it: translated for the
    /// request's language when marked for translation, verbatim otherwise.
    pub fn i18n_message(&self, locale: &Locale, lang: &str) -> (r: String)
        requires
            locale.wf(),
        ensures
            self.translate ==> r@ == spec_translate(
                locale@,
                locale.default_locale(),
                lang@,
                self.message@,
            ),
            !self.translate ==> r@ == self.message@,
    {
        if self.translate {
            locale.translate(lang, self.message.as_str())
        } else {
            self.message.clone()
        }
    }
}

} // verus!
