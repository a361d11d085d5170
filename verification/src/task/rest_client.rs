//! The transport: what is sent with a request, and what a reply is taken
//! for. The request itself is made outside this crate.

use super::api_credentials::ApiCredentials;
use super::json::{describe, json_of, parse, parsed};
use serde_json::Value;
use vstd::prelude::*;

verus! {

/// A failure of the transport: no connection, a reply whose status is not
/// success, or a body that is no JSON. It holds a message and nothing else.
#[derive(Debug)]
pub struct RestClientError {
    message: String,
}

impl View for RestClientError {
    type V = Seq<char>;

    closed spec fn view(&self) -> Seq<char> {
        self.message@
    }
}

impl DeepView for RestClientError {
    type V = Seq<char>;

    open spec fn deep_view(&self) -> Seq<char> {
        self@
    }
}

impl RestClientError {
    pub fn new(message: String) -> (error: RestClientError)
        ensures
            error@ == message@,
    {
        RestClientError { message }
    }

    pub fn get_message(&self) -> (message: &String)
        ensures
            message@ == self@,
    {
        &self.message
    }
}

/// Something that can fetch the JSON document behind a URL. The client
/// is written against this trait alone, so that a transport can be put in
/// its place that answers without a network.
pub trait RestOperations {
    /// The document behind `url`, or why there is none. Nothing is asked
    /// of an implementation, and the client relies on nothing.
    fn get(&self, url: &str) -> Result<Value, RestClientError>;
}

/// The header that carries the identifier of the user.
pub open spec fn user_header() -> Seq<char> {
    "x-api-user"@
}

/// The header that carries the secret token.
pub open spec fn key_header() -> Seq<char> {
    "x-api-key"@
}

/// The headers that authenticate a request: the identifier of the user,
/// then the secret token, each under its fixed name.
pub fn build_auth_headers(api_credentials: &ApiCredentials) -> (headers: Vec<(String, String)>)
    ensures
        headers.deep_view() == seq![
            (user_header(), api_credentials@.user),
            (key_header(), api_credentials@.key),
        ],
{
    let mut headers: Vec<(String, String)> = Vec::new();
    headers.push(("x-api-user".to_owned(), api_credentials.get_user().clone()));
    headers.push(("x-api-key".to_owned(), api_credentials.get_key().clone()));
    proof {
        assert(headers.deep_view() =~= seq![
            (user_header(), api_credentials@.user),
            (key_header(), api_credentials@.key),
        ]);
    }
    headers
}

/// A status that stands for success: one from 200 to 299.
pub open spec fn is_success(status: u16) -> bool {
    200 <= status < 300
}

/// The message of the failure that a status other than success gives.
pub open spec fn status_failure() -> Seq<char> {
    "the server did not answer with success"@
}

/// What a reply is taken for: the document in its body, where the status
/// stands for success and the body is JSON, and a failure otherwise.
pub fn response_document(status: u16, body: &str) -> (document: Result<Value, RestClientError>)
    ensures
        document is Ok <==> is_success(status) && parsed(body@) is Some,
        document matches Ok(value) ==> parsed(body@) == Some(json_of(value)),
        document matches Err(error) ==> !is_success(status) ==> error@ == status_failure(),
{
    if status < 200 || status >= 300 {
        return Err(RestClientError::new("the server did not answer with success".to_owned()));
    }
    match parse(body) {
        Ok(value) => Ok(value),
        Err(error) => Err(RestClientError::new(describe(&error))),
    }
}

} // verus!
