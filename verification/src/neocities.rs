//! What is exchanged with the remote host: the requests that are made of it
//! and the meaning of its answers. Sending and receiving is the caller's.

use base64::prelude::{Engine, BASE64_STANDARD};
use vstd::prelude::*;
use vstd::utf8::encode_utf8;

use crate::text::{option_view, strings_view, text_eq};

verus! {

/// The address that hands out the key of an account.
pub const KEY_URL: &'static str = "https://neocities.org/api/key";

/// The address that takes files.
pub const UPLOAD_URL: &'static str = "https://neocities.org/api/upload";

/// The address that deletes files.
pub const DELETE_URL: &'static str = "https://neocities.org/api/delete";

/// The address that lists the files of a site.
pub const LIST_URL: &'static str = "https://neocities.org/api/list";

/// The file that the remote host never deletes.
pub const PROTECTED_FILE: &'static str = "index.html";

/// `reqwest::Error`: why a request did not get through. It is carried from
/// the caller to the caller, and never looked into.
#[verifier::external_type_specification]
#[verifier::external_body]
pub struct ExReqwestError(reqwest::Error);

/// An entry of the remote listing. A directory has no digest.
#[derive(Debug)]
pub struct Entry {
    pub path: String,
    pub sha1_hash: Option<String>,
}

/// The answer to a request for the key of an account.
#[derive(Debug)]
pub struct KeyResponse {
    pub error_type: Option<String>,
    pub message: Option<String>,
    pub api_key: Option<String>,
}

/// The answer to an upload or to a deletion.
#[derive(Debug)]
pub struct GenericResponse {
    pub error_type: Option<String>,
    pub message: Option<String>,
}

/// The answer to a request for the listing.
#[derive(Debug)]
pub struct ListResponse {
    pub error_type: Option<String>,
    pub message: Option<String>,
    pub files: Option<Vec<Entry>>,
}

/// An error code of the remote host that this library has no name for, with
/// the message that came with it.
#[derive(Debug)]
pub struct UnclassifiedError {
    pub code: String,
    pub message: Option<String>,
}

/// Why an upload failed.
#[derive(Debug)]
pub enum UploadError {
    /// The remote host does not take a file of this type.
    InvalidFileType,
    /// The key is not valid, or no longer.
    InvalidAuth,
    /// The request did not get through.
    ReqwestError(reqwest::Error),
    /// The remote host gave an error that has no name here.
    Unclassified(UnclassifiedError),
}

/// Why a deletion failed.
#[derive(Debug)]
pub enum DeleteError {
    /// The remote host lacks a file that was to be deleted.
    MissingFiles,
    /// The key is not valid, or no longer.
    InvalidAuth,
    /// The request did not get through.
    ReqwestError(reqwest::Error),
    /// The remote host gave an error that has no name here.
    Unclassified(UnclassifiedError),
}

/// Why the listing could not be had.
#[derive(Debug)]
pub enum ListError {
    /// The key is not valid, or no longer.
    InvalidAuth,
    /// The request did not get through.
    ReqwestError(reqwest::Error),
    /// The remote host gave an error that has no name here.
    Unclassified(UnclassifiedError),
}

impl From<reqwest::Error> for UploadError {
    fn from(error: reqwest::Error) -> (converted: Self) {
        Self::ReqwestError(error)
    }
}

impl vstd::std_specs::convert::FromSpecImpl<reqwest::Error> for UploadError {
    open spec fn obeys_from_spec() -> bool {
        true
    }

    open spec fn from_spec(error: reqwest::Error) -> Self {
        Self::ReqwestError(error)
    }
}

impl From<reqwest::Error> for DeleteError {
    fn from(error: reqwest::Error) -> (converted: Self) {
        Self::ReqwestError(error)
    }
}

impl vstd::std_specs::convert::FromSpecImpl<reqwest::Error> for DeleteError {
    open spec fn obeys_from_spec() -> bool {
        true
    }

    open spec fn from_spec(error: reqwest::Error) -> Self {
        Self::ReqwestError(error)
    }
}

impl From<reqwest::Error> for ListError {
    fn from(error: reqwest::Error) -> (converted: Self) {
        Self::ReqwestError(error)
    }
}

impl vstd::std_specs::convert::FromSpecImpl<reqwest::Error> for ListError {
    open spec fn obeys_from_spec() -> bool {
        true
    }

    open spec fn from_spec(error: reqwest::Error) -> Self {
        Self::ReqwestError(error)
    }
}

/// How a request is made.
#[derive(Debug)]
pub enum Method {
    Get,
    Post,
}

/// What a request carries as a form of several parts.
#[derive(Debug)]
pub enum Body {
    /// No form.
    Empty,
    /// A part for each file: its path as the part's name and as its file
    /// name, its content as the part's bytes.
    Files(Vec<(String, Vec<u8>)>),
    /// A text field `filenames[]` for each path.
    Filenames(Vec<String>),
}

/// A request to the remote host.
#[derive(Debug)]
pub struct Request {
    pub method: Method,
    pub url: &'static str,
    /// The value of the `Authorization` header.
    pub authorization: String,
    pub body: Body,
}

/// The Base64 encoding of `input`, with the standard alphabet and padding,
/// as the `base64` crate writes it.
pub uninterp spec fn base64_standard(input: Seq<u8>) -> Seq<char>;

/// `Engine::encode` of the `base64` crate, on its `STANDARD` engine.
/// Believed of it: the result is a function of the input bytes alone. The
/// crate panics only where the encoded length does not fit in `usize`, which
/// no slice in memory reaches.
#[verifier::external_body]
fn base64_encode(input: &[u8]) -> (out: String)
    ensures
        out@ == base64_standard(input@),
{
    BASE64_STANDARD.encode(input)
}

/// The `Authorization` value that proves a user name and a password.
pub open spec fn basic_authorization(username: Seq<char>, password: Seq<char>) -> Seq<char> {
    "Basic "@ + base64_standard(encode_utf8(username + seq![':'] + password))
}

/// The `Authorization` value that shows a key.
pub open spec fn bearer_authorization(api_key: Seq<char>) -> Seq<char> {
    "Bearer "@ + api_key
}

/// The paths of a delete batch that are sent: all but the protected file.
pub open spec fn sent_for_deletion() -> spec_fn(Seq<char>) -> bool {
    |path: Seq<char>| path != PROTECTED_FILE@
}

/// A connection's state: the key of the account, once there is one.
#[derive(Debug)]
pub struct Neocities {
    pub api_key: Option<String>,
}

/// The `Authorization` value for credentials that are already encoded.
pub fn basic_header(encoded: &str) -> (out: String)
    ensures
        out@ == "Basic "@ + encoded@,
{
    let mut out = String::from_str("Basic ");
    out.append(encoded);
    out
}

fn bearer(api_key: &String) -> (value: String)
    ensures
        value@ == bearer_authorization(api_key@),
{
    let mut value = String::from_str("Bearer ");
    value.append(api_key.as_str());
    value
}

impl Neocities {
    /// A connection without a key.
    pub fn new() -> (neocities: Self)
        ensures
            neocities.api_key is None,
    {
        Self { api_key: None }
    }

    /// The request for the key of an account.
    pub fn login_request(username: &str, password: &str) -> (request: Request)
        ensures
            request.method is Get,
            request.url@ == KEY_URL@,
            request.authorization@ == basic_authorization(username@, password@),
            request.body is Empty,
    {
        let mut credentials = String::from_str(username);
        credentials.push(':');
        credentials.append(password);
        assert(credentials@ == username@ + seq![':'] + password@);
        let encoded = base64_encode(credentials.as_str().as_bytes());
        let authorization = basic_header(encoded.as_str());
        Request { method: Method::Get, url: KEY_URL, authorization, body: Body::Empty }
    }

    /// Reads the answer to a request for the key.
    ///
    /// Without an error the account's key is kept, and the login has
    /// succeeded. With `invalid_auth` the key is dropped, and the login has
    /// failed. Any other error is handed back as it came, and the key stays.
    pub fn login(&mut self, response: KeyResponse) -> (outcome: Result<bool, UnclassifiedError>)
        ensures
            match option_view(response.error_type) {
                None => outcome == Ok::<bool, UnclassifiedError>(true) && option_view(
                    final(self).api_key,
                ) == option_view(response.api_key),
                Some(code) => if code == "invalid_auth"@ {
                    outcome == Ok::<bool, UnclassifiedError>(false) && final(self).api_key is None
                } else {
                    &&& outcome matches Err(unclassified)
                    &&& unclassified.code@ == code
                    &&& option_view(unclassified.message) == option_view(response.message)
                    &&& *final(self) == *old(self)
                },
            },
    {
        let KeyResponse { error_type, message, api_key } = response;
        match error_type {
            None => {
                self.api_key = api_key;
                Ok(true)
            },
            Some(code) => {
                if text_eq(code.as_str(), "invalid_auth") {
                    self.api_key = None;
                    Ok(false)
                } else {
                    Err(UnclassifiedError { code, message })
                }
            },
        }
    }

    /// The request that uploads `files`; none where there is nothing to
    /// upload.
    pub fn upload_request(&self, files: Vec<(String, Vec<u8>)>) -> (request: Option<Request>)
        requires
            files@.len() > 0 ==> self.api_key is Some,
        ensures
            match request {
                None => files@.len() == 0,
                Some(request) => {
                    &&& files@.len() > 0
                    &&& request.method is Post
                    &&& request.url@ == UPLOAD_URL@
                    &&& request.authorization@ == bearer_authorization(self.api_key->0@)
                    &&& request.body == Body::Files(files)
                },
            },
    {
        if files.len() == 0 {
            return None;
        }
        let authorization = bearer(self.api_key.as_ref().unwrap());
        Some(Request { method: Method::Post, url: UPLOAD_URL, authorization, body: Body::Files(files) })
    }

    /// Reads the answer to an upload.
    pub fn upload(response: GenericResponse) -> (outcome: Result<(), UploadError>)
        ensures
            match option_view(response.error_type) {
                None => outcome is Ok,
                Some(code) => if code == "invalid_auth"@ {
                    outcome matches Err(UploadError::InvalidAuth)
                } else if code == "invalid_file_type"@ {
                    outcome matches Err(UploadError::InvalidFileType)
                } else {
                    &&& outcome matches Err(UploadError::Unclassified(unclassified))
                    &&& unclassified.code@ == code
                    &&& option_view(unclassified.message) == option_view(response.message)
                },
            },
    {
        let GenericResponse { error_type, message } = response;
        match error_type {
            None => Ok(()),
            Some(code) => {
                if text_eq(code.as_str(), "invalid_auth") {
                    Err(UploadError::InvalidAuth)
                } else if text_eq(code.as_str(), "invalid_file_type") {
                    Err(UploadError::InvalidFileType)
                } else {
                    Err(UploadError::Unclassified(UnclassifiedError { code, message }))
                }
            },
        }
    }

    /// The request that deletes `files`, without the protected file, which
    /// is never sent; none where nothing is left to delete.
    pub fn delete_request(&self, files: Vec<String>) -> (request: Option<Request>)
        requires
            strings_view(files@).filter(sent_for_deletion()).len() > 0 ==> self.api_key is Some,
        ensures
            match request {
                None => strings_view(files@).filter(sent_for_deletion()).len() == 0,
                Some(request) => {
                    &&& request.method is Post
                    &&& request.url@ == DELETE_URL@
                    &&& request.authorization@ == bearer_authorization(self.api_key->0@)
                    &&& request.body matches Body::Filenames(names)
                    &&& strings_view(names@) == strings_view(files@).filter(sent_for_deletion())
                    &&& names@.len() > 0
                },
            },
    {
        let mut names: Vec<String> = Vec::new();
        let ghost all = strings_view(files@);
        let ghost sent = sent_for_deletion();
        proof {
            assert(all.take(0) == Seq::<Seq<char>>::empty());
            reveal(Seq::filter);
            assert(all.take(0).filter(sent) == Seq::<Seq<char>>::empty());
        }
        for name in it: files
            invariant
                all == strings_view(files@),
                sent == sent_for_deletion(),
                strings_view(names@) == all.take(it.index() as int).filter(sent),
        {
            proof {
                let i = it.index() as int;
                assert(all.take(i + 1) == all.take(i).push(name@));
                all.take(i).lemma_filter_push(name@, sent);
            }
            if !text_eq(name.as_str(), PROTECTED_FILE) {
                let ghost before = names@;
                names.push(name);
                assert(strings_view(names@) == strings_view(before).push(name@));
            }
        }
        proof {
            assert(all.take(all.len() as int) == all);
        }
        if names.len() == 0 {
            return None;
        }
        let authorization = bearer(self.api_key.as_ref().unwrap());
        Some(
            Request {
                method: Method::Post,
                url: DELETE_URL,
                authorization,
                body: Body::Filenames(names),
            },
        )
    }

    /// Reads the answer to a deletion.
    pub fn delete(response: GenericResponse) -> (outcome: Result<(), DeleteError>)
        ensures
            match option_view(response.error_type) {
                None => outcome is Ok,
                Some(code) => if code == "missing_files"@ {
                    outcome matches Err(DeleteError::MissingFiles)
                } else if code == "invalid_auth"@ {
                    outcome matches Err(DeleteError::InvalidAuth)
                } else {
                    &&& outcome matches Err(DeleteError::Unclassified(unclassified))
                    &&& unclassified.code@ == code
                    &&& option_view(unclassified.message) == option_view(response.message)
                },
            },
    {
        let GenericResponse { error_type, message } = response;
        match error_type {
            None => Ok(()),
            Some(code) => {
                if text_eq(code.as_str(), "missing_files") {
                    Err(DeleteError::MissingFiles)
                } else if text_eq(code.as_str(), "invalid_auth") {
                    Err(DeleteError::InvalidAuth)
                } else {
                    Err(DeleteError::Unclassified(UnclassifiedError { code, message }))
                }
            },
        }
    }

    /// The request for the listing of the site.
    pub fn list_request(&self) -> (request: Request)
        requires
            self.api_key is Some,
        ensures
            request.method is Get,
            request.url@ == LIST_URL@,
            request.authorization@ == bearer_authorization(self.api_key->0@),
            request.body is Empty,
    {
        let authorization = bearer(self.api_key.as_ref().unwrap());
        Request { method: Method::Get, url: LIST_URL, authorization, body: Body::Empty }
    }

    /// Reads the answer to a request for the listing.
    pub fn list(response: ListResponse) -> (outcome: Result<Vec<Entry>, ListError>)
        requires
            response.error_type is None ==> response.files is Some,
        ensures
            match option_view(response.error_type) {
                None => outcome == Ok::<Vec<Entry>, ListError>(response.files->0),
                Some(code) => if code == "invalid_auth"@ {
                    outcome matches Err(ListError::InvalidAuth)
                } else {
                    &&& outcome matches Err(ListError::Unclassified(unclassified))
                    &&& unclassified.code@ == code
                    &&& option_view(unclassified.message) == option_view(response.message)
                },
            },
    {
        let ListResponse { error_type, message, files } = response;
        match error_type {
            None => Ok(files.unwrap()),
            Some(code) => {
                if text_eq(code.as_str(), "invalid_auth") {
                    Err(ListError::InvalidAuth)
                } else {
                    Err(ListError::Unclassified(UnclassifiedError { code, message }))
                }
            },
        }
    }
}

} // verus!
