//! The surface handed to the transport shims: the endpoint error
//! taxonomy with its status codes and messages, the response bodies,
//! the greeting, and asset path normalization.  The shims themselves
//! (argument handling, sockets, multipart decoding) live outside the
//! library.

use vstd::prelude::*;

use crate::errors::ParserError;

verus! {

/// An error an endpoint can answer with.
#[derive(Debug)]
pub enum ApiError {
    /// The request itself was unusable.
    BadRequest(String),
    /// The server failed while handling a well-formed request.
    InternalError(String),
    /// The server configuration is unusable.
    ConfigError(String),
}

/// The response body of a failed request.
pub struct ErrorResponse {
    /// The error message.
    pub message: String,
}

/// The response body of the greeting endpoint.
pub struct GreetingResponse {
    /// The greeting message.
    pub message: String,
}

/// The response body of a successfully parsed batch.
pub struct ParseResponse {
    /// The extracted texts, in the order the files were submitted.
    pub texts: Vec<String>,
}

/// The response body of a served static asset.
pub struct AssetResponse {
    /// The raw content of the asset.
    pub content: Vec<u8>,
    /// Its MIME type, as `text/html` or `image/png`.
    pub mime_type: String,
}

impl ApiError {
    /// What `message` returns: the kind's prefix followed by the detail
    /// text.
    pub open spec fn spec_message(&self) -> Seq<char> {
        match self {
            ApiError::BadRequest(m) => "Bad Request: "@ + m@,
            ApiError::InternalError(m) => "Internal Error: "@ + m@,
            ApiError::ConfigError(m) => "Configuration Error: "@ + m@,
        }
    }

    /// The human-readable message of this error.
    pub fn message(&self) -> (r: String)
        ensures
            r@ == self.spec_message(),
    {
        match self {
            ApiError::BadRequest(m) => String::from_str("Bad Request: ").concat(m.as_str()),
            ApiError::InternalError(m) => String::from_str("Internal Error: ").concat(m.as_str()),
            ApiError::ConfigError(m) => String::from_str("Configuration Error: ").concat(
                m.as_str(),
            ),
        }
    }

    /// The HTTP status code of this error: a bad request answers 400,
    /// everything else 500.
    pub fn status_code(&self) -> (r: u16)
        ensures
            self is BadRequest ==> r == 400,
            !(self is BadRequest) ==> r == 500,
    {
        match self {
            ApiError::BadRequest(_) => 400,
            ApiError::InternalError(_) => 500,
            ApiError::ConfigError(_) => 500,
        }
    }

    /// The response body for this error.
    pub fn error_response(&self) -> (r: ErrorResponse)
        ensures
            r.message@ == self.spec_message(),
    {
        ErrorResponse { message: self.message() }
    }

    /// Converts a pipeline error: a classification failure is the
    /// caller's fault and becomes a bad request; every other failure is
    /// the server's and becomes an internal error.  Both carry the
    /// pipeline error's message.
    pub fn from_parser(e: ParserError) -> (r: ApiError)
        ensures
            e is InvalidFormat ==> (r matches ApiError::BadRequest(s) && s@ == e.spec_message()),
            !(e is InvalidFormat) ==> (r matches ApiError::InternalError(s) && s@
                == e.spec_message()),
    {
        let msg = e.message();
        match e {
            ParserError::InvalidFormat(_) => ApiError::BadRequest(msg),
            _ => ApiError::InternalError(msg),
        }
    }
}

/// The guard of the batch surfaces: a submission with no files is
/// rejected as a bad request before any extraction runs.
pub fn reject_empty_batch(file_count: usize) -> (r: Option<ApiError>)
    ensures
        r is Some <==> file_count == 0,
        r matches Some(e) ==> e matches ApiError::BadRequest(m) && m@ == "No files provided"@,
{
    if file_count == 0 {
        Some(ApiError::BadRequest(String::from_str("No files provided")))
    } else {
        None
    }
}

/// Builds the greeting for a caller's name.
pub fn greeting(name: &str) -> (r: GreetingResponse)
    ensures
        r.message@ == "Hello "@ + name@ + "!"@,
{
    GreetingResponse { message: String::from_str("Hello ").concat(name).concat("!") }
}

/// The requested path without its leading slashes.
pub open spec fn drop_leading_slashes(s: Seq<char>) -> Seq<char>
    decreases s.len(),
{
    if s.len() > 0 && s[0] == '/' {
        drop_leading_slashes(s.drop_first())
    } else {
        s
    }
}

/// What asset path normalization returns: the path without leading
/// slashes, or the index page when nothing is left.
pub open spec fn normalized_path(s: Seq<char>) -> Seq<char> {
    if drop_leading_slashes(s).len() == 0 {
        "index.html"@
    } else {
        drop_leading_slashes(s)
    }
}

proof fn lemma_drop_slashes_skip(s: Seq<char>, k: int)
    requires
        0 <= k <= s.len(),
        forall|j: int| 0 <= j < k ==> s[j] == '/',
    ensures
        drop_leading_slashes(s) == drop_leading_slashes(s.skip(k)),
    decreases k,
{
    if k == 0 {
        assert(s.skip(0) =~= s);
    } else {
        assert(s.drop_first() =~= s.skip(1));
        lemma_drop_slashes_skip(s.skip(1), k - 1);
        assert(s.skip(1).skip(k - 1) =~= s.skip(k));
    }
}

/// Normalizes a requested asset path: leading slashes are removed, and
/// an empty request serves the index page.
pub fn normalize_asset_path(path: &str) -> (r: String)
    ensures
        r@ == normalized_path(path@),
{
    let n = path.unicode_len();
    let mut lo: usize = 0;
    while lo < n && path.get_char(lo) == '/'
        invariant
            lo <= n,
            n == path@.len(),
            forall|j: int| 0 <= j < lo ==> path@[j] == '/',
        decreases n - lo,
    {
        lo = lo + 1;
    }
    proof {
        lemma_drop_slashes_skip(path@, lo as int);
        if lo < n {
            assert(path@.skip(lo as int)[0] == path@[lo as int]);
            assert(drop_leading_slashes(path@.skip(lo as int)) == path@.skip(lo as int));
        } else {
            assert(path@.skip(lo as int) =~= Seq::<char>::empty());
        }
    }
    if lo == n {
        String::from_str("index.html")
    } else {
        path.substring_char(lo, n).to_owned()
    }
}

} // verus!
