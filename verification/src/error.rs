//! The error type of the registry.
use vstd::prelude::*;

verus! {

/// Why a registry operation was refused or failed.
#[derive(Debug, PartialEq, Eq)]
pub enum LayerhouseError {
    BlobUnknown(String),
    BlobUploadInvalid(String),
    BlobUploadUnknown(String),
    Conflict(String),
    Consensus(String),
    Denied(String),
    DigestInvalid(String),
    Internal(String),
    ManifestBlobUnknown(String),
    ManifestInvalid(String),
    ManifestUnknown(String),
    NameInvalid(String),
    NameUnknown(String),
    Serialization(String),
    TooManyRequests(String),
    Unauthorized {
        message: String,
        realm: Option<String>,
        service: Option<String>,
        scope: Option<String>,
    },
    Unsupported(String),
}

/// What an error says.
pub enum ErrorView {
    BlobUnknown(Seq<char>),
    BlobUploadInvalid(Seq<char>),
    BlobUploadUnknown(Seq<char>),
    Conflict(Seq<char>),
    Consensus(Seq<char>),
    Denied(Seq<char>),
    DigestInvalid(Seq<char>),
    Internal(Seq<char>),
    ManifestBlobUnknown(Seq<char>),
    ManifestInvalid(Seq<char>),
    ManifestUnknown(Seq<char>),
    NameInvalid(Seq<char>),
    NameUnknown(Seq<char>),
    Serialization(Seq<char>),
    TooManyRequests(Seq<char>),
    Unauthorized {
        message: Seq<char>,
        realm: Option<Seq<char>>,
        service: Option<Seq<char>>,
        scope: Option<Seq<char>>,
    },
    Unsupported(Seq<char>),
}

impl View for LayerhouseError {
    type V = ErrorView;

    open spec fn view(&self) -> ErrorView {
        match self {
            LayerhouseError::BlobUnknown(m) => ErrorView::BlobUnknown(m@),
            LayerhouseError::BlobUploadInvalid(m) => ErrorView::BlobUploadInvalid(m@),
            LayerhouseError::BlobUploadUnknown(m) => ErrorView::BlobUploadUnknown(m@),
            LayerhouseError::Conflict(m) => ErrorView::Conflict(m@),
            LayerhouseError::Consensus(m) => ErrorView::Consensus(m@),
            LayerhouseError::Denied(m) => ErrorView::Denied(m@),
            LayerhouseError::DigestInvalid(m) => ErrorView::DigestInvalid(m@),
            LayerhouseError::Internal(m) => ErrorView::Internal(m@),
            LayerhouseError::ManifestBlobUnknown(m) => ErrorView::ManifestBlobUnknown(m@),
            LayerhouseError::ManifestInvalid(m) => ErrorView::ManifestInvalid(m@),
            LayerhouseError::ManifestUnknown(m) => ErrorView::ManifestUnknown(m@),
            LayerhouseError::NameInvalid(m) => ErrorView::NameInvalid(m@),
            LayerhouseError::NameUnknown(m) => ErrorView::NameUnknown(m@),
            LayerhouseError::Serialization(m) => ErrorView::Serialization(m@),
            LayerhouseError::TooManyRequests(m) => ErrorView::TooManyRequests(m@),
            LayerhouseError::Unauthorized { message, realm, service, scope } => {
                ErrorView::Unauthorized {
                    message: message@,
                    realm: realm.deep_view(),
                    service: service.deep_view(),
                    scope: scope.deep_view(),
                }
            },
            LayerhouseError::Unsupported(m) => ErrorView::Unsupported(m@),
        }
    }
}

/// What an outcome says.
pub open spec fn outcome<T>(r: Result<T, LayerhouseError>) -> Result<T, ErrorView> {
    match r {
        Ok(v) => Ok(v),
        Err(e) => Err(e@),
    }
}

impl ErrorView {
    /// The text that an error carries.
    pub open spec fn message(self) -> Seq<char> {
        match self {
            ErrorView::BlobUnknown(m) => m,
            ErrorView::BlobUploadInvalid(m) => m,
            ErrorView::BlobUploadUnknown(m) => m,
            ErrorView::Conflict(m) => m,
            ErrorView::Consensus(m) => m,
            ErrorView::Denied(m) => m,
            ErrorView::DigestInvalid(m) => m,
            ErrorView::Internal(m) => m,
            ErrorView::ManifestBlobUnknown(m) => m,
            ErrorView::ManifestInvalid(m) => m,
            ErrorView::ManifestUnknown(m) => m,
            ErrorView::NameInvalid(m) => m,
            ErrorView::NameUnknown(m) => m,
            ErrorView::Serialization(m) => m,
            ErrorView::TooManyRequests(m) => m,
            ErrorView::Unauthorized { message, .. } => message,
            ErrorView::Unsupported(m) => m,
        }
    }
}

impl LayerhouseError {
    /// The text that the error carries.
    pub fn message(&self) -> (r: &String)
        ensures
            r@ == self@.message(),
    {
        match self {
            LayerhouseError::BlobUnknown(m) => m,
            LayerhouseError::BlobUploadInvalid(m) => m,
            LayerhouseError::BlobUploadUnknown(m) => m,
            LayerhouseError::Conflict(m) => m,
            LayerhouseError::Consensus(m) => m,
            LayerhouseError::Denied(m) => m,
            LayerhouseError::DigestInvalid(m) => m,
            LayerhouseError::Internal(m) => m,
            LayerhouseError::ManifestBlobUnknown(m) => m,
            LayerhouseError::ManifestInvalid(m) => m,
            LayerhouseError::ManifestUnknown(m) => m,
            LayerhouseError::NameInvalid(m) => m,
            LayerhouseError::NameUnknown(m) => m,
            LayerhouseError::Serialization(m) => m,
            LayerhouseError::TooManyRequests(m) => m,
            LayerhouseError::Unauthorized { message, .. } => message,
            LayerhouseError::Unsupported(m) => m,
        }
    }
}

impl ErrorView {
    /// The HTTP status that an error is answered with.
    pub open spec fn status(self) -> u16 {
        match self {
            ErrorView::BlobUploadInvalid(_) => 400,
            ErrorView::DigestInvalid(_) => 400,
            ErrorView::ManifestInvalid(_) => 400,
            ErrorView::NameInvalid(_) => 400,
            ErrorView::Unauthorized { .. } => 401,
            ErrorView::Denied(_) => 403,
            ErrorView::BlobUnknown(_) => 404,
            ErrorView::BlobUploadUnknown(_) => 404,
            ErrorView::ManifestBlobUnknown(_) => 404,
            ErrorView::ManifestUnknown(_) => 404,
            ErrorView::NameUnknown(_) => 404,
            ErrorView::Unsupported(_) => 405,
            ErrorView::Conflict(_) => 409,
            ErrorView::TooManyRequests(_) => 429,
            ErrorView::Consensus(_) => 500,
            ErrorView::Internal(_) => 500,
            ErrorView::Serialization(_) => 500,
        }
    }

    /// The code under which clients know an error.
    pub open spec fn code(self) -> Seq<char> {
        match self {
            ErrorView::BlobUploadInvalid(_) => "BLOB_UPLOAD_INVALID"@,
            ErrorView::DigestInvalid(_) => "DIGEST_INVALID"@,
            ErrorView::ManifestInvalid(_) => "MANIFEST_INVALID"@,
            ErrorView::NameInvalid(_) => "NAME_INVALID"@,
            ErrorView::Unauthorized { .. } => "UNAUTHORIZED"@,
            ErrorView::Denied(_) => "DENIED"@,
            ErrorView::BlobUnknown(_) => "BLOB_UNKNOWN"@,
            ErrorView::BlobUploadUnknown(_) => "BLOB_UPLOAD_UNKNOWN"@,
            ErrorView::ManifestBlobUnknown(_) => "MANIFEST_BLOB_UNKNOWN"@,
            ErrorView::ManifestUnknown(_) => "MANIFEST_UNKNOWN"@,
            ErrorView::NameUnknown(_) => "NAME_UNKNOWN"@,
            ErrorView::Unsupported(_) => "UNSUPPORTED"@,
            ErrorView::Conflict(_) => "CONFLICT"@,
            ErrorView::TooManyRequests(_) => "TOOMANYREQUESTS"@,
            ErrorView::Consensus(_) => "INTERNAL_ERROR"@,
            ErrorView::Internal(_) => "INTERNAL_ERROR"@,
            ErrorView::Serialization(_) => "INTERNAL_ERROR"@,
        }
    }
}

impl LayerhouseError {
    /// The HTTP status that the error is answered with.
    pub fn status(&self) -> (r: u16)
        ensures
            r == self@.status(),
    {
        match self {
            LayerhouseError::BlobUploadInvalid(_) => 400,
            LayerhouseError::DigestInvalid(_) => 400,
            LayerhouseError::ManifestInvalid(_) => 400,
            LayerhouseError::NameInvalid(_) => 400,
            LayerhouseError::Unauthorized { .. } => 401,
            LayerhouseError::Denied(_) => 403,
            LayerhouseError::BlobUnknown(_) => 404,
            LayerhouseError::BlobUploadUnknown(_) => 404,
            LayerhouseError::ManifestBlobUnknown(_) => 404,
            LayerhouseError::ManifestUnknown(_) => 404,
            LayerhouseError::NameUnknown(_) => 404,
            LayerhouseError::Unsupported(_) => 405,
            LayerhouseError::Conflict(_) => 409,
            LayerhouseError::TooManyRequests(_) => 429,
            LayerhouseError::Consensus(_) => 500,
            LayerhouseError::Internal(_) => 500,
            LayerhouseError::Serialization(_) => 500,
        }
    }

    /// The code under which clients know the error.
    pub fn code(&self) -> (r: &'static str)
        ensures
            r@ == self@.code(),
    {
        match self {
            LayerhouseError::BlobUploadInvalid(_) => "BLOB_UPLOAD_INVALID",
            LayerhouseError::DigestInvalid(_) => "DIGEST_INVALID",
            LayerhouseError::ManifestInvalid(_) => "MANIFEST_INVALID",
            LayerhouseError::NameInvalid(_) => "NAME_INVALID",
            LayerhouseError::Unauthorized { .. } => "UNAUTHORIZED",
            LayerhouseError::Denied(_) => "DENIED",
            LayerhouseError::BlobUnknown(_) => "BLOB_UNKNOWN",
            LayerhouseError::BlobUploadUnknown(_) => "BLOB_UPLOAD_UNKNOWN",
            LayerhouseError::ManifestBlobUnknown(_) => "MANIFEST_BLOB_UNKNOWN",
            LayerhouseError::ManifestUnknown(_) => "MANIFEST_UNKNOWN",
            LayerhouseError::NameUnknown(_) => "NAME_UNKNOWN",
            LayerhouseError::Unsupported(_) => "UNSUPPORTED",
            LayerhouseError::Conflict(_) => "CONFLICT",
            LayerhouseError::TooManyRequests(_) => "TOOMANYREQUESTS",
            LayerhouseError::Consensus(_) => "INTERNAL_ERROR",
            LayerhouseError::Internal(_) => "INTERNAL_ERROR",
            LayerhouseError::Serialization(_) => "INTERNAL_ERROR",
        }
    }
}

/// What a client got wrong is answered in the four hundreds, and only that: what is not there
/// with 404, what is not allowed with 401 or 403, what is badly formed with 400. What went
/// wrong inside is answered with 500.
pub proof fn lemma_statuses(e: &LayerhouseError, r: u16)
    requires
        call_ensures(LayerhouseError::status, (e,), r),
    ensures
        r == 404 <==> e is BlobUnknown || e is BlobUploadUnknown || e is ManifestBlobUnknown
            || e is ManifestUnknown || e is NameUnknown,
        r == 400 <==> e is BlobUploadInvalid || e is DigestInvalid || e is ManifestInvalid
            || e is NameInvalid,
        r == 401 <==> e is Unauthorized,
        r == 403 <==> e is Denied,
        r == 405 <==> e is Unsupported,
        r == 409 <==> e is Conflict,
        r == 429 <==> e is TooManyRequests,
        r == 500 <==> e is Consensus || e is Internal || e is Serialization,
{
}

/// The code of an error tells its kind, but for what went wrong inside, which is one kind to
/// clients.
pub proof fn lemma_codes(e: &LayerhouseError, r: &'static str)
    requires
        call_ensures(LayerhouseError::code, (e,), r),
    ensures
        e is BlobUnknown ==> r@ == "BLOB_UNKNOWN"@,
        e is BlobUploadInvalid ==> r@ == "BLOB_UPLOAD_INVALID"@,
        e is BlobUploadUnknown ==> r@ == "BLOB_UPLOAD_UNKNOWN"@,
        e is Conflict ==> r@ == "CONFLICT"@,
        e is Denied ==> r@ == "DENIED"@,
        e is DigestInvalid ==> r@ == "DIGEST_INVALID"@,
        e is ManifestBlobUnknown ==> r@ == "MANIFEST_BLOB_UNKNOWN"@,
        e is ManifestInvalid ==> r@ == "MANIFEST_INVALID"@,
        e is ManifestUnknown ==> r@ == "MANIFEST_UNKNOWN"@,
        e is NameInvalid ==> r@ == "NAME_INVALID"@,
        e is NameUnknown ==> r@ == "NAME_UNKNOWN"@,
        e is TooManyRequests ==> r@ == "TOOMANYREQUESTS"@,
        e is Unauthorized ==> r@ == "UNAUTHORIZED"@,
        e is Unsupported ==> r@ == "UNSUPPORTED"@,
        e is Consensus || e is Internal || e is Serialization ==> r@ == "INTERNAL_ERROR"@,
{
}

/// An error says what it was made with.
pub proof fn lemma_messages(e: &LayerhouseError, r: &String)
    requires
        call_ensures(LayerhouseError::message, (e,), r),
    ensures
        e matches LayerhouseError::BlobUnknown(m) ==> r@ == m@,
        e matches LayerhouseError::BlobUploadInvalid(m) ==> r@ == m@,
        e matches LayerhouseError::BlobUploadUnknown(m) ==> r@ == m@,
        e matches LayerhouseError::Conflict(m) ==> r@ == m@,
        e matches LayerhouseError::Consensus(m) ==> r@ == m@,
        e matches LayerhouseError::Denied(m) ==> r@ == m@,
        e matches LayerhouseError::DigestInvalid(m) ==> r@ == m@,
        e matches LayerhouseError::Internal(m) ==> r@ == m@,
        e matches LayerhouseError::ManifestBlobUnknown(m) ==> r@ == m@,
        e matches LayerhouseError::ManifestInvalid(m) ==> r@ == m@,
        e matches LayerhouseError::ManifestUnknown(m) ==> r@ == m@,
        e matches LayerhouseError::NameInvalid(m) ==> r@ == m@,
        e matches LayerhouseError::NameUnknown(m) ==> r@ == m@,
        e matches LayerhouseError::Serialization(m) ==> r@ == m@,
        e matches LayerhouseError::TooManyRequests(m) ==> r@ == m@,
        e matches LayerhouseError::Unauthorized { message, .. } ==> r@ == message@,
        e matches LayerhouseError::Unsupported(m) ==> r@ == m@,
{
}

} // verus!
