use vstd::prelude::*;

use crate::decimal::{decimal_digits, format_decimal};

verus! {

/// Header that carries the internal API key.
pub open spec fn internal_auth_header() -> Seq<char> {
    "x-document-storage-service-auth-key"@
}

/// Header that carries the acting user id.
pub open spec fn internal_user_id_header() -> Seq<char> {
    "x-document-storage-service-user-id"@
}

/// Errors of the document service.
#[derive(Debug, Clone, PartialEq, Eq)]
pub enum DocumentError {
    NotFound(String),
    Unauthorized,
    Gone,
    Conflict(String),
    BadRequest(String),
    NameTooLong { max: u64 },
    Internal(String),
}

/// Errors of the internal document API.
#[derive(Debug, Clone, PartialEq, Eq)]
pub enum LeanApiError {
    BadUserId(String),
    Document(DocumentError),
    MissingUserId,
    Unauthorized,
}

impl LeanApiError {
    /// Wraps a document service error.
    pub fn from_document(error: DocumentError) -> (e: Self)
        ensures
            e == LeanApiError::Document(error),
    {
        LeanApiError::Document(error)
    }
}

/// An HTTP reply: status code and, when there is one, a text body.
#[derive(Debug, Clone, PartialEq, Eq)]
pub struct HttpReply {
    pub status: u16,
    pub body: Option<String>,
}

/// The status and body text that an error is answered with.
pub open spec fn lean_error_reply(e: LeanApiError) -> (u16, Option<Seq<char>>) {
    match e {
        LeanApiError::BadUserId(msg) => (400, Some("invalid internal user id: "@ + msg@)),
        LeanApiError::Document(DocumentError::NotFound(msg)) => (404, Some(msg@)),
        LeanApiError::Document(DocumentError::Unauthorized) => (401, None),
        LeanApiError::Unauthorized => (401, None),
        LeanApiError::Document(DocumentError::Gone) => (410, None),
        LeanApiError::Document(DocumentError::Conflict(msg)) => (409, Some(msg@)),
        LeanApiError::Document(DocumentError::BadRequest(msg)) => (400, Some(msg@)),
        LeanApiError::Document(DocumentError::NameTooLong { max }) => (
            422,
            Some("document name exceeds max length "@ + decimal_digits(max as nat)),
        ),
        LeanApiError::Document(DocumentError::Internal(_)) => (500, None),
        LeanApiError::MissingUserId => (400, Some("missing "@ + internal_user_id_header() + " header"@)),
    }
}

/// The view of a reply.
pub open spec fn reply_view(r: HttpReply) -> (u16, Option<Seq<char>>) {
    (
        r.status,
        match r.body {
            Some(b) => Some(b@),
            None => None,
        },
    )
}

fn reply(status: u16, body: String) -> (r: HttpReply)
    ensures
        reply_view(r) == (status, Some(body@)),
{
    HttpReply { status, body: Some(body) }
}

fn bare(status: u16) -> (r: HttpReply)
    ensures
        reply_view(r) == (status, None::<Seq<char>>),
{
    HttpReply { status, body: None }
}

impl LeanApiError {
    /// The HTTP reply for the error; internal failures are answered without
    /// detail.
    pub fn into_response(self) -> (r: HttpReply)
        ensures
            reply_view(r) == lean_error_reply(self),
    {
        match self {
            LeanApiError::BadUserId(error) => {
                let head = "invalid internal user id: ";
                proof {
                    reveal_strlit("invalid internal user id: ");
                }
                let mut body = head.to_string();
                body.append(error.as_str());
                reply(400, body)
            },
            LeanApiError::Document(DocumentError::NotFound(error)) => reply(404, error),
            LeanApiError::Document(DocumentError::Unauthorized) | LeanApiError::Unauthorized => bare(401),
            LeanApiError::Document(DocumentError::Gone) => bare(410),
            LeanApiError::Document(DocumentError::Conflict(error)) => reply(409, error),
            LeanApiError::Document(DocumentError::BadRequest(error)) => reply(400, error),
            LeanApiError::Document(DocumentError::NameTooLong { max }) => {
                let head = "document name exceeds max length ";
                proof {
                    reveal_strlit("document name exceeds max length ");
                }
                let mut body = head.to_string();
                let digits = format_decimal(max);
                body.append(digits.as_str());
                reply(422, body)
            },
            LeanApiError::Document(DocumentError::Internal(_)) => bare(500),
            LeanApiError::MissingUserId => {
                let text = "missing x-document-storage-service-user-id header";
                proof {
                    reveal_strlit("missing x-document-storage-service-user-id header");
                    reveal_strlit("missing ");
                    reveal_strlit("x-document-storage-service-user-id");
                    reveal_strlit(" header");
                    assert(text@ =~= "missing "@ + internal_user_id_header() + " header"@);
                }
                reply(400, text.to_string())
            },
        }
    }
}

/// Admits an internal request only when the auth header is present and
/// equals the service key.
pub fn ensure_internal_auth(auth_header: Option<&str>, auth_key: &str) -> (r: Result<(), LeanApiError>)
    ensures
        r == ensure_internal_auth_spec(auth_header, auth_key@),
{
    match auth_header {
        Some(auth) => {
            if auth.to_string() == auth_key.to_string() {
                Ok(())
            } else {
                Err(LeanApiError::Unauthorized)
            }
        },
        None => Err(LeanApiError::Unauthorized),
    }
}

/// The internal health check: the auth check, then `healthy`.
pub fn internal_health(auth_header: Option<&str>, auth_key: &str) -> (r: Result<String, LeanApiError>)
    ensures
        match ensure_internal_auth_spec(auth_header, auth_key@) {
            Ok(()) => r matches Ok(body) && body@ == "healthy"@,
            Err(e) => r == Err::<String, LeanApiError>(e),
        },
{
    match ensure_internal_auth(auth_header, auth_key) {
        Ok(()) => {
            proof {
                reveal_strlit("healthy");
            }
            Ok("healthy".to_string())
        },
        Err(e) => Err(e),
    }
}

/// The outcome of the auth check.
pub open spec fn ensure_internal_auth_spec(auth_header: Option<&str>, key: Seq<char>) -> Result<(), LeanApiError> {
    match auth_header {
        Some(a) => if a@ == key {
            Ok(())
        } else {
            Err(LeanApiError::Unauthorized)
        },
        None => Err(LeanApiError::Unauthorized),
    }
}

/// The checks that come before creating a document: the auth check, then the
/// presence of the user id header, whose value is returned.
pub fn create_document_preflight(
    auth_header: Option<&str>,
    auth_key: &str,
    user_id_header: Option<&str>,
) -> (r: Result<String, LeanApiError>)
    ensures
        match ensure_internal_auth_spec(auth_header, auth_key@) {
            Err(e) => r == Err::<String, LeanApiError>(e),
            Ok(()) => match user_id_header {
                Some(u) => r matches Ok(id) && id@ == u@,
                None => r == Err::<String, LeanApiError>(LeanApiError::MissingUserId),
            },
        },
{
    ensure_internal_auth(auth_header, auth_key)?;
    match user_id_header {
        Some(u) => Ok(u.to_string()),
        None => Err(LeanApiError::MissingUserId),
    }
}

/// The document name and file type stored for a new document. A file type
/// given by the caller wins, with the name cleaned when cleaning applies;
/// otherwise a recognised extension is split off the name; otherwise the
/// name is kept and no type is recorded.
pub open spec fn resolved_name_and_type<F>(
    document_name: Seq<char>,
    user_file_type: Option<F>,
    cleaned_name: Option<Seq<char>>,
    suffix_split: Option<(Seq<char>, Option<F>)>,
) -> (Seq<char>, Option<F>) {
    match user_file_type {
        Some(ft) => (
            match cleaned_name {
                Some(c) => c,
                None => document_name,
            },
            Some(ft),
        ),
        None => match suffix_split {
            Some((stem, ext)) => (stem, ext),
            None => (document_name, None),
        },
    }
}

/// Decides the stored name and file type (see `resolved_name_and_type`);
/// `cleaned_name` and `suffix_split` are what the file-type helpers returned
/// for the requested name.
pub fn resolve_document_name<F: Copy>(
    document_name: String,
    user_file_type: Option<F>,
    cleaned_name: Option<String>,
    suffix_split: Option<(String, Option<F>)>,
) -> (r: (String, Option<F>))
    ensures
        (r.0@, r.1) == resolved_name_and_type(
            document_name@,
            user_file_type,
            match cleaned_name {
                Some(c) => Some(c@),
                None => None,
            },
            match suffix_split {
                Some(p) => Some((p.0@, p.1)),
                None => None,
            },
        ),
{
    match user_file_type {
        Some(ft) => {
            let name = match cleaned_name {
                Some(c) => c,
                None => document_name,
            };
            (name, Some(ft))
        },
        None => match suffix_split {
            Some((stem, ext)) => (stem, ext),
            None => (document_name, None),
        },
    }
}

/// The sub-type recorded for a new document.
#[derive(Debug, Clone, Copy, PartialEq, Eq)]
pub enum DocumentSubType {
    Task,
}

/// A request marked as a task records the task sub-type; any other document
/// records none.
pub fn requested_sub_type(is_task: bool) -> (sub_type: Option<DocumentSubType>)
    ensures
        sub_type == (if is_task {
            Some(DocumentSubType::Task)
        } else {
            None
        }),
{
    if is_task {
        Some(DocumentSubType::Task)
    } else {
        None
    }
}

/// Where a create-document request is sent.
#[derive(Debug, Clone, Copy, PartialEq, Eq)]
pub enum CreateRoute<A> {
    /// Import the email attachment with this id as the new document.
    ImportEmailAttachment(A),
    /// Create the document directly.
    Create,
}

/// A request that names an email attachment imports it; any other request
/// creates the document directly.
pub fn create_route<A>(email_attachment_id: Option<A>) -> (route: CreateRoute<A>)
    ensures
        route == (match email_attachment_id {
            Some(a) => CreateRoute::ImportEmailAttachment(a),
            None => CreateRoute::Create,
        }),
{
    match email_attachment_id {
        Some(a) => CreateRoute::ImportEmailAttachment(a),
        None => CreateRoute::Create,
    }
}

/// What a create-document request is turned into once its checks pass: the
/// acting user, the stored name and file type, the sub-type, and where the
/// request is sent.
pub struct CreateDocumentPlan<F, A> {
    pub user_id: String,
    pub document_name: String,
    pub file_type: Option<F>,
    pub sub_type: Option<DocumentSubType>,
    pub route: CreateRoute<A>,
}

/// The create-document decisions in the order the handler takes them: the
/// auth check; then the user id header, refused when missing; then the user
/// id, refused with the parser's message (`user_id_error`, what the user-id
/// parser said of the header's value) when it is not valid; and only then the
/// plan: the resolved name and file type (see `resolved_name_and_type`), the
/// task sub-type when `is_task`, and the route (see `create_route`).
pub fn create_document_plan<F: Copy, A>(
    auth_header: Option<&str>,
    auth_key: &str,
    user_id_header: Option<&str>,
    user_id_error: Option<String>,
    document_name: String,
    user_file_type: Option<F>,
    cleaned_name: Option<String>,
    suffix_split: Option<(String, Option<F>)>,
    is_task: bool,
    email_attachment_id: Option<A>,
) -> (r: Result<CreateDocumentPlan<F, A>, LeanApiError>)
    ensures
        match ensure_internal_auth_spec(auth_header, auth_key@) {
            Err(e) => r == Err::<CreateDocumentPlan<F, A>, LeanApiError>(e),
            Ok(()) => match user_id_header {
                None => r == Err::<CreateDocumentPlan<F, A>, LeanApiError>(LeanApiError::MissingUserId),
                Some(u) => match user_id_error {
                    Some(msg) => r matches Err(LeanApiError::BadUserId(m)) && m@ == msg@,
                    None => r matches Ok(p) && {
                        &&& p.user_id@ == u@
                        &&& (p.document_name@, p.file_type) == resolved_name_and_type(
                            document_name@,
                            user_file_type,
                            match cleaned_name {
                                Some(c) => Some(c@),
                                None => None,
                            },
                            match suffix_split {
                                Some(q) => Some((q.0@, q.1)),
                                None => None,
                            },
                        )
                        &&& p.sub_type == (if is_task {
                            Some(DocumentSubType::Task)
                        } else {
                            None
                        })
                        &&& p.route == (match email_attachment_id {
                            Some(a) => CreateRoute::ImportEmailAttachment(a),
                            None => CreateRoute::Create,
                        })
                    },
                },
            },
        },
{
    let user_id = match create_document_preflight(auth_header, auth_key, user_id_header) {
        Ok(u) => u,
        Err(e) => {
            return Err(e);
        },
    };
    let (name, file_type) = resolve_document_name(
        document_name,
        user_file_type,
        cleaned_name,
        suffix_split,
    );
    match user_id_error {
        Some(msg) => Err(LeanApiError::BadUserId(msg)),
        None => Ok(
            CreateDocumentPlan {
                user_id,
                document_name: name,
                file_type,
                sub_type: requested_sub_type(is_task),
                route: create_route(email_attachment_id),
            },
        ),
    }
}

/// A warning is due when both a file type and a caller MIME type are known
/// and they differ.
pub fn mime_type_mismatch(file_type_mime: Option<&str>, user_mime_type: Option<&str>) -> (warn: bool)
    ensures
        warn == (match (file_type_mime, user_mime_type) {
            (Some(f), Some(u)) => f@ != u@,
            _ => false,
        }),
{
    match (file_type_mime, user_mime_type) {
        (Some(f), Some(u)) => f.to_string() != u.to_string(),
        _ => false,
    }
}

/// The deployment environment.
#[derive(Debug, Clone, Copy, PartialEq, Eq)]
pub enum Environment {
    Production,
    Develop,
    Local,
}

/// Minimum and maximum database connections for an environment.
pub fn pool_connection_bounds(env: Environment) -> (bounds: (u32, u32))
    ensures
        bounds == (match env {
            Environment::Production => (50u32, 150u32),
            Environment::Develop => (25u32, 100u32),
            Environment::Local => (15u32, 50u32),
        }),
{
    match env {
        Environment::Production => (50, 150),
        Environment::Develop => (25, 100),
        Environment::Local => (15, 50),
    }
}

} // verus!
