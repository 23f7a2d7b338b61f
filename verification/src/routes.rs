//! What the service answers to a request, given the store and the request's
//! headers.
//!
//! Each function here is the whole of one request but for its transport: the
//! caller takes the request apart, holds the store's lock for the time of the
//! call, and writes the answer out.

use crate::error::Artifact;
use crate::error::Error;
use crate::prover::is_receipt;
use crate::prover::receipt_decodes;
use crate::prover::Task;
use crate::state::bytes_of;
use crate::state::data_of;
use crate::state::stamped;
use crate::state::status_after;
use crate::state::BonsaiState;
use crate::state::SessionEvent;
use crate::state::SessionStats;
use crate::state::SessionStatus;
use crate::text::trim_end_matches;
use crate::text::without_trailing;
use crate::text::CharClass;
use crate::url_resolver::forwarding_headers;
use crate::url_resolver::header_texts;
use crate::url_resolver::string_view;
use crate::url_resolver::text_of;
use crate::url_resolver::ForwardingHeaders;
use crate::url_resolver::resolved;
use crate::url_resolver::BaseUrl;
use crate::url_resolver::ServerUrlError;
use crate::url_resolver::ServerUrlResolver;
use crate::url_resolver::UrlView;
use axum::http::HeaderMap;
use uuid::Uuid;
use vstd::prelude::*;

verus! {

/// Calls `Uuid::new_v4` of the crate `uuid` and writes the identifier out in
/// its hyphenated form. The identifier is random: nothing is claimed of it.
#[verifier::external_body]
fn fresh_id() -> (id: String) {
    Uuid::new_v4().to_string()
}

/// Where to upload something whose identifier the client chose.
#[derive(Debug, PartialEq, Eq)]
pub struct ImageUpload {
    /// The URL to upload to.
    pub url: String,
}

/// Where to upload something, and the identifier that the service gave it.
#[derive(Debug, PartialEq, Eq)]
pub struct Upload {
    /// The URL to upload to.
    pub url: String,
    /// The identifier.
    pub uuid: String,
}

/// How a session stands.
#[derive(Debug, PartialEq, Eq)]
pub struct SessionReport {
    /// The wire name of the session's status.
    pub status: String,
    /// Where to download the receipt, once there is one.
    pub receipt_url: Option<String>,
    /// The statistics of the execution, once there is a receipt.
    pub stats: Option<SessionStats>,
}

/// How the conversion of a receipt stands.
#[derive(Debug, PartialEq, Eq)]
pub struct SnarkReport {
    /// The wire name of the conversion's status.
    pub status: String,
    /// Where to download the receipt, once there is one.
    pub output: Option<String>,
}

/// A [`SessionReport`] by its texts.
pub struct SessionReportView {
    pub status: Seq<char>,
    pub receipt_url: Option<Seq<char>>,
    pub stats: Option<SessionStats>,
}

/// A [`SnarkReport`] by its texts.
pub struct SnarkReportView {
    pub status: Seq<char>,
    pub output: Option<Seq<char>>,
}

impl View for SessionReport {
    type V = SessionReportView;

    open spec fn view(&self) -> SessionReportView {
        SessionReportView {
            status: self.status@,
            receipt_url: match self.receipt_url {
                Some(url) => Some(url@),
                None => None,
            },
            stats: self.stats,
        }
    }
}

impl View for SnarkReport {
    type V = SnarkReportView;

    open spec fn view(&self) -> SnarkReportView {
        SnarkReportView {
            status: self.status@,
            output: match self.output {
                Some(url) => Some(url@),
                None => None,
            },
        }
    }
}

/// The URL of the thing `id` of the collection `collection` on the server at
/// `base`: the base without slashes at its end, then the collection and the
/// identifier, each after one slash.
pub open spec fn spec_link(base: Seq<char>, collection: Seq<char>, id: Seq<char>) -> Seq<char> {
    trim_end_matches(base, CharClass::Only('/')) + "/"@ + collection + "/"@ + id
}

/// The URL of the thing `id` of the collection `collection` on the server at
/// `base`.
pub fn link(base: &BaseUrl, collection: &str, id: &str) -> (url: String)
    ensures
        url@ == spec_link(base@.href, collection@, id@),
{
    let mut url = String::from_str(without_trailing(base.as_str(), '/'));
    url.append("/");
    url.append(collection);
    url.append("/");
    url.append(id);
    url
}

/// The URL of the thing `id` of `collection`, where the server's base URL
/// could be made out.
pub open spec fn linked(
    base: Result<UrlView, ServerUrlError>,
    collection: Seq<char>,
    id: Seq<char>,
) -> Result<Seq<char>, Error> {
    match base {
        Ok(base) => Ok(spec_link(base.href, collection, id)),
        Err(_) => Err(Error::ServerUrlResolution),
    }
}

/// The URL of the thing `id` of `collection` for a request with the headers
/// `headers`.
pub fn resolve_link(
    resolver: &ServerUrlResolver,
    headers: &HeaderMap,
    collection: &str,
    id: &str,
) -> (url: Result<String, Error>)
    ensures
        match url {
            Ok(url) => linked(
                resolved(resolver.fixed(), header_texts(*headers)),
                collection@,
                id@,
            ) == Ok::<Seq<char>, Error>(url@),
            Err(error) => linked(
                resolved(resolver.fixed(), header_texts(*headers)),
                collection@,
                id@,
            ) == Err::<Seq<char>, Error>(error),
        },
{
    match resolver.resolve(headers) {
        Ok(base) => Ok(link(&base, collection, id)),
        Err(_) => Err(Error::ServerUrlResolution),
    }
}

/// What a client gets who asks where to upload the image `image_id`.
pub open spec fn spec_image_upload(
    store: &BonsaiState,
    image_id: Seq<char>,
    base: Result<UrlView, ServerUrlError>,
) -> Result<Seq<char>, Error> {
    if store.images().contains_key(image_id) {
        Err(Error::ImageIdExists)
    } else {
        linked(base, "images"@, image_id)
    }
}

/// Answers a client who asks where to upload the image `image_id`: with an
/// error if the store has that image, else with the URL.
pub fn get_image_upload(
    store: &BonsaiState,
    image_id: &str,
    resolver: &ServerUrlResolver,
    headers: &HeaderMap,
) -> (answer: Result<ImageUpload, Error>)
    requires
        store.wf(),
    ensures
        match answer {
            Ok(upload) => spec_image_upload(
                store,
                image_id@,
                resolved(resolver.fixed(), header_texts(*headers)),
            ) == Ok::<Seq<char>, Error>(upload.url@),
            Err(error) => spec_image_upload(
                store,
                image_id@,
                resolved(resolver.fixed(), header_texts(*headers)),
            ) == Err::<Seq<char>, Error>(error),
        },
{
    match store.get_image(image_id) {
        Some(_) => Err(Error::ImageIdExists),
        None => match resolve_link(resolver, headers, "images", image_id) {
            Ok(url) => Ok(ImageUpload { url }),
            Err(error) => Err(error),
        },
    }
}

/// Answers a client who asks where to upload into `collection`, with `id`
/// as the identifier of what will be uploaded.
pub fn upload_as(
    resolver: &ServerUrlResolver,
    headers: &HeaderMap,
    collection: &str,
    id: String,
) -> (answer: Result<Upload, Error>)
    ensures
        match answer {
            Ok(upload) => upload.uuid@ == id@ && linked(
                resolved(resolver.fixed(), header_texts(*headers)),
                collection@,
                id@,
            ) == Ok::<Seq<char>, Error>(upload.url@),
            Err(error) => linked(
                resolved(resolver.fixed(), header_texts(*headers)),
                collection@,
                id@,
            ) == Err::<Seq<char>, Error>(error),
        },
{
    match resolve_link(resolver, headers, collection, id.as_str()) {
        Ok(url) => Ok(Upload { url, uuid: id }),
        Err(error) => Err(error),
    }
}

/// Answers a client who asks where to upload an input, under a fresh
/// identifier.
pub fn get_input_upload(
    resolver: &ServerUrlResolver,
    headers: &HeaderMap,
) -> (answer: Result<Upload, Error>)
    ensures
        match answer {
            Ok(upload) => linked(
                resolved(resolver.fixed(), header_texts(*headers)),
                "inputs"@,
                upload.uuid@,
            ) == Ok::<Seq<char>, Error>(upload.url@),
            Err(error) => error == Error::ServerUrlResolution && resolved(
                resolver.fixed(),
                header_texts(*headers),
            ) is Err,
        },
{
    upload_as(resolver, headers, "inputs", fresh_id())
}

/// Answers a client who asks where to upload a receipt, under a fresh
/// identifier.
pub fn get_receipt_upload(
    resolver: &ServerUrlResolver,
    headers: &HeaderMap,
) -> (answer: Result<Upload, Error>)
    ensures
        match answer {
            Ok(upload) => linked(
                resolved(resolver.fixed(), header_texts(*headers)),
                "receipts"@,
                upload.uuid@,
            ) == Ok::<Seq<char>, Error>(upload.url@),
            Err(error) => error == Error::ServerUrlResolution && resolved(
                resolver.fixed(),
                header_texts(*headers),
            ) is Err,
        },
{
    upload_as(resolver, headers, "receipts", fresh_id())
}

/// Opens the session `session_id` at the time `now`: the session is running,
/// and the task to hand to the prover is returned.
pub fn create_session_at(
    store: &mut BonsaiState,
    session_id: String,
    image_id: String,
    input_id: String,
    assumptions: Vec<String>,
    now: u128,
) -> (task: Task)
    requires
        old(store).wf(),
    ensures
        final(store).wf(),
        final(store).same_but_sessions(old(store)),
        final(store).latest() == old(store).latest(),
        final(store).sessions() == old(store).sessions().insert(
            session_id@,
            stamped((SessionStatus::Running, None::<SessionStats>), now),
        ),
        final(store).status_of(session_id@) == status_after(SessionEvent::Created),
        task.session_id@ == session_id@,
        task.image_id == image_id,
        task.input_id == input_id,
        task.assumptions == assumptions,
{
    store.put_session_at(session_id.clone(), SessionStatus::Running, None, now);
    Task { session_id, image_id, input_id, assumptions }
}

/// Opens a session under a fresh identifier at the present time: the session
/// is running, and the task to hand to the prover is returned.
pub fn create_session(
    store: &mut BonsaiState,
    image_id: String,
    input_id: String,
    assumptions: Vec<String>,
) -> (task: Task)
    requires
        old(store).wf(),
    ensures
        final(store).wf(),
        final(store).same_but_sessions(old(store)),
        final(store).latest() >= old(store).latest(),
        final(store).sessions() == old(store).sessions().insert(
            task.session_id@,
            stamped((SessionStatus::Running, None::<SessionStats>), final(store).latest()),
        ),
        final(store).status_of(task.session_id@) == status_after(SessionEvent::Created),
        task.image_id == image_id,
        task.input_id == input_id,
        task.assumptions == assumptions,
{
    let now = store.now();
    create_session_at(store, fresh_id(), image_id, input_id, assumptions, now)
}

/// What a client gets who asks how the session `session_id` stands.
pub open spec fn spec_session_status(
    store: &BonsaiState,
    session_id: Seq<char>,
    base: Result<UrlView, ServerUrlError>,
) -> Result<SessionReportView, Error> {
    match data_of(store.sessions(), session_id) {
        None => Err(Error::ArtifactNotFound(Artifact::Session)),
        Some(session) => if store.receipts().contains_key(session_id) {
            match linked(base, "receipts"@, session_id) {
                Ok(url) => Ok(
                    SessionReportView {
                        status: session.0.wire_name(),
                        receipt_url: Some(url),
                        stats: session.1,
                    },
                ),
                Err(error) => Err(error),
            }
        } else {
            Ok(
                SessionReportView {
                    status: session.0.wire_name(),
                    receipt_url: None,
                    stats: None,
                },
            )
        },
    }
}

/// Answers a client who asks how the session `session_id` stands. Where the
/// store has a receipt for the session the answer holds its URL and the
/// session's statistics, else neither.
pub fn session_status(
    store: &BonsaiState,
    session_id: &str,
    resolver: &ServerUrlResolver,
    headers: &HeaderMap,
) -> (answer: Result<SessionReport, Error>)
    requires
        store.wf(),
    ensures
        match answer {
            Ok(report) => spec_session_status(
                store,
                session_id@,
                resolved(resolver.fixed(), header_texts(*headers)),
            ) == Ok::<SessionReportView, Error>(report@),
            Err(error) => spec_session_status(
                store,
                session_id@,
                resolved(resolver.fixed(), header_texts(*headers)),
            ) == Err::<SessionReportView, Error>(error),
        },
{
    let (status, stats) = match store.get_session(session_id) {
        Some(session) => *session,
        None => {
            return Err(Error::ArtifactNotFound(Artifact::Session));
        },
    };
    match store.get_receipt(session_id) {
        Some(_) => match resolve_link(resolver, headers, "receipts", session_id) {
            Ok(url) => Ok(
                SessionReport { status: status.to_string(), receipt_url: Some(url), stats },
            ),
            Err(error) => Err(error),
        },
        None => Ok(SessionReport { status: status.to_string(), receipt_url: None, stats: None }),
    }
}

/// What a client gets who asks how the conversion `snark_id` stands: it has
/// succeeded once the store has a receipt under that identifier, and is
/// running until then. Whether there is a session under the identifier does
/// not count. A receipt that does not decode is an error.
pub open spec fn spec_snark_status(
    store: &BonsaiState,
    snark_id: Seq<char>,
    base: Result<UrlView, ServerUrlError>,
) -> Result<SnarkReportView, Error> {
    match bytes_of(store.receipts(), snark_id) {
        Some(bytes) => if !receipt_decodes(bytes) {
            Err(Error::Codec)
        } else {
            match linked(base, "receipts"@, snark_id) {
                Ok(url) => Ok(
                    SnarkReportView {
                        status: SessionStatus::Succeeded.wire_name(),
                        output: Some(url),
                    },
                ),
                Err(error) => Err(error),
            }
        },
        None => Ok(SnarkReportView { status: SessionStatus::Running.wire_name(), output: None }),
    }
}

/// Answers a client who asks how the conversion `snark_id` stands.
pub fn snark_status(
    store: &BonsaiState,
    snark_id: &str,
    resolver: &ServerUrlResolver,
    headers: &HeaderMap,
) -> (answer: Result<SnarkReport, Error>)
    requires
        store.wf(),
    ensures
        match answer {
            Ok(report) => spec_snark_status(
                store,
                snark_id@,
                resolved(resolver.fixed(), header_texts(*headers)),
            ) == Ok::<SnarkReportView, Error>(report@),
            Err(error) => spec_snark_status(
                store,
                snark_id@,
                resolved(resolver.fixed(), header_texts(*headers)),
            ) == Err::<SnarkReportView, Error>(error),
        },
{
    match store.get_receipt(snark_id) {
        Some(bytes) => {
            if !is_receipt(&bytes) {
                return Err(Error::Codec);
            }
            match resolve_link(resolver, headers, "receipts", snark_id) {
                Ok(url) => Ok(
                    SnarkReport { status: SessionStatus::Succeeded.to_string(), output: Some(url) },
                ),
                Err(error) => Err(error),
            }
        },
        None => Ok(SnarkReport { status: SessionStatus::Running.to_string(), output: None }),
    }
}

/// Answers a client who asks for the receipt of the session `session_id`.
pub fn get_receipt(store: &BonsaiState, session_id: &str) -> (receipt: Result<Vec<u8>, Error>)
    requires
        store.wf(),
    ensures
        match receipt {
            Ok(receipt) => bytes_of(store.receipts(), session_id@) == Some(receipt@),
            Err(error) => bytes_of(store.receipts(), session_id@) is None && error
                == Error::ArtifactNotFound(Artifact::Receipt),
        },
{
    match store.get_receipt(session_id) {
        Some(receipt) => Ok(receipt),
        None => Err(Error::ArtifactNotFound(Artifact::Receipt)),
    }
}

/// The server's base URL as a request sees it, with the headers that tell
/// of proxies.
#[derive(Debug, PartialEq, Eq)]
pub struct ResolvedServerUrl {
    /// The base URL.
    pub resolved_server_url: String,
    /// The headers.
    pub headers: ForwardingHeaders,
}

/// Answers a client who asks under which base URL the server sees itself.
pub fn resolved_server_url(
    resolver: &ServerUrlResolver,
    headers: &HeaderMap,
) -> (answer: Result<ResolvedServerUrl, Error>)
    ensures
        match answer {
            Ok(answer) => resolved(resolver.fixed(), header_texts(*headers)) matches Ok(url)
                && answer.resolved_server_url@ == url.href && string_view(
                answer.headers.forwarded,
            ) == text_of(header_texts(*headers), "forwarded"@) && string_view(
                answer.headers.x_forwarded_proto,
            ) == text_of(header_texts(*headers), "x-forwarded-proto"@) && string_view(
                answer.headers.x_forwarded_host,
            ) == text_of(header_texts(*headers), "x-forwarded-host"@) && string_view(
                answer.headers.x_forwarded_port,
            ) == text_of(header_texts(*headers), "x-forwarded-port"@),
            Err(error) => resolved(resolver.fixed(), header_texts(*headers)) is Err && error
                == Error::ServerUrlResolution,
        },
{
    match resolver.resolve(headers) {
        Ok(url) => Ok(
            ResolvedServerUrl {
                resolved_server_url: String::from_str(url.as_str()),
                headers: forwarding_headers(headers),
            },
        ),
        Err(_) => Err(Error::ServerUrlResolution),
    }
}

} // verus!
