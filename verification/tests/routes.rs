use axum::http::{HeaderMap, HeaderValue};
use bonsai_local::error::{Artifact, Error};
use bonsai_local::routes::{
    create_session, create_session_at, get_image_upload, get_input_upload, get_receipt,
    get_receipt_upload, link, resolve_link, session_status, snark_status, upload_as, ImageUpload,
    SnarkReport, Upload,
};
use bonsai_local::state::{BonsaiState, SessionStats, SessionStatus};
use bonsai_local::url_resolver::{validate_url, BaseUrl, ServerUrlResolver};
use risc0_zkvm::sha::Digest;
use risc0_zkvm::{FakeReceipt, InnerReceipt, MaybePruned, Receipt};

fn store() -> BonsaiState {
    BonsaiState::new(BaseUrl::parse("http://localhost:8080").unwrap(), 1_000)
}

fn fixed(url: &str) -> ServerUrlResolver {
    ServerUrlResolver::new(Some(BaseUrl::parse(url).unwrap()))
}

fn host_headers(host: &'static str) -> HeaderMap {
    let mut headers = HeaderMap::new();
    headers.insert("host", HeaderValue::from_static(host));
    headers
}

#[test]
fn link_drops_trailing_slashes_of_the_base() {
    let base = BaseUrl::parse("https://example.com").unwrap();
    assert_eq!(link(&base, "images", "abc"), "https://example.com/images/abc");
    let base = BaseUrl::parse("https://example.com/api//").unwrap();
    assert_eq!(link(&base, "receipts", "1"), "https://example.com/api/receipts/1");
    assert_eq!(link(&base, "", ""), "https://example.com/api//");
}

#[test]
fn resolve_link_goes_by_the_headers() {
    let resolver = ServerUrlResolver::new(None);
    assert_eq!(
        resolve_link(&resolver, &host_headers("example.com:443"), "inputs", "x"),
        Ok("https://example.com/inputs/x".to_string())
    );
    assert_eq!(
        resolve_link(&resolver, &HeaderMap::new(), "inputs", "x"),
        Err(Error::ServerUrlResolution)
    );
}

#[test]
fn image_upload_is_refused_for_an_image_that_exists() {
    let mut state = store();
    let resolver = ServerUrlResolver::new(None);
    let headers = host_headers("host.com");
    assert_eq!(
        get_image_upload(&state, "img1", &resolver, &headers),
        Ok(ImageUpload { url: "http://host.com/images/img1".to_string() })
    );
    // The image counts before the headers do.
    assert_eq!(
        get_image_upload(&state, "img1", &resolver, &HeaderMap::new()),
        Err(Error::ServerUrlResolution)
    );
    state.put_image_at("img1".to_string(), vec![1], 0);
    assert_eq!(get_image_upload(&state, "img1", &resolver, &headers), Err(Error::ImageIdExists));
    assert_eq!(
        get_image_upload(&state, "img1", &resolver, &HeaderMap::new()),
        Err(Error::ImageIdExists)
    );
}

#[test]
fn uploads_get_the_identifier_in_their_url() {
    let resolver = fixed("http://localhost:8080");
    let headers = HeaderMap::new();
    assert_eq!(
        upload_as(&resolver, &headers, "inputs", "abc".to_string()),
        Ok(Upload { url: "http://localhost:8080/inputs/abc".to_string(), uuid: "abc".to_string() })
    );
    let input = get_input_upload(&resolver, &headers).unwrap();
    assert_eq!(input.url, format!("http://localhost:8080/inputs/{}", input.uuid));
    let receipt = get_receipt_upload(&resolver, &headers).unwrap();
    assert_eq!(receipt.url, format!("http://localhost:8080/receipts/{}", receipt.uuid));
    // Fresh identifiers.
    assert_ne!(input.uuid, receipt.uuid);
    assert_eq!(input.uuid.len(), 36);
    let unresolved = ServerUrlResolver::new(None);
    assert_eq!(get_input_upload(&unresolved, &headers), Err(Error::ServerUrlResolution));
    assert_eq!(get_receipt_upload(&unresolved, &headers), Err(Error::ServerUrlResolution));
}

#[test]
fn create_session_stores_running_and_returns_the_task() {
    let mut state = store();
    let task = create_session_at(
        &mut state,
        "s1".to_string(),
        "img".to_string(),
        "in".to_string(),
        vec!["r1".to_string(), "r2".to_string()],
        7,
    );
    assert_eq!(task.session_id, "s1");
    assert_eq!(task.image_id, "img");
    assert_eq!(task.input_id, "in");
    assert_eq!(task.assumptions, vec!["r1".to_string(), "r2".to_string()]);
    assert_eq!(state.get_session("s1"), Some(&(SessionStatus::Running, None)));

    let first = create_session(&mut state, "img".to_string(), "in".to_string(), vec![]);
    let second = create_session(&mut state, "img".to_string(), "in".to_string(), vec![]);
    assert_ne!(first.session_id, second.session_id);
    assert_eq!(state.get_session(&first.session_id), Some(&(SessionStatus::Running, None)));
    assert_eq!(state.get_session(&second.session_id), Some(&(SessionStatus::Running, None)));
    assert_eq!(first.image_id, "img");
}

#[test]
fn session_status_of_an_unknown_session() {
    let state = store();
    let resolver = fixed("http://localhost:8080");
    assert_eq!(
        session_status(&state, "nope", &resolver, &HeaderMap::new()),
        Err(Error::ArtifactNotFound(Artifact::Session))
    );
    // The status of a conversion does not go by the sessions.
    assert_eq!(
        snark_status(&state, "nope", &resolver, &HeaderMap::new()),
        Ok(SnarkReport { status: "RUNNING".to_string(), output: None })
    );
}

#[test]
fn session_status_shows_statistics_only_with_a_receipt() {
    let mut state = store();
    let resolver = ServerUrlResolver::new(None);
    let headers = host_headers("host.com");
    let stats = SessionStats { segments: 1, total_cycles: 2, user_cycles: 3 };
    state.put_session_at("s".to_string(), SessionStatus::Succeeded, Some(stats), 0);
    let report = session_status(&state, "s", &resolver, &headers).unwrap();
    assert_eq!(report.status, "SUCCEEDED");
    assert_eq!(report.receipt_url, None);
    assert_eq!(report.stats, None);
    // Without a receipt the headers are not looked at.
    assert!(session_status(&state, "s", &resolver, &HeaderMap::new()).is_ok());

    state.put_receipt_at("s".to_string(), vec![1], 0);
    let report = session_status(&state, "s", &resolver, &headers).unwrap();
    assert_eq!(report.status, "SUCCEEDED");
    assert_eq!(report.receipt_url, Some("http://host.com/receipts/s".to_string()));
    assert_eq!(report.stats, Some(stats));
    assert_eq!(
        session_status(&state, "s", &resolver, &HeaderMap::new()),
        Err(Error::ServerUrlResolution)
    );
}

#[test]
fn snark_status_goes_by_the_receipt() {
    let mut state = store();
    let resolver = ServerUrlResolver::new(None);
    let headers = host_headers("host.com");
    assert_eq!(
        snark_status(&state, "s", &resolver, &headers),
        Ok(SnarkReport { status: "RUNNING".to_string(), output: None })
    );
    state.put_receipt_at("s".to_string(), vec![1, 2, 3], 0);
    assert_eq!(snark_status(&state, "s", &resolver, &headers), Err(Error::Codec));
    let receipt = Receipt::new(
        InnerReceipt::Fake(FakeReceipt::new(MaybePruned::Pruned(Digest::ZERO))),
        vec![9],
    );
    state.put_receipt_at("s".to_string(), bincode::serialize(&receipt).unwrap(), 0);
    assert_eq!(
        snark_status(&state, "s", &resolver, &headers),
        Ok(SnarkReport {
            status: "SUCCEEDED".to_string(),
            output: Some("http://host.com/receipts/s".to_string())
        })
    );
    assert_eq!(
        snark_status(&state, "s", &resolver, &HeaderMap::new()),
        Err(Error::ServerUrlResolution)
    );
    // A session under the identifier changes nothing, whatever its status.
    state.put_session_at("s".to_string(), SessionStatus::Failed, None, 0);
    assert_eq!(
        snark_status(&state, "s", &resolver, &headers),
        Ok(SnarkReport {
            status: "SUCCEEDED".to_string(),
            output: Some("http://host.com/receipts/s".to_string())
        })
    );
    state.put_session_at("t".to_string(), SessionStatus::Succeeded, None, 0);
    assert_eq!(
        snark_status(&state, "t", &resolver, &headers),
        Ok(SnarkReport { status: "RUNNING".to_string(), output: None })
    );
}

#[test]
fn get_receipt_needs_a_receipt() {
    let mut state = store();
    assert_eq!(get_receipt(&state, "s"), Err(Error::ArtifactNotFound(Artifact::Receipt)));
    state.put_receipt_at("s".to_string(), vec![4, 2], 0);
    assert_eq!(get_receipt(&state, "s"), Ok(vec![4, 2]));
}

#[test]
fn validate_url_wants_http_or_https() {
    assert_eq!(validate_url("http://localhost:8080").unwrap().as_str(), "http://localhost:8080/");
    assert_eq!(validate_url("HTTPS://example.com/x").unwrap().as_str(), "https://example.com/x");
    assert_eq!(
        validate_url("ftp://example.com"),
        Err("URL must use http:// or https:// scheme".to_string())
    );
    assert_eq!(
        validate_url("example.com"),
        Err("Invalid URL: relative URL without a base".to_string())
    );
}
