use bonsai_local::error::{Artifact, Error};
use bonsai_local::prover::{is_receipt, Prover, ProverMessage, SealedProof, SendOutcome, Task};
use bonsai_local::routes::{create_session_at, get_receipt, session_status};
use bonsai_local::state::{BonsaiState, SessionStats, SessionStatus};
use bonsai_local::url_resolver::{BaseUrl, ServerUrlResolver};
use axum::http::HeaderMap;
use risc0_zkvm::sha::Digest;
use risc0_zkvm::{FakeReceipt, InnerReceipt, MaybePruned, Receipt};

fn store() -> BonsaiState {
    BonsaiState::new(BaseUrl::parse("http://localhost:8080").unwrap(), 1_000)
}

fn task(session: &str, image: &str, input: &str, assumptions: &[&str]) -> Task {
    Task {
        session_id: session.to_string(),
        image_id: image.to_string(),
        input_id: input.to_string(),
        assumptions: assumptions.iter().map(|id| id.to_string()).collect(),
    }
}

fn fake_receipt(journal: Vec<u8>) -> Receipt {
    Receipt::new(
        InnerReceipt::Fake(FakeReceipt::new(MaybePruned::Pruned(Digest::ZERO))),
        journal,
    )
}

fn stats() -> SessionStats {
    SessionStats { segments: 2, total_cycles: 65_536, user_cycles: 40_000 }
}

#[test]
fn end_to_end_with_a_prover_that_succeeds() {
    let mut state = store();
    let resolver = ServerUrlResolver::new(Some(BaseUrl::parse("http://localhost:8080").unwrap()));
    let headers = HeaderMap::new();

    state.put_image_at("img1".to_string(), vec![0x7f, b'E', b'L', b'F'], 0);
    state.put_input_at("in1".to_string(), vec![], 0);
    let task = create_session_at(
        &mut state,
        "s1".to_string(),
        "img1".to_string(),
        "in1".to_string(),
        vec![],
        1,
    );
    let report = session_status(&state, "s1", &resolver, &headers).unwrap();
    assert_eq!(report.status, "RUNNING");
    assert_eq!(report.receipt_url, None);
    assert_eq!(report.stats, None);

    let msg = ProverMessage::RunSession(task);
    let job = Prover::handle_message(&state, &msg).unwrap();
    assert_eq!(job.image, vec![0x7f, b'E', b'L', b'F']);
    assert_eq!(job.input, Vec::<u8>::new());
    assert!(job.assumptions.is_empty());

    // The engine is taken to succeed with these receipt bytes.
    let receipt = vec![0xde, 0xad, 0xbe, 0xef];
    let sealed = SealedProof { receipt: receipt.clone(), stats: stats() };
    Prover::finish_at(&mut state, &msg, Ok(sealed), 2);

    let report = session_status(&state, "s1", &resolver, &headers).unwrap();
    assert_eq!(report.status, "SUCCEEDED");
    assert_eq!(report.receipt_url, Some("http://localhost:8080/receipts/s1".to_string()));
    assert_eq!(report.stats, Some(stats()));
    assert_eq!(get_receipt(&state, "s1"), Ok(receipt));

    // Asking again changes nothing.
    let report = session_status(&state, "s1", &resolver, &headers).unwrap();
    assert_eq!(report.status, "SUCCEEDED");
}

#[test]
fn missing_image_fails_the_session() {
    let mut state = store();
    let resolver = ServerUrlResolver::new(Some(BaseUrl::parse("http://localhost:8080").unwrap()));
    let headers = HeaderMap::new();

    state.put_input_at("in1".to_string(), vec![1], 0);
    let task = create_session_at(
        &mut state,
        "s1".to_string(),
        "no-such-image".to_string(),
        "in1".to_string(),
        vec![],
        1,
    );
    let msg = ProverMessage::RunSession(task);
    let error = match Prover::handle_message(&state, &msg) {
        Ok(_) => panic!("the image is not there"),
        Err(error) => error,
    };
    assert_eq!(error, Error::ArtifactNotFound(Artifact::Image));
    Prover::finish_at(&mut state, &msg, Err(error), 2);

    assert_eq!(state.get_session("s1"), Some(&(SessionStatus::Failed, None)));
    assert_eq!(get_receipt(&state, "s1"), Err(Error::ArtifactNotFound(Artifact::Receipt)));
    let report = session_status(&state, "s1", &resolver, &headers).unwrap();
    assert_eq!(report.status, "FAILED");
    assert_eq!(report.receipt_url, None);
    assert_eq!(report.stats, None);
    // Failed for good.
    let report = session_status(&state, "s1", &resolver, &headers).unwrap();
    assert_eq!(report.status, "FAILED");
}

#[test]
fn lookups_fail_in_order_image_input_receipt() {
    let mut state = store();
    let t = task("s", "img", "in", &["r1", "r2"]);
    assert_eq!(Prover::get_image(&state, &t), Err(Error::ArtifactNotFound(Artifact::Image)));
    assert_eq!(Prover::get_input(&state, &t), Err(Error::ArtifactNotFound(Artifact::Input)));
    assert_eq!(Prover::get_receipts(&state, &t), Err(Error::ArtifactNotFound(Artifact::Receipt)));
    let msg = ProverMessage::RunSession(t);
    assert_eq!(Prover::handle_message(&state, &msg).err(), Some(Error::ArtifactNotFound(Artifact::Image)));
    state.put_image_at("img".to_string(), vec![1], 0);
    assert_eq!(Prover::handle_message(&state, &msg).err(), Some(Error::ArtifactNotFound(Artifact::Input)));
    state.put_input_at("in".to_string(), vec![2], 0);
    assert_eq!(Prover::handle_message(&state, &msg).err(), Some(Error::ArtifactNotFound(Artifact::Receipt)));
    state.put_receipt_at("r1".to_string(), vec![], 0);
    assert_eq!(Prover::handle_message(&state, &msg).err(), Some(Error::ArtifactNotFound(Artifact::Receipt)));
    state.put_receipt_at("r2".to_string(), vec![], 0);
    let job = Prover::handle_message(&state, &msg).unwrap();
    assert_eq!(job.image, vec![1]);
    assert_eq!(job.input, vec![2]);
    assert!(job.assumptions.is_empty());
    assert_eq!(Prover::get_image(&state, msg.task()), Ok(vec![1]));
    assert_eq!(Prover::get_input(&state, msg.task()), Ok(vec![2]));
}

#[test]
fn receipts_come_in_the_order_of_the_task() {
    let mut state = store();
    state.put_receipt_at("a".to_string(), vec![1], 0);
    state.put_receipt_at("b".to_string(), vec![], 0);
    state.put_receipt_at("c".to_string(), vec![3, 3], 0);
    let t = task("s", "img", "in", &["c", "a", "b", "a"]);
    assert_eq!(
        Prover::get_receipts(&state, &t),
        Ok(vec![vec![3, 3], vec![1], vec![], vec![1]])
    );
}

#[test]
fn empty_receipts_are_no_assumptions() {
    let decoded = Prover::decode_assumptions(&vec![vec![], vec![], vec![]]).unwrap();
    assert!(decoded.is_empty());
    let decoded = Prover::decode_assumptions(&vec![]).unwrap();
    assert!(decoded.is_empty());
}

#[test]
fn receipts_that_do_not_decode_end_the_task() {
    assert_eq!(Prover::decode_assumptions(&vec![vec![1, 2, 3]]).err(), Some(Error::Codec));
    let good = bincode::serialize(&fake_receipt(vec![1, 2])).unwrap();
    assert_eq!(
        Prover::decode_assumptions(&vec![vec![], good, vec![0xff]]).err(),
        Some(Error::Codec)
    );
    assert!(!is_receipt(&vec![]));
    assert!(!is_receipt(&vec![1, 2, 3]));
}

#[test]
fn receipts_decode_to_what_was_encoded() {
    let first = bincode::serialize(&fake_receipt(vec![1, 2, 3])).unwrap();
    let second = bincode::serialize(&fake_receipt(vec![4])).unwrap();
    assert!(is_receipt(&first));
    let decoded =
        Prover::decode_assumptions(&vec![first.clone(), vec![], second.clone()]).unwrap();
    assert_eq!(decoded.len(), 2);
    assert_eq!(decoded[0].journal.bytes, vec![1, 2, 3]);
    assert_eq!(decoded[1].journal.bytes, vec![4]);

    let mut state = store();
    state.put_image_at("img".to_string(), vec![1], 0);
    state.put_input_at("in".to_string(), vec![2], 0);
    state.put_receipt_at("r".to_string(), first, 0);
    let msg = ProverMessage::RunSession(task("s", "img", "in", &["r"]));
    let job = Prover::handle_message(&state, &msg).unwrap();
    assert_eq!(job.assumptions.len(), 1);
    assert_eq!(job.assumptions[0].journal.bytes, vec![1, 2, 3]);
}

#[test]
fn seal_encodes_the_receipt() {
    let receipt = fake_receipt(vec![5, 6, 7]);
    let sealed = Prover::seal(&receipt, stats()).unwrap();
    assert_eq!(sealed.stats, stats());
    assert_eq!(sealed.receipt, bincode::serialize(&receipt).unwrap());
    assert!(is_receipt(&sealed.receipt));
}

#[test]
fn finish_writes_receipt_and_status_together() {
    let mut state = store();
    let msg = ProverMessage::RunSession(task("s", "img", "in", &[]));
    state.put_session_at("s".to_string(), SessionStatus::Running, None, 0);
    state.put_session_at("other".to_string(), SessionStatus::Running, None, 0);
    Prover::finish_at(&mut state, &msg, Ok(SealedProof { receipt: vec![1], stats: stats() }), 5);
    assert_eq!(state.get_session("s"), Some(&(SessionStatus::Succeeded, Some(stats()))));
    assert_eq!(state.get_receipt("s"), Some(vec![1]));
    assert_eq!(state.get_session("other"), Some(&(SessionStatus::Running, None)));
    assert_eq!(state.get_receipt("other"), None);
}

#[test]
fn finish_after_any_error_fails_the_session() {
    for error in [
        Error::ArtifactNotFound(Artifact::Input),
        Error::Codec,
        Error::ProverEngine,
        Error::LockPoisoned,
    ] {
        let mut state = store();
        let msg = ProverMessage::RunSession(task("s", "img", "in", &[]));
        state.put_session_at("s".to_string(), SessionStatus::Running, None, 0);
        Prover::finish_at(&mut state, &msg, Err(error), 5);
        assert_eq!(state.get_session("s"), Some(&(SessionStatus::Failed, None)));
        assert_eq!(state.get_receipt("s"), None);
    }
}

#[test]
fn finish_reads_the_clock() {
    let mut state = store();
    let msg = ProverMessage::RunSession(task("s", "img", "in", &[]));
    Prover::finish(&mut state, &msg, Err(Error::ProverEngine));
    assert_eq!(state.get_session("s"), Some(&(SessionStatus::Failed, None)));
    Prover::finish(&mut state, &msg, Ok(SealedProof { receipt: vec![3], stats: stats() }));
    assert_eq!(state.get_session("s"), Some(&(SessionStatus::Succeeded, Some(stats()))));
    assert_eq!(state.get_receipt("s"), Some(vec![3]));
}

#[test]
fn submitting_reports_a_full_queue_and_a_closed_channel() {
    assert_eq!(Prover::submitted(SendOutcome::Sent), Ok(()));
    assert_eq!(Prover::submitted(SendOutcome::TimedOut), Err(Error::ProverQueueFull));
    assert_eq!(Prover::submitted(SendOutcome::Closed), Err(Error::ChannelClosed));
}

#[test]
fn error_messages() {
    assert_eq!(Error::ImageIdExists.message(), "Image ID already exists");
    assert_eq!(Error::ServerUrlResolution.message(), "Unable to resolve server URL");
    assert_eq!(Error::ProverQueueFull.message(), "Prover queue is full");
    assert_eq!(Error::ChannelClosed.message(), "Prover receiver dropped");
    assert_eq!(Error::ArtifactNotFound(Artifact::Image).message(), "Image not found");
    assert_eq!(Error::ArtifactNotFound(Artifact::Input).message(), "Input not found");
    assert_eq!(Error::ArtifactNotFound(Artifact::Receipt).message(), "Receipt not found");
    assert_eq!(Error::ArtifactNotFound(Artifact::Session).message(), "Session not found");
    assert_eq!(Error::Codec.message(), "Receipt codec error");
    assert_eq!(Error::ProverEngine.message(), "Prover engine error");
    assert_eq!(Error::LockPoisoned.message(), "Store lock poisoned");
}

#[test]
fn wrong_elf_session_fails() {
    let mut state = BonsaiState::new(BaseUrl::parse("http://127.0.0.1:0").unwrap(), 3600);
    let resolver = ServerUrlResolver::new(None);
    let mut headers = HeaderMap::new();
    headers.insert("host", axum::http::HeaderValue::from_static("127.0.0.1:8080"));

    state.put_image("wrong-elf-id".to_string(), b"wrong ELF".to_vec());
    state.put_input("input".to_string(), vec![]);
    // An empty receipt, uploaded as an assumption.
    state.put_receipt("assumption".to_string(), vec![]);
    let task = create_session_at(
        &mut state,
        "session".to_string(),
        "wrong-elf-id".to_string(),
        "input".to_string(),
        vec!["assumption".to_string()],
        0,
    );
    let msg = ProverMessage::RunSession(task);
    let job = Prover::handle_message(&state, &msg).unwrap();
    assert_eq!(job.image, b"wrong ELF".to_vec());
    assert!(job.assumptions.is_empty());

    // No engine makes a proof of this image.
    Prover::finish(&mut state, &msg, Err(Error::ProverEngine));
    let report = session_status(&state, "session", &resolver, &headers).unwrap();
    assert_ne!(report.status, SessionStatus::Running.to_string());
    assert_ne!(report.status, SessionStatus::Succeeded.to_string());
    assert_eq!(report.status, "FAILED");
    assert_eq!(report.receipt_url, None);
}

#[test]
fn sealed_proof_is_what_the_store_hands_out() {
    let mut state = store();
    state.put_image_at("img1".to_string(), vec![1, 2, 3], 0);
    state.put_input_at("in".to_string(), vec![], 0);
    let task = create_session_at(
        &mut state,
        "s1".to_string(),
        "img1".to_string(),
        "in".to_string(),
        vec![],
        0,
    );
    let msg = ProverMessage::RunSession(task);
    let job = Prover::handle_message(&state, &msg).unwrap();
    assert_eq!(job.image, vec![1, 2, 3]);

    // The engine is taken to succeed with this receipt.
    let made = fake_receipt(vec![42]);
    let sealed = Prover::seal(&made, stats());
    assert!(sealed.is_ok());
    Prover::finish_at(&mut state, &msg, sealed, 1);

    assert_eq!(state.get_session("s1"), Some(&(SessionStatus::Succeeded, Some(stats()))));
    assert_eq!(get_receipt(&state, "s1"), Ok(bincode::serialize(&made).unwrap()));
    assert_eq!(state.get_image("img1"), Some(vec![1, 2, 3]));
    assert_eq!(state.get_input("in"), Some(vec![]));
}
