//! The proving worker's decisions.
//!
//! Tasks reach the worker one at a time, in the order in which they were
//! submitted. For each the worker looks up what the task names, decodes the
//! receipts that the proof may assume, has the proof made, and writes down how
//! it went. Making the proof is the one step that is not taken here: the
//! prover engine is run between [`Prover::handle_message`], which says what to
//! prove, and [`Prover::finish`], which takes the outcome.

use crate::error::Artifact;
use crate::error::Error;
use crate::state::bytes_of;
use crate::state::stamped;
use crate::state::status_after;
use crate::state::BonsaiState;
use crate::state::EntryWithTimestamp;
use crate::state::SessionEvent;
use crate::state::SessionStats;
use crate::state::SessionStatus;
use risc0_zkvm::Receipt;
use vstd::prelude::*;

verus! {

#[verifier::external_type_specification]
#[verifier::external_body]
pub struct ExReceipt(risc0_zkvm::Receipt);

/// The receipt that `bytes` are the encoding of: what `bincode`, in the
/// configuration of its function `deserialize`, decodes from them as a
/// `Receipt`, and none where it fails.
pub uninterp spec fn receipt_decoding(bytes: Seq<u8>) -> Option<Receipt>;

/// The encoding of `receipt`: the bytes that `bincode`, in the configuration
/// of its function `serialize`, writes for it, and none where it fails.
pub uninterp spec fn receipt_encoding(receipt: Receipt) -> Option<Seq<u8>>;

/// Whether `bytes` are the encoding of a receipt.
pub open spec fn receipt_decodes(bytes: Seq<u8>) -> bool {
    receipt_decoding(bytes) is Some
}

/// Calls `bincode::deserialize` for a `Receipt` of the crate `risc0_zkvm`.
/// The contract only gives the outcome its name, [`receipt_decoding`].
#[verifier::external_body]
fn decode_receipt(bytes: &Vec<u8>) -> (receipt: Option<Receipt>)
    ensures
        receipt == receipt_decoding(bytes@),
{
    match bincode::deserialize::<Receipt>(bytes) {
        Ok(receipt) => Some(receipt),
        Err(_) => None,
    }
}

/// Calls `bincode::serialize` on a `Receipt` of the crate `risc0_zkvm`.
/// The contract only gives the outcome its name, [`receipt_encoding`].
#[verifier::external_body]
fn encode_receipt(receipt: &Receipt) -> (bytes: Option<Vec<u8>>)
    ensures
        match bytes {
            Some(bytes) => receipt_encoding(*receipt) == Some(bytes@),
            None => receipt_encoding(*receipt) is None,
        },
{
    match bincode::serialize(receipt) {
        Ok(bytes) => Some(bytes),
        Err(_) => None,
    }
}

/// The binary logarithm of the number of cycles after which the prover
/// engine starts a new segment.
pub const SEGMENT_LIMIT_PO2: u32 = 20;

/// A request to prove the execution of an image on an input.
#[derive(Debug)]
pub struct Task {
    /// The session that the proof is made for.
    pub session_id: String,
    /// The image to execute.
    pub image_id: String,
    /// The input to execute it on.
    pub input_id: String,
    /// The receipts that the proof may assume.
    pub assumptions: Vec<String>,
}

/// What the worker is sent.
#[derive(Debug)]
pub enum ProverMessage {
    RunSession(Task),
}

impl ProverMessage {
    /// The task that the message carries.
    pub open spec fn spec_task(self) -> Task {
        match self {
            ProverMessage::RunSession(task) => task,
        }
    }

    /// The task that the message carries.
    pub fn task(&self) -> (task: &Task)
        ensures
            *task == self.spec_task(),
    {
        match self {
            ProverMessage::RunSession(task) => task,
        }
    }
}

/// How an attempt to hand a task to the worker ended.
#[derive(Debug, Clone, Copy, PartialEq, Eq, Structural)]
pub enum SendOutcome {
    /// The task is in the queue.
    Sent,
    /// The worker is gone.
    Closed,
    /// The queue was full, and stayed so for as long as the caller would
    /// wait.
    TimedOut,
}

/// What the prover engine is to work on.
pub struct ProofJob {
    /// The image to execute.
    pub image: Vec<u8>,
    /// The input to execute it on.
    pub input: Vec<u8>,
    /// The receipts that the proof may assume.
    pub assumptions: Vec<Receipt>,
}

/// A finished proof as the store keeps it.
#[derive(Debug)]
pub struct SealedProof {
    /// The encoded receipt.
    pub receipt: Vec<u8>,
    /// The statistics of the execution.
    pub stats: SessionStats,
}

/// The identifiers `ids` as texts.
pub open spec fn id_views(ids: Seq<String>) -> Seq<Seq<char>> {
    Seq::new(ids.len(), |i: int| ids[i]@)
}

/// The byte strings `list` as sequences.
pub open spec fn byte_views(list: Seq<Vec<u8>>) -> Seq<Seq<u8>> {
    Seq::new(list.len(), |i: int| list[i]@)
}

/// Whether the store holds a receipt under each of `ids`.
pub open spec fn all_stored(receipts: Map<Seq<char>, Seq<u8>>, ids: Seq<Seq<char>>) -> bool {
    forall|i: int| 0 <= i < ids.len() ==> receipts.contains_key(#[trigger] ids[i])
}

/// The receipts stored under `ids`, in the order of `ids`.
pub open spec fn stored_under(
    receipts: Map<Seq<char>, Seq<u8>>,
    ids: Seq<Seq<char>>,
) -> Seq<Seq<u8>> {
    Seq::new(ids.len(), |i: int| receipts[ids[i]])
}

/// The receipts that a proof may assume, given the encoded receipts that its
/// task names: what each of them that is not empty decodes to, in their
/// order. An empty one stands for no assumption.
pub open spec fn assumed(receipts: Seq<Seq<u8>>) -> Seq<Receipt>
    decreases receipts.len(),
{
    if receipts.len() == 0 {
        Seq::empty()
    } else if receipts.last().len() > 0 {
        assumed(receipts.drop_last()).push(receipt_decoding(receipts.last())->0)
    } else {
        assumed(receipts.drop_last())
    }
}

/// Whether each of `receipts` that is not empty is the encoding of a receipt.
pub open spec fn all_decode(receipts: Seq<Seq<u8>>) -> bool {
    forall|i: int|
        0 <= i < receipts.len() ==> (#[trigger] receipts[i]).len() == 0 || receipt_decodes(
            receipts[i],
        )
}

/// The bytes that the store holds, by identifier.
pub open spec fn contents(entries: Map<Seq<char>, EntryWithTimestamp<Vec<u8>>>) -> Map<
    Seq<char>,
    Seq<u8>,
> {
    entries.map_values(|entry: EntryWithTimestamp<Vec<u8>>| entry.data@)
}

/// What the worker finds for `task` in the store: the image, the input and
/// the receipts that the task names, or the first kind of thing of which one
/// is missing.
pub open spec fn resolved_task(
    store: &BonsaiState,
    task: Task,
) -> Result<(Seq<u8>, Seq<u8>, Seq<Seq<u8>>), Error> {
    if !store.images().contains_key(task.image_id@) {
        Err(Error::ArtifactNotFound(Artifact::Image))
    } else if !store.inputs().contains_key(task.input_id@) {
        Err(Error::ArtifactNotFound(Artifact::Input))
    } else if !all_stored(contents(store.receipts()), id_views(task.assumptions@)) {
        Err(Error::ArtifactNotFound(Artifact::Receipt))
    } else {
        Ok(
            (
                store.images()[task.image_id@].data@,
                store.inputs()[task.input_id@].data@,
                stored_under(contents(store.receipts()), id_views(task.assumptions@)),
            ),
        )
    }
}

/// What the worker has for the prover engine once it has looked up what
/// `task` names and decoded the receipts: the image, the input and the
/// encoded receipts, or the error that ends the task.
pub open spec fn prepared_task(
    store: &BonsaiState,
    task: Task,
) -> Result<(Seq<u8>, Seq<u8>, Seq<Seq<u8>>), Error> {
    match resolved_task(store, task) {
        Ok(found) => if all_decode(found.2) {
            Ok(found)
        } else {
            Err(Error::Codec)
        },
        Err(missing) => Err(missing),
    }
}

/// Whether `bytes` are the encoding of a receipt.
pub fn is_receipt(bytes: &Vec<u8>) -> (decodes: bool)
    ensures
        decodes == receipt_decodes(bytes@),
{
    decode_receipt(bytes).is_some()
}

/// The worker.
pub struct Prover {}

impl Prover {
    /// What handing a task to the worker came to for the one who submitted
    /// it: nothing to report where the task was queued, an error where the
    /// queue stayed full or the worker is gone.
    pub fn submitted(outcome: SendOutcome) -> (result: Result<(), Error>)
        ensures
            result == (match outcome {
                SendOutcome::Sent => Ok::<(), Error>(()),
                SendOutcome::Closed => Err::<(), Error>(Error::ChannelClosed),
                SendOutcome::TimedOut => Err::<(), Error>(Error::ProverQueueFull),
            }),
    {
        match outcome {
            SendOutcome::Sent => Ok(()),
            SendOutcome::Closed => Err(Error::ChannelClosed),
            SendOutcome::TimedOut => Err(Error::ProverQueueFull),
        }
    }

    /// The image that `task` names.
    pub fn get_image(store: &BonsaiState, task: &Task) -> (image: Result<Vec<u8>, Error>)
        requires
            store.wf(),
        ensures
            match image {
                Ok(image) => bytes_of(store.images(), task.image_id@) == Some(image@),
                Err(error) => bytes_of(store.images(), task.image_id@) is None && error
                    == Error::ArtifactNotFound(Artifact::Image),
            },
    {
        match store.get_image(task.image_id.as_str()) {
            Some(image) => Ok(image),
            None => Err(Error::ArtifactNotFound(Artifact::Image)),
        }
    }

    /// The input that `task` names.
    pub fn get_input(store: &BonsaiState, task: &Task) -> (input: Result<Vec<u8>, Error>)
        requires
            store.wf(),
        ensures
            match input {
                Ok(input) => bytes_of(store.inputs(), task.input_id@) == Some(input@),
                Err(error) => bytes_of(store.inputs(), task.input_id@) is None && error
                    == Error::ArtifactNotFound(Artifact::Input),
            },
    {
        match store.get_input(task.input_id.as_str()) {
            Some(input) => Ok(input),
            None => Err(Error::ArtifactNotFound(Artifact::Input)),
        }
    }

    /// The receipts that `task` names as assumptions, in the order in which
    /// it names them.
    pub fn get_receipts(
        store: &BonsaiState,
        task: &Task,
    ) -> (receipts: Result<Vec<Vec<u8>>, Error>)
        requires
            store.wf(),
        ensures
            match receipts {
                Ok(receipts) => all_stored(
                    contents(store.receipts()),
                    id_views(task.assumptions@),
                ) && byte_views(receipts@) == stored_under(
                    contents(store.receipts()),
                    id_views(task.assumptions@),
                ),
                Err(error) => !all_stored(contents(store.receipts()), id_views(task.assumptions@))
                    && error == Error::ArtifactNotFound(Artifact::Receipt),
            },
    {
        let ghost held = contents(store.receipts());
        let ghost ids = id_views(task.assumptions@);
        let mut receipts: Vec<Vec<u8>> = Vec::new();
        let mut i: usize = 0;
        while i < task.assumptions.len()
            invariant
                store.wf(),
                held == contents(store.receipts()),
                ids == id_views(task.assumptions@),
                i <= task.assumptions.len(),
                receipts.len() == i,
                forall|j: int| 0 <= j < i ==> held.contains_key(#[trigger] ids[j]),
                forall|j: int| 0 <= j < i ==> (#[trigger] receipts[j])@ == held[ids[j]],
            decreases task.assumptions.len() - i,
        {
            match store.get_receipt(task.assumptions[i].as_str()) {
                Some(receipt) => {
                    receipts.push(receipt);
                },
                None => {
                    assert(!held.contains_key(ids[i as int]));
                    return Err(Error::ArtifactNotFound(Artifact::Receipt));
                },
            }
            i = i + 1;
        }
        assert(byte_views(receipts@) =~= stored_under(held, ids));
        Ok(receipts)
    }

    /// Decodes the receipts that a proof may assume. An empty receipt stands
    /// for no assumption and is passed over.
    pub fn decode_assumptions(receipts: &Vec<Vec<u8>>) -> (decoded: Result<Vec<Receipt>, Error>)
        ensures
            match decoded {
                Ok(decoded) => all_decode(byte_views(receipts@)) && decoded@ == assumed(
                    byte_views(receipts@),
                ),
                Err(error) => !all_decode(byte_views(receipts@)) && error == Error::Codec,
            },
    {
        let ghost all = byte_views(receipts@);
        let mut decoded: Vec<Receipt> = Vec::new();
        let mut i: usize = 0;
        assert(all.take(0) =~= Seq::<Seq<u8>>::empty());
        while i < receipts.len()
            invariant
                all == byte_views(receipts@),
                i <= receipts.len(),
                all_decode(all.take(i as int)),
                decoded@ == assumed(all.take(i as int)),
            decreases receipts.len() - i,
        {
            proof {
                assert(all.take(i + 1).drop_last() =~= all.take(i as int));
                assert(all.take(i + 1).last() == receipts[i as int]@);
            }
            if receipts[i].len() > 0 {
                match decode_receipt(&receipts[i]) {
                    Some(receipt) => {
                        decoded.push(receipt);
                    },
                    None => {
                        assert(all[i as int] == receipts[i as int]@);
                        return Err(Error::Codec);
                    },
                }
            }
            proof {
                assert forall|j: int| 0 <= j < i + 1 implies (#[trigger] all.take(i + 1)[j]).len()
                    == 0 || receipt_decodes(all.take(i + 1)[j]) by {
                    if j < i {
                        assert(all.take(i as int)[j] == all.take(i + 1)[j]);
                    }
                }
            }
            i = i + 1;
        }
        assert(all.take(receipts.len() as int) =~= all);
        Ok(decoded)
    }

    /// What the worker does on a message before the proof is made: it looks
    /// up the image, the input and the assumed receipts, in this order, and
    /// decodes the receipts. The result is the job for the prover engine.
    pub fn handle_message(
        store: &BonsaiState,
        msg: &ProverMessage,
    ) -> (job: Result<ProofJob, Error>)
        requires
            store.wf(),
        ensures
            match job {
                Ok(job) => prepared_task(store, msg.spec_task()) matches Ok(found) && found.0
                    == job.image@ && found.1 == job.input@ && job.assumptions@ == assumed(
                    found.2,
                ),
                Err(error) => prepared_task(store, msg.spec_task()) == Err::<
                    (Seq<u8>, Seq<u8>, Seq<Seq<u8>>),
                    Error,
                >(error),
            },
    {
        let task = msg.task();
        let image = match Self::get_image(store, task) {
            Ok(image) => image,
            Err(error) => {
                return Err(error);
            },
        };
        let input = match Self::get_input(store, task) {
            Ok(input) => input,
            Err(error) => {
                return Err(error);
            },
        };
        let receipts = match Self::get_receipts(store, task) {
            Ok(receipts) => receipts,
            Err(error) => {
                return Err(error);
            },
        };
        match Self::decode_assumptions(&receipts) {
            Ok(assumptions) => Ok(ProofJob { image, input, assumptions }),
            Err(error) => Err(error),
        }
    }

    /// Encodes the receipt that the prover engine made, for the store: the
    /// sealed proof holds the receipt's encoding and the statistics as they
    /// were given, and there is none where the receipt has no encoding.
    pub fn seal(receipt: &Receipt, stats: SessionStats) -> (sealed: Result<SealedProof, Error>)
        ensures
            match sealed {
                Ok(sealed) => receipt_encoding(*receipt) == Some(sealed.receipt@) && sealed.stats
                    == stats,
                Err(error) => receipt_encoding(*receipt) is None && error == Error::Codec,
            },
    {
        match encode_receipt(receipt) {
            Some(bytes) => Ok(SealedProof { receipt: bytes, stats }),
            None => Err(Error::Codec),
        }
    }

    /// Writes down at the time `now` how the task of `msg` went. A proof is
    /// stored as the session's receipt and the session has succeeded, with
    /// the proof's statistics. After an error the session has failed, and
    /// nothing else changes.
    pub fn finish_at(
        store: &mut BonsaiState,
        msg: &ProverMessage,
        outcome: Result<SealedProof, Error>,
        now: u128,
    )
        requires
            old(store).wf(),
        ensures
            final(store).wf(),
            final(store).url() == old(store).url(),
            final(store).ttl() == old(store).ttl(),
            final(store).images() == old(store).images(),
            final(store).inputs() == old(store).inputs(),
            final(store).latest() == old(store).latest(),
            final(store).status_of(msg.spec_task().session_id@) == status_after(
                SessionEvent::Finished { succeeded: outcome is Ok },
            ),
            match outcome {
                Ok(sealed) => final(store).receipts() == old(store).receipts().insert(
                    msg.spec_task().session_id@,
                    stamped(sealed.receipt, now),
                ) && final(store).sessions() == old(store).sessions().insert(
                    msg.spec_task().session_id@,
                    stamped((SessionStatus::Succeeded, Some(sealed.stats)), now),
                ),
                Err(_) => final(store).receipts() == old(store).receipts()
                    && final(store).sessions() == old(store).sessions().insert(
                    msg.spec_task().session_id@,
                    stamped((SessionStatus::Failed, None::<SessionStats>), now),
                ),
            },
    {
        let task = msg.task();
        match outcome {
            Ok(sealed) => {
                store.put_receipt_at(task.session_id.clone(), sealed.receipt, now);
                store.put_session_at(
                    task.session_id.clone(),
                    SessionStatus::Succeeded,
                    Some(sealed.stats),
                    now,
                );
            },
            Err(_) => {
                store.put_session_at(task.session_id.clone(), SessionStatus::Failed, None, now);
            },
        }
    }

    /// Writes down at the present time how the task of `msg` went.
    pub fn finish(store: &mut BonsaiState, msg: &ProverMessage, outcome: Result<SealedProof, Error>)
        requires
            old(store).wf(),
        ensures
            final(store).wf(),
            final(store).url() == old(store).url(),
            final(store).ttl() == old(store).ttl(),
            final(store).images() == old(store).images(),
            final(store).inputs() == old(store).inputs(),
            final(store).latest() >= old(store).latest(),
            final(store).status_of(msg.spec_task().session_id@) == status_after(
                SessionEvent::Finished { succeeded: outcome is Ok },
            ),
            match outcome {
                Ok(sealed) => final(store).receipts() == old(store).receipts().insert(
                    msg.spec_task().session_id@,
                    stamped(sealed.receipt, final(store).latest()),
                ) && final(store).sessions() == old(store).sessions().insert(
                    msg.spec_task().session_id@,
                    stamped((SessionStatus::Succeeded, Some(sealed.stats)), final(store).latest()),
                ),
                Err(_) => final(store).receipts() == old(store).receipts()
                    && final(store).sessions() == old(store).sessions().insert(
                    msg.spec_task().session_id@,
                    stamped((SessionStatus::Failed, None::<SessionStats>), final(store).latest()),
                ),
            },
    {
        let now = store.now();
        Self::finish_at(store, msg, outcome, now);
    }
}

} // verus!
