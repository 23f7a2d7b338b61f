use bonsai_local::error::Error;
use bonsai_local::prover::{Prover, ProverMessage, SendOutcome, Task};
use std::time::{Duration, Instant};
use tokio::sync::mpsc;

fn message(number: usize) -> ProverMessage {
    ProverMessage::RunSession(Task {
        session_id: format!("session{number}"),
        image_id: "image".to_string(),
        input_id: "input".to_string(),
        assumptions: vec![],
    })
}

async fn enqueue(
    sender: &mpsc::Sender<ProverMessage>,
    msg: ProverMessage,
    timeout: Duration,
) -> Result<(), Error> {
    let outcome = match tokio::time::timeout(timeout, sender.send(msg)).await {
        Ok(Ok(_)) => SendOutcome::Sent,
        Ok(Err(_)) => SendOutcome::Closed,
        Err(_) => SendOutcome::TimedOut,
    };
    Prover::submitted(outcome)
}

#[test]
fn enqueue_on_a_full_queue_fails_after_the_timeout() {
    let runtime = tokio::runtime::Builder::new_current_thread()
        .enable_time()
        .build()
        .unwrap();
    runtime.block_on(async {
        let capacity = 3;
        let timeout = Duration::from_millis(200);
        // The worker is busy with a slow task: it takes nothing off the queue.
        let (sender, mut receiver) = mpsc::channel::<ProverMessage>(capacity);
        for number in 0..capacity {
            assert_eq!(enqueue(&sender, message(number), timeout).await, Ok(()));
        }

        let started = Instant::now();
        let result = enqueue(&sender, message(capacity), timeout).await;
        let waited = started.elapsed();
        assert_eq!(result, Err(Error::ProverQueueFull));
        assert!(waited >= timeout);
        assert!(waited < timeout * 10);

        // The worker takes the tasks in the order in which they were submitted.
        for number in 0..capacity {
            let msg = receiver.recv().await.unwrap();
            assert_eq!(msg.task().session_id, format!("session{number}"));
        }

        // There is room again.
        assert_eq!(enqueue(&sender, message(capacity), timeout).await, Ok(()));

        // Once the worker is gone, so is the queue.
        drop(receiver);
        assert_eq!(
            enqueue(&sender, message(capacity + 1), timeout).await,
            Err(Error::ChannelClosed)
        );
    });
}

#[test]
fn enqueue_waits_for_room_within_the_timeout() {
    let runtime = tokio::runtime::Builder::new_current_thread()
        .enable_time()
        .build()
        .unwrap();
    runtime.block_on(async {
        let (sender, mut receiver) = mpsc::channel::<ProverMessage>(1);
        assert_eq!(enqueue(&sender, message(0), Duration::from_secs(5)).await, Ok(()));
        // The worker gets done with its task after a while and takes the next.
        let worker = tokio::spawn(async move {
            tokio::time::sleep(Duration::from_millis(50)).await;
            let taken = receiver.recv().await.unwrap();
            (taken, receiver)
        });
        let result = enqueue(&sender, message(1), Duration::from_secs(5)).await;
        assert_eq!(result, Ok(()));
        let (taken, mut receiver) = worker.await.unwrap();
        assert_eq!(taken.task().session_id, "session0");
        assert_eq!(receiver.recv().await.unwrap().task().session_id, "session1");
    });
}
