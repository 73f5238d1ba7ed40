use candle_zencan_adapter::can::{CanId, CanMessage};
use candle_zencan_adapter::endpoint::{send_outcome, CandleReceiver};
use candle_zencan_adapter::error::{CandleErr, ReceiveError, SendError};
use candle_zencan_adapter::worker::{
    send_frame_result, worker_loop, Command, Worker, WorkerEvent,
};

fn message(n: u8) -> CanMessage {
    CanMessage { data: [n, 0, 0, 0, 0, 0, 0, 0], dlc: 1, rtr: false, id: CanId::Std(n as u16) }
}

fn polled(command: Option<Command>) -> WorkerEvent {
    WorkerEvent::Polled { command }
}

fn turn(did: Worker, event: WorkerEvent) -> Worker {
    assert!(did.fits(&event));
    worker_loop(did, event)
}

#[test]
fn worker_sends_and_answers() {
    let w = turn(Worker::Poll, polled(Some(Command::Send { message: message(1) })));
    match w {
        Worker::Send { message: m } => assert_eq!(m, message(1)),
        _ => panic!("not a send"),
    }
    let w = turn(w, WorkerEvent::Sent { result: Ok(()) });
    assert!(matches!(w, Worker::Answer { result: Ok(()) }));
    let w = turn(w, WorkerEvent::Done);
    assert!(matches!(w, Worker::Poll));

    let failed = SendError { message: message(2), details: "x".to_string() };
    let w = turn(Worker::Send { message: message(2) }, WorkerEvent::Sent { result: Err(failed) });
    match w {
        Worker::Answer { result: Err(e) } => assert_eq!(e.into_can_message(), message(2)),
        _ => panic!("not an answer"),
    }
}

#[test]
fn worker_reads_when_nothing_is_asked() {
    let w = turn(Worker::Poll, polled(None));
    assert!(matches!(w, Worker::Read { timeout_ms: 10 }));
    let w = turn(w, WorkerEvent::Received { outcome: Ok(Some(message(3))) });
    match w {
        Worker::Deliver { event } => assert_eq!(event, Ok(message(3))),
        _ => panic!("not a delivery"),
    }
    assert!(matches!(turn(w, WorkerEvent::Done), Worker::Poll));
    let w = turn(Worker::Read { timeout_ms: 10 }, WorkerEvent::Received { outcome: Ok(None) });
    assert!(matches!(w, Worker::Poll));
    let e = ReceiveError::NativeError { code: CandleErr::ReadSize };
    let w = turn(Worker::Read { timeout_ms: 10 }, WorkerEvent::Received { outcome: Err(e) });
    match w {
        Worker::Deliver { event } => assert_eq!(event, Err(e)),
        _ => panic!("not a delivery"),
    }
}

#[test]
fn worker_shuts_down() {
    let w = turn(Worker::Poll, polled(Some(Command::Shutdown)));
    assert!(matches!(w, Worker::StopChannel));
    let w = turn(w, WorkerEvent::Done);
    assert!(matches!(w, Worker::CloseDevice));
    let w = turn(w, WorkerEvent::Done);
    assert!(matches!(w, Worker::FreeDevice));
    let w = turn(w, WorkerEvent::Done);
    assert!(matches!(w, Worker::Exit));
    assert!(!w.fits(&WorkerEvent::Done));
    assert!(!Worker::Poll.fits(&WorkerEvent::Done));
}

#[test]
fn message_of_a_closed_worker_comes_back() {
    let e = send_outcome(message(4), false, None).unwrap_err();
    assert_eq!(e.message(), "worker closed");
    assert_eq!(e.into_can_message(), message(4));
    let e = send_outcome(message(4), true, None).unwrap_err();
    assert_eq!(e.message(), "worker closed");
    assert!(send_outcome(message(4), true, Some(Ok(()))).is_ok());
    let failed = SendError { message: message(4), details: "send failed: X".to_string() };
    let e = send_outcome(message(4), true, Some(Err(failed))).unwrap_err();
    assert_eq!(e.message(), "send failed: X");
}

#[test]
fn messages_are_received() {
    let mut r = CandleReceiver::new();
    assert!(r.wants_event());
    assert_eq!(r.try_recv(Some(Ok(message(1)))), Some(message(1)));
    assert_eq!(r.try_recv(None), None);
    assert_eq!(r.recv(Some(Ok(message(2)))), Ok(message(2)));
    assert_eq!(r.recv(None), Err(ReceiveError::ChannelClosed));
    let e = ReceiveError::NativeError { code: CandleErr::ReadWait };
    assert_eq!(r.recv(Some(Err(e))), Err(e));
    assert!(r.wants_event());
}

#[test]
fn error_is_kept_for_the_next_receive() {
    let mut r = CandleReceiver::new();
    let e = ReceiveError::NativeError { code: CandleErr::ReadSize };
    assert_eq!(r.try_recv(Some(Err(e))), None);
    for _ in 0..3 {
        assert!(!r.wants_event());
        assert_eq!(r.try_recv(None), None);
    }
    assert_eq!(r.recv(None), Err(e));
    assert!(r.wants_event());
    assert_eq!(r.recv(None), Err(ReceiveError::ChannelClosed));
}

#[test]
fn worker_answers_what_it_was_asked() {
    let mut w = Worker::Poll;
    let mut answered = 0;
    for n in 0..5 {
        w = turn(w, polled(Some(Command::Send { message: message(n) })));
        w = turn(w, WorkerEvent::Sent { result: Ok(()) });
        if matches!(w, Worker::Answer { result: Ok(()) }) {
            answered += 1;
        }
        w = turn(w, WorkerEvent::Done);
    }
    assert_eq!(answered, 5);
}

#[test]
fn events_come_in_order_though_looks_find_nothing() {
    let mut r = CandleReceiver::new();
    let e = ReceiveError::NativeError { code: CandleErr::ReadResult };
    assert_eq!(r.try_recv(None), None);
    assert_eq!(r.try_recv(Some(Ok(message(1)))), Some(message(1)));
    assert_eq!(r.try_recv(None), None);
    assert_eq!(r.try_recv(Some(Err(e))), None);
    assert_eq!(r.try_recv(None), None);
    assert_eq!(r.recv(None), Err(e));
    assert_eq!(r.try_recv(None), None);
    assert_eq!(r.recv(Some(Ok(message(2)))), Ok(message(2)));
}

#[test]
fn failed_sends_give_back_their_messages() {
    let mut w = Worker::Poll;
    for n in 1..4 {
        w = turn(w, polled(Some(Command::Send { message: message(n) })));
        let sending = match &w {
            Worker::Send { message } => *message,
            _ => panic!("not a send"),
        };
        w = turn(w, WorkerEvent::Sent { result: send_frame_result(false, None, sending) });
        let answer = match &w {
            Worker::Answer { result: Err(e) } => {
                SendError { message: e.message, details: e.message() }
            }
            _ => panic!("not a failure"),
        };
        let e = send_outcome(message(n), true, Some(Err(answer))).unwrap_err();
        assert_eq!(e.message(), "send failed: Unknown");
        assert_eq!(e.into_can_message(), message(n));
        w = turn(w, WorkerEvent::Done);
    }
}
