use shmempipe::region::{join_initialized, MAGIC_INITIALIZING, MAGIC_READY, MAGIC_TOMBSTONE};
use shmempipe::session::{issue_back_to_back, round_trip};
use shmempipe::worker::may_sleep;
use shmempipe::{create, AttachError, ProtocolViolation};

const OWNER_PID: u32 = 100;
const WORKER_PID: u32 = 200;

#[test]
fn single_thread_echo() {
    let mut region = create();
    assert_eq!(region.magic, MAGIC_READY);

    // attach sees the published magic at once
    assert_eq!(join_initialized(&region), Ok(()));

    let mut requester = region
        .try_acquire_requester(OWNER_PID)
        .expect("owner slot should be free");
    let mut responder = region
        .try_acquire_responder(WORKER_PID)
        .expect("worker slot should be free");

    let id = requester.send_request(&mut region, &[0x01, 0x02, 0x03, 0x04]);
    assert_eq!(id, 0);

    // the worker sees the length frame 04 00 00 00 00 00 00 00, then the payload
    assert_eq!(responder.read_next_frame_len(&mut region), Ok(4));
    let mut payload = vec![0u8; 4];
    assert_eq!(responder.read_exact(&mut region, &mut payload), 4);
    assert_eq!(payload, vec![0x01, 0x02, 0x03, 0x04]);

    assert_eq!(responder.write_all(&mut region, &[0x04, 0x03, 0x02, 0x01]), 4);

    let mut resp = vec![0u8; 4];
    requester.recv_response(id, &mut region, &mut resp);
    assert_eq!(resp, vec![0x04, 0x03, 0x02, 0x01]);
    assert_eq!(requester.finish_turn(id), None);
}

#[test]
fn two_concurrent_requests() {
    let mut region = create();
    let mut requester = region.try_acquire_requester(OWNER_PID).unwrap();
    let mut responder = region.try_acquire_responder(WORKER_PID).unwrap();

    const THREAD_A: u64 = 1;
    const THREAD_B: u64 = 2;

    // thread A takes the producer lock first, thread B second
    let id_a = requester.send_request(&mut region, &[0xAA]);
    let id_b = requester.send_request(&mut region, &[0xBB]);
    assert_eq!(id_a, 0);
    assert_eq!(id_b, 1);

    // B finds that it is not B's turn and parks under its ticket
    assert_ne!(requester.next, id_b);
    requester.waiting.store_current(id_b, THREAD_B);

    // the worker answers A first: requests leave the ring in ticket order
    assert_eq!(responder.read_next_frame_len(&mut region), Ok(1));
    let mut payload = vec![0u8; 1];
    responder.read_exact(&mut region, &mut payload);
    assert_eq!(payload, vec![0xAA]);
    responder.write_all(&mut region, &payload);

    // A reads its response and hands off, waking B
    let mut resp_a = vec![0u8; 1];
    requester.recv_response(id_a, &mut region, &mut resp_a);
    assert_eq!(resp_a, vec![0xAA]);
    assert_eq!(requester.finish_turn(id_a), Some(THREAD_B));

    // B wakes, finds itself at the front, and pops itself
    assert!(requester.waiting.current_is_front(id_b, THREAD_B));
    requester.waiting.pop_front(id_b, THREAD_B);

    // the worker answers B
    assert_eq!(responder.read_next_frame_len(&mut region), Ok(1));
    responder.read_exact(&mut region, &mut payload);
    assert_eq!(payload, vec![0xBB]);
    responder.write_all(&mut region, &payload);

    let mut resp_b = vec![0u8; 1];
    requester.recv_response(id_b, &mut region, &mut resp_b);
    assert_eq!(resp_b, vec![0xBB]);
    assert_eq!(requester.finish_turn(id_b), None);
}

#[test]
fn round_trip_delivers_both_ways() {
    let mut region = create();
    let mut requester = region.try_acquire_requester(OWNER_PID).unwrap();
    let mut responder = region.try_acquire_responder(WORKER_PID).unwrap();

    let req = [9u8, 8, 7, 6, 5];
    // an echoing worker: the reply is the first three bytes of the payload
    let reply = [9u8, 8, 7];
    let mut observed = vec![0u8; 5];
    let mut resp = vec![0u8; 3];

    let id = round_trip(
        &mut requester,
        &mut responder,
        &mut region,
        &req,
        &reply,
        &mut observed,
        &mut resp,
    );
    assert_eq!(id, 0);
    assert_eq!(observed, req.to_vec());
    assert_eq!(resp, reply.to_vec());
}

#[test]
fn tickets_are_issued_and_served_in_order() {
    let mut region = create();
    let mut requester = region.try_acquire_requester(OWNER_PID).unwrap();
    let mut responder = region.try_acquire_responder(WORKER_PID).unwrap();

    let mut ids = Vec::new();
    for i in 0..5u8 {
        let req = [i, i, i];
        let reply = [i];
        let mut observed = vec![0u8; 3];
        let mut resp = vec![0u8; 1];
        let id = round_trip(
            &mut requester,
            &mut responder,
            &mut region,
            &req,
            &reply,
            &mut observed,
            &mut resp,
        );
        assert_eq!(resp, vec![i]);
        ids.push(id);
    }
    // a permutation of 0..5 with no duplicates, in issue order
    assert_eq!(ids, vec![0, 1, 2, 3, 4]);
}

#[test]
fn attach_ready_and_timeout() {
    let mut region = create();
    assert_eq!(join_initialized(&region), Ok(()));

    // a creator that never publishes the magic: attach gives up
    region.magic = MAGIC_INITIALIZING;
    assert_eq!(join_initialized(&region), Err(AttachError::NotInitialized));
}

#[test]
fn tombstone_visibility() {
    let mut region = create();
    // create followed by an immediate owner drop
    region.tombstone();
    assert_eq!(region.magic, MAGIC_TOMBSTONE);
    assert_eq!(
        join_initialized(&region),
        Err(AttachError::UnknownMagic(0xffff_ffff))
    );
}

#[test]
fn participant_slots_are_exclusive() {
    let mut region = create();
    assert!(region.try_acquire_requester(OWNER_PID).is_some());
    assert!(region.try_acquire_requester(OWNER_PID + 1).is_none());
    assert!(region.try_acquire_responder(WORKER_PID).is_some());
    assert!(region.try_acquire_responder(WORKER_PID + 1).is_none());
}

#[test]
fn waiter_sleep_and_wake() {
    let mut region = create();
    let mut requester = region.try_acquire_requester(OWNER_PID).unwrap();
    let mut responder = region.try_acquire_responder(WORKER_PID).unwrap();

    // with nothing outstanding the worker may sleep awaiting a header
    assert!(may_sleep(&region));
    assert_eq!(region.notify_worker.available(), 0);

    // the owner accounts a request and posts the wakeup: the worker may
    // no longer sleep, and a sleeper would be roused
    requester.send_request(&mut region, &[0x2a]);
    assert!(!may_sleep(&region));
    assert_eq!(region.notify_worker.available(), 1);

    assert_eq!(responder.read_next_frame_len(&mut region), Ok(1));
    let mut payload = vec![0u8; 1];
    responder.read_exact(&mut region, &mut payload);
    responder.write_all(&mut region, &payload);

    // the response released the request: sleeping is allowed again
    assert!(may_sleep(&region));
}

#[test]
fn corrupt_frame_length_fails_deterministically() {
    let mut region = create();
    region.try_acquire_requester(OWNER_PID).unwrap();
    let mut responder = region.try_acquire_responder(WORKER_PID).unwrap();

    // inject, by direct ring manipulation, a header whose upper bytes are
    // nonzero
    assert_eq!(
        region.to_worker.push_slice(&[0x01, 0, 0, 0, 0, 0, 0, 0x09]),
        8
    );
    assert_eq!(
        responder.read_next_frame_len(&mut region),
        Err(ProtocolViolation::CorruptFrameLength(0x0900_0000_0000_0001))
    );

    // the failure consumed only the bad header: a good frame after it is
    // read intact
    assert_eq!(responder.remaining, None);
    region.to_worker.push_slice(&[0x02, 0, 0, 0, 0, 0, 0, 0]);
    region.to_worker.push_slice(&[0x0a, 0x0b]);
    assert_eq!(responder.read_next_frame_len(&mut region), Ok(2));
    let mut payload = vec![0u8; 2];
    assert_eq!(responder.read_exact(&mut region, &mut payload), 2);
    assert_eq!(payload, vec![0x0a, 0x0b]);
}

#[test]
fn frame_in_progress_is_refused() {
    let mut region = create();
    let mut requester = region.try_acquire_requester(OWNER_PID).unwrap();
    let mut responder = region.try_acquire_responder(WORKER_PID).unwrap();

    requester.send_request(&mut region, &[1, 2, 3]);
    assert_eq!(responder.read_next_frame_len(&mut region), Ok(3));

    // drain one byte; asking for a new frame now is a protocol violation
    let mut one = vec![0u8; 1];
    assert_eq!(responder.read(&mut region, &mut one), Ok(1));
    assert_eq!(one, vec![1]);
    assert_eq!(
        responder.read_next_frame_len(&mut region),
        Err(ProtocolViolation::FrameInProgress(2))
    );

    // the rest of the frame is still delivered in order
    let mut rest = vec![0u8; 2];
    assert_eq!(responder.read_exact(&mut region, &mut rest), 2);
    assert_eq!(rest, vec![2, 3]);
    assert_eq!(responder.remaining, None);
}

#[test]
fn read_drains_header_and_body_in_pieces() {
    let mut region = create();
    let mut requester = region.try_acquire_requester(OWNER_PID).unwrap();
    let mut responder = region.try_acquire_responder(WORKER_PID).unwrap();

    requester.send_request(&mut region, &[10, 20, 30, 40]);

    // without a frame in progress, read takes the header itself first
    let mut buf = vec![0u8; 2];
    assert_eq!(responder.read(&mut region, &mut buf), Ok(2));
    assert_eq!(buf, vec![10, 20]);
    assert_eq!(responder.remaining, Some((4, 2)));

    // a large buffer still stops at the frame boundary
    let mut buf = vec![0u8; 8];
    assert_eq!(responder.read(&mut region, &mut buf), Ok(2));
    assert_eq!(&buf[..2], &[30, 40]);
    assert_eq!(responder.remaining, None);
}

#[test]
fn back_to_back_wakeup_economy() {
    let mut region = create();
    let mut requester = region.try_acquire_requester(OWNER_PID).unwrap();
    let mut responder = region.try_acquire_responder(WORKER_PID).unwrap();

    let req = [1u8, 2, 3];
    let reply = [9u8];
    let mut observed = vec![0u8; 3];
    let mut resp = vec![0u8; 1];

    issue_back_to_back(
        &mut requester,
        &mut responder,
        &mut region,
        &req,
        &reply,
        &mut observed,
        &mut resp,
        5,
    );

    // one worker wakeup per request, one owner wakeup per response
    assert_eq!(region.notify_worker.posts_made(), 5);
    assert_eq!(region.notify_owner.posts_made(), 5);
    assert_eq!(observed, req.to_vec());
    assert_eq!(resp, reply.to_vec());
}

#[test]
fn request_response_uncontended() {
    let mut region = create();
    let mut requester = region.try_acquire_requester(OWNER_PID).unwrap();

    // a pipelining worker has already streamed the response bytes and
    // posted the response wakeup
    assert_eq!(region.from_worker.push_slice(&[7, 8]), 2);
    region.notify_owner.post();

    let mut resp = vec![0u8; 2];
    let id = requester.request_response(&mut region, &[5, 5, 5], &mut resp);
    assert_eq!(id, 0);
    assert_eq!(resp, vec![7, 8]);
    assert_eq!(requester.next, 1);
    assert_eq!(requester.producer, 1);
}
