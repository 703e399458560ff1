//! The end-to-end story, on the engine's plain values: one upload slot, a
//! small body with a suggested filename, a paired download, completion, and
//! a late second download that finds nothing.

use skicka::registry::{Overload, Registry};
use skicka::relay::{Relay, RelayStep, SendOutcome, StopReason, StreamEvent};
use skicka::respond::{content_disposition_value, first_line, Rejection};

#[test]
fn one_slot_upload_download_roundtrip() {
    // max_connections = 1; the payload stands for the upload's byte stream.
    let mut reg: Registry<&'static [u8]> = Registry::new(1);

    // POST /?name=hi.txt with body "hello": registered, id shown first.
    let body: &'static [u8] = b"hello";
    let (id, seq) = reg
        .register(Some("hi.txt".to_string()), body)
        .expect("upload below capacity is admitted");
    let line = first_line(&None, &id);
    assert_eq!(line, format!("{}\r\n", id));

    // A second concurrent upload is turned away with 503.
    assert!(matches!(reg.register(None, b"other"), Err(Overload::AtCapacity)));
    assert_eq!(Rejection::Overloaded.status_code(), 503);

    // GET /:id within the intent window: the claim wins over the reaper.
    let entry = reg.claim(&id).expect("first download claims the upload");
    assert_eq!(entry.seq, seq);
    let name = entry.display_name.clone().expect("name was supplied");
    assert_eq!(content_disposition_value(&name), "attachment; filename=\"hi.txt\"");

    // The scheduled reaper fires later and must not touch anything.
    assert!(!reg.reap_if_stale(&id, seq));

    // The relay pumps the single 5-byte chunk, then sees end of stream.
    let mut relay = Relay::new(8 * 1024);
    assert_eq!(
        relay.on_stream_event(StreamEvent::Chunk { len: entry.payload.len() as u64 }),
        RelayStep::Forward
    );
    assert_eq!(relay.on_send_outcome(SendOutcome::Sent), None);
    let stop = relay.on_stream_event(StreamEvent::EndOfStream);
    assert_eq!(stop, RelayStep::Stop(StopReason::Completed));
    assert_eq!(relay.transferred, 5);
    assert_eq!(StopReason::Completed.message(), "transfer completed");

    // A second GET /:id finds nothing: 404.
    assert!(reg.claim(&id).is_none());
    assert_eq!(Rejection::NotFound.status_code(), 404);

    // The slot is free again.
    assert!(reg.try_admit());
}

#[test]
fn unclaimed_upload_is_reaped_and_then_unreachable() {
    let mut reg: Registry<&'static [u8]> = Registry::new(1);
    let (id, seq) = reg.register(None, b"hello").expect("admitted");

    // The intent timeout elapses unclaimed: the reaper removes the entry.
    assert!(reg.reap_if_stale(&id, seq));

    // A later GET /:id gets 404, and the slot is free again.
    assert!(reg.claim(&id).is_none());
    assert!(reg.try_admit());
}
