use roc_host::continuation::{
    default_feed_data, invalid_request_reply, decode_future_request, decode_web_request, task_kind, DataFeeder, FeedAction, FutureRequest,
    MixedAction, MixedFeeder, WebRequest,
};
use roc_host::effects::{read_delay_ms, sample_read_delay_ms, ReadCounter};
use roc_host::panic::{panic_disposition, PanicDisposition};
use roc_host::status::response_status;
use roc_host::utf8::is_valid_utf8;
use roc_host::tagged::{get_tag, payload_closure_address, refcount_address, remove_tag};

#[test]
fn tag_and_address() {
    assert_eq!(get_tag(0x1003), 3);
    assert_eq!(get_tag(0x1008), 0);
    assert_eq!(get_tag(usize::MAX), 7);
    assert_eq!(remove_tag(0x100F), 0x1008);
    assert_eq!(remove_tag(0x1008), 0x1008);
    assert_eq!(remove_tag(usize::MAX), usize::MAX - 7);
    for p in [0usize, 1, 7, 8, 0x1234_5677, usize::MAX] {
        assert_eq!(remove_tag(p) + get_tag(p) as usize, p);
        assert_eq!(get_tag(remove_tag(p)), 0);
    }
}

#[test]
fn tagging_round_trip() {
    for addr in [0usize, 8, 0x1000, usize::MAX - 7] {
        for tag in 0..8usize {
            let p = addr + tag;
            assert_eq!(get_tag(p) as usize, tag);
            assert_eq!(remove_tag(p), addr);
        }
    }
}

#[test]
fn refcount_and_closure_addresses() {
    assert_eq!(refcount_address(0x1009), 0x1000);
    assert_eq!(refcount_address(0x1008), 0x1000);
    assert_eq!(payload_closure_address(0x1001), 0x1010);
    assert_eq!(payload_closure_address(0x1008), 0x1018);
}

#[test]
fn mixed_feeder_counts_up_by_two() {
    let mut feeder = MixedFeeder::new();
    assert_eq!(feeder.peek_i32(), 10);
    assert_eq!(feeder.step(0x1002), MixedAction::SendI32(10));
    assert_eq!(feeder.step(0x2001), MixedAction::SendF32);
    assert_eq!(feeder.step(0x3002), MixedAction::SendI32(12));
    assert_eq!(feeder.step(0x4002), MixedAction::SendI32(14));
    assert_eq!(feeder.step(0x5005), MixedAction::Invalid);
    assert_eq!(feeder.step(0x5000), MixedAction::Finish);
    assert_eq!(feeder.peek_i32(), 16);
}

#[test]
fn data_feeder_hands_out_in_order() {
    assert_eq!(default_feed_data(), vec![21, 15, -9, 12, 32]);
    let mut feeder = DataFeeder::new(default_feed_data());
    assert_eq!(feeder.step(0x1001), FeedAction::Send(21));
    assert_eq!(feeder.step(0x1001), FeedAction::Send(15));
    assert_eq!(feeder.step(0x1003), FeedAction::Send(-9));
    assert_eq!(feeder.step(0x1001), FeedAction::Send(12));
    assert_eq!(feeder.step(0x1001), FeedAction::Send(32));
    assert_eq!(feeder.step(0x1001), FeedAction::OutOfData);
    assert_eq!(feeder.step(0x1000), FeedAction::Finish);
}

#[test]
fn data_feeder_done_at_once() {
    let mut feeder = DataFeeder::new(vec![]);
    assert_eq!(feeder.step(0x1000), FeedAction::Finish);
    assert_eq!(feeder.step(0x1001), FeedAction::OutOfData);
}

#[test]
fn future_requests() {
    assert_eq!(decode_future_request(0x1000), FutureRequest::Done);
    assert_eq!(decode_future_request(0x1001), FutureRequest::AwaitMore);
    assert_eq!(decode_future_request(0x1006), FutureRequest::Invalid(6));
    assert_eq!(task_kind(0), 0);
    assert_eq!(task_kind(4), 1);
    assert_eq!(task_kind(8), 2);
}

#[test]
fn web_requests() {
    assert_eq!(decode_web_request(0x1000), WebRequest::DbRequest);
    assert_eq!(decode_web_request(0x1001), WebRequest::LoadBody);
    assert_eq!(decode_web_request(0x1002), WebRequest::Respond);
    assert_eq!(decode_web_request(0x1003), WebRequest::Invalid);
    let r = invalid_request_reply();
    assert_eq!(r.status, 500);
    assert!(r.body.is_empty());
}

#[test]
fn response_status_falls_back_to_internal_error() {
    assert_eq!(response_status(200), 200);
    assert_eq!(response_status(404), 404);
    assert_eq!(response_status(100), 100);
    assert_eq!(response_status(999), 999);
    assert_eq!(response_status(99), 500);
    assert_eq!(response_status(42), 500);
    assert_eq!(response_status(1000), 500);
    assert_eq!(response_status(0), 500);
}

#[test]
fn read_delays() {
    assert_eq!(read_delay_ms(0), 1000);
    assert_eq!(read_delay_ms(-50), 950);
    assert_eq!(read_delay_ms(49), 1049);
    let mut draws = Vec::new();
    for _ in 0..200 {
        let ms = sample_read_delay_ms().expect("the operating system seeds the draw");
        assert!((950..1050).contains(&ms));
        draws.push(ms);
    }
    // The jitter is drawn, not fixed: 200 draws from 100 values differ.
    assert!(draws.iter().any(|&ms| ms != draws[0]));
}

#[test]
fn read_counter_counts() {
    let mut c = ReadCounter::new();
    assert_eq!(c.read(), 0);
    assert_eq!(c.read(), 1);
    assert_eq!(c.read(), 2);
    assert_eq!(c.peek(), 3);
    let mut fresh = ReadCounter::new();
    let got: Vec<i32> = (0..10).map(|_| fresh.read()).collect();
    assert_eq!(got, (0..10).collect::<Vec<i32>>());
    assert_eq!(fresh.peek(), 10);
}

#[test]
fn panics() {
    match panic_disposition(0, b"oops") {
        PanicDisposition::Exit { code, report } => {
            assert_eq!(code, 1);
            assert_eq!(report, b"Roc hit a panic: oops".to_vec());
        }
        _ => panic!("a UTF-8 message panic is reported"),
    }
    assert!(matches!(panic_disposition(1, b"oops"), PanicDisposition::Unsupported));
    assert!(matches!(panic_disposition(0, &[255]), PanicDisposition::InvalidMessage));
    assert!(matches!(panic_disposition(0, &[0xC3, 0x28]), PanicDisposition::InvalidMessage));
    match panic_disposition(0, "caf\u{e9} \u{1F600}".as_bytes()) {
        PanicDisposition::Exit { report, .. } => {
            assert_eq!(report, "Roc hit a panic: caf\u{e9} \u{1F600}".as_bytes().to_vec())
        }
        _ => panic!("a UTF-8 message is reported"),
    }
}

#[test]
fn utf8_validation() {
    assert!(is_valid_utf8(b""));
    assert!(is_valid_utf8(b"hello"));
    assert!(is_valid_utf8("\u{e9}\u{20AC}\u{1F600}".as_bytes()));
    assert!(!is_valid_utf8(&[0x80]));
    assert!(!is_valid_utf8(&[0xC0, 0x80]));
    assert!(!is_valid_utf8(&[0xE0, 0x80, 0x80]));
    assert!(!is_valid_utf8(&[0xED, 0xA0, 0x80]));
    assert!(!is_valid_utf8(&[0xF4, 0x90, 0x80, 0x80]));
    assert!(!is_valid_utf8(&[0xF0, 0x9F, 0x98]));
    assert!(!is_valid_utf8(&[0xFF]));
    for bytes in [&[0xC3u8, 0xA9][..], &[0xEF, 0xBF, 0xBF], &[0xF4, 0x8F, 0xBF, 0xBF], &[0xED, 0x9F, 0xBF]] {
        assert_eq!(is_valid_utf8(bytes), std::str::from_utf8(bytes).is_ok());
    }
}
