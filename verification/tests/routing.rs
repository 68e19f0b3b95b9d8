use roc_host::decimal::{format_u64, parse_u64, parse_usize};
use roc_host::method::RocMethod;
use roc_host::path::split_path;
use roc_host::template::{new_talk, render_home_page, roc_talks};
use roc_host::routes::{
    compute_reply, dup_reply, fibonacci, fibonacci_fits, naps_reply, route, Reply, Route,
};

fn reply_of(r: Route) -> Reply {
    match r {
        Route::Reply(reply) => reply,
        _ => panic!("expected an immediate reply"),
    }
}

#[test]
fn root_says_hello_world() {
    let r = reply_of(route(RocMethod::Get, b"/"));
    assert_eq!(r.status, 200);
    assert_eq!(r.body, b"Hello, World!".to_vec());
}

#[test]
fn hello_with_two_names() {
    let r = reply_of(route(RocMethod::Get, b"/hello/Jane/Doe"));
    assert_eq!(r.status, 200);
    assert_eq!(r.body, b"Hello, Jane Doe!".to_vec());
}

#[test]
fn hello_with_one_name() {
    let r = reply_of(route(RocMethod::Get, b"/hello/Jane"));
    assert_eq!(r.body, b"Hello, Jane!".to_vec());
    let r = reply_of(route(RocMethod::Get, b"/hello/Jane/"));
    assert_eq!(r.body, b"Hello, Jane!".to_vec());
}

#[test]
fn hello_without_name() {
    let r = reply_of(route(RocMethod::Get, b"/hello"));
    assert_eq!(r.body, b"Hello, Mr. Nobody?".to_vec());
    let r = reply_of(route(RocMethod::Get, b"/hello//Doe"));
    assert_eq!(r.body, b"Hello, Mr. Nobody?".to_vec());
}

#[test]
fn sleep_once_and_repeated() {
    match route(RocMethod::Get, b"/sleep/25") {
        Route::Sleep { delay_ms, reps, naps } => {
            assert_eq!(delay_ms, 25);
            assert_eq!(reps, None);
            assert_eq!(naps, 1);
        }
        _ => panic!("expected a sleep"),
    }
    match route(RocMethod::Get, b"/sleep/25/3") {
        Route::Sleep { delay_ms, reps, naps } => {
            assert_eq!(delay_ms, 25);
            assert_eq!(reps, Some(3));
            assert_eq!(naps, 3);
        }
        _ => panic!("expected a sleep"),
    }
    match route(RocMethod::Get, b"/sleep/25/0") {
        Route::Sleep { reps, naps, .. } => {
            assert_eq!(reps, Some(0));
            assert_eq!(naps, 0);
        }
        _ => panic!("expected a sleep"),
    }
    assert_eq!(naps_reply(None).body, b"Nap Completed".to_vec());
    assert_eq!(naps_reply(Some(3)).body, b"3 Naps Completed".to_vec());
    assert_eq!(naps_reply(Some(3)).status, 200);
}

#[test]
fn sleep_with_bad_numbers_is_a_bad_request() {
    for path in [&b"/sleep"[..], b"/sleep/x", b"/sleep/25/x", b"/sleep/25/", b"/sleep/-1"] {
        let r = reply_of(route(RocMethod::Get, path));
        assert_eq!(r.status, 400);
        assert!(r.body.is_empty());
    }
}

#[test]
fn compute_route_and_answer() {
    match route(RocMethod::Get, b"/compute/10") {
        Route::Compute { n } => assert_eq!(n, 10),
        _ => panic!("expected a computation"),
    }
    let r = compute_reply(10);
    assert_eq!(r.status, 200);
    assert_eq!(r.body, b"89".to_vec());
    assert_eq!(reply_of(route(RocMethod::Get, b"/compute")).status, 400);
    assert_eq!(reply_of(route(RocMethod::Get, b"/compute/ten")).status, 400);
}

#[test]
fn fibonacci_values() {
    assert_eq!(fibonacci(0), 1);
    assert_eq!(fibonacci(1), 1);
    assert_eq!(fibonacci(2), 2);
    assert_eq!(fibonacci(10), 89);
    assert_eq!(fibonacci(20), 10946);
}

#[test]
fn fibonacci_fits_up_to_92() {
    assert!(fibonacci_fits(0));
    assert!(fibonacci_fits(92));
    assert!(!fibonacci_fits(93));
    assert!(!fibonacci_fits(u64::MAX));
}

#[test]
fn dup_route_and_answer() {
    match route(RocMethod::Post, b"/dup/3") {
        Route::Dup { times } => assert_eq!(times, Some(3)),
        _ => panic!("expected a dup"),
    }
    match route(RocMethod::Post, b"/dup/many") {
        Route::Dup { times } => assert_eq!(times, None),
        _ => panic!("expected a dup"),
    }
    let r = dup_reply(Some(3), Some(&b"ab"[..]));
    assert_eq!(r.status, 200);
    assert_eq!(r.body, b"ababab".to_vec());
    assert_eq!(dup_reply(Some(0), Some(&b"ab"[..])).body, Vec::<u8>::new());
    assert_eq!(dup_reply(None, Some(&b"ab"[..])).status, 400);
    assert_eq!(dup_reply(Some(2), None).status, 400);
}

#[test]
fn other_requests_are_not_found() {
    for (method, path) in [
        (RocMethod::Get, &b"/dup/3"[..]),
        (RocMethod::Post, b"/"),
        (RocMethod::Post, b"/hello"),
        (RocMethod::Get, b"/nope"),
        (RocMethod::Put, b"/"),
        (RocMethod::Get, b""),
    ] {
        let r = reply_of(route(method, path));
        assert_eq!(r.status, 404);
        assert!(r.body.is_empty());
    }
}

#[test]
fn split_keeps_empty_segments() {
    assert_eq!(split_path(b""), vec![Vec::<u8>::new()]);
    assert_eq!(split_path(b"/"), vec![Vec::<u8>::new(), Vec::new()]);
    assert_eq!(
        split_path(b"/a//bc"),
        vec![Vec::new(), b"a".to_vec(), Vec::new(), b"bc".to_vec()]
    );
}

#[test]
fn parse_unsigned_text() {
    assert_eq!(parse_u64(b"0"), Some(0));
    assert_eq!(parse_u64(b"007"), Some(7));
    assert_eq!(parse_u64(b"+42"), Some(42));
    assert_eq!(parse_u64(b"18446744073709551615"), Some(u64::MAX));
    assert_eq!(parse_u64(b"18446744073709551616"), None);
    assert_eq!(parse_u64(b""), None);
    assert_eq!(parse_u64(b"+"), None);
    assert_eq!(parse_u64(b"-1"), None);
    assert_eq!(parse_u64(b"1x"), None);
    assert_eq!(parse_u64(b"++1"), None);
    assert_eq!(parse_usize(b"12"), Some(12));
    assert_eq!(parse_usize(b""), None);
}

#[test]
fn format_then_parse_round_trips() {
    for n in [0u64, 7, 10, 89, 1234567890, u64::MAX] {
        let text = format_u64(n);
        assert_eq!(text, n.to_string().into_bytes());
        assert_eq!(parse_u64(&text), Some(n));
    }
}

#[test]
fn method_names() {
    assert_eq!(RocMethod::from_name(b"GET"), RocMethod::Get);
    assert_eq!(RocMethod::from_name(b"POST"), RocMethod::Post);
    assert_eq!(RocMethod::from_name(b"CONNECT"), RocMethod::Connect);
    assert_eq!(RocMethod::from_name(b"DELETE"), RocMethod::Delete);
    assert_eq!(RocMethod::from_name(b"HEAD"), RocMethod::Head);
    assert_eq!(RocMethod::from_name(b"OPTIONS"), RocMethod::Options);
    assert_eq!(RocMethod::from_name(b"PATCH"), RocMethod::Patch);
    assert_eq!(RocMethod::from_name(b"PUT"), RocMethod::Put);
    assert_eq!(RocMethod::from_name(b"TRACE"), RocMethod::Trace);
    assert_eq!(RocMethod::from_name(b"get"), RocMethod::Other);
    assert_eq!(RocMethod::from_name(b"PURGE"), RocMethod::Other);
    assert_eq!(RocMethod::from_name(b""), RocMethod::Other);
}

#[test]
fn template_lists_the_talks() {
    let r = reply_of(route(RocMethod::Get, b"/template"));
    assert_eq!(r.status, 200);
    let page = String::from_utf8(r.body).unwrap();
    assert!(page.starts_with("<!DOCTYPE html>"));
    assert!(page.ends_with("</ul></body></html>"));
    assert!(page.contains(
        "<li><a href=\"https://youtu.be/vzfy4EKwG_Y\">Outperforming Imperative with Pure Functional Languages</a>: Richard Feldman at Strange Loop 2021</li>"
    ));
    assert_eq!(page.matches("<li>").count(), 3);
    assert_eq!(reply_of(route(RocMethod::Post, b"/template")).status, 404);
}

#[test]
fn template_page_from_records() {
    let talks = vec![
        new_talk(b"A", b"http://a", b"first"),
        new_talk(b"B", b"http://b", b"second"),
    ];
    let page = String::from_utf8(render_home_page(&talks)).unwrap();
    assert!(page.contains(
        "<ul><li><a href=\"http://a\">A</a>: first</li><li><a href=\"http://b\">B</a>: second</li></ul>"
    ));
    let empty = String::from_utf8(render_home_page(&Vec::new())).unwrap();
    assert!(empty.contains("<h2>Talks</h2><ul></ul>"));
    assert_eq!(roc_talks().len(), 3);
}
