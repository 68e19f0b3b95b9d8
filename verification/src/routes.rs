//! Routing of the plain benchmark web server: which answer each request
//! gets, and the bodies of those answers.

use vstd::prelude::*;
use crate::bytes::{
    append_bytes, bytes_equal, lemma_repeated_index, lemma_repeated_len, repeat_bytes, repeated,
};
use crate::decimal::{
    decimal, format_u64, lemma_format_then_parse, parse_u64, parse_unsigned, parse_usize,
};
use crate::method::RocMethod;
use crate::path::{lemma_split_of_parts, no_slash, segment, split_path, views, SLASH};
use crate::template::{home_page, render_home_page, roc_talk_list, roc_talks};

verus! {

/// Status of a response that carries its body.
pub const STATUS_OK: u16 = 200;

/// Status of a request whose path holds a number that does not parse.
pub const STATUS_BAD_REQUEST: u16 = 400;

/// Status of a request that no route takes.
pub const STATUS_NOT_FOUND: u16 = 404;

/// A complete answer: status code and body bytes.
pub struct Reply {
    pub status: u16,
    pub body: Vec<u8>,
}

/// The mathematical value of a [`Reply`].
pub struct ReplyView {
    pub status: u16,
    pub body: Seq<u8>,
}

impl View for Reply {
    type V = ReplyView;

    open spec fn view(&self) -> ReplyView {
        ReplyView { status: self.status, body: self.body@ }
    }
}

/// What the server does with a request.
pub enum Route {
    /// Answer at once.
    Reply(Reply),
    /// Sleep `delay_ms` `naps` times (once when no repeat count is given,
    /// `reps` times when it is), then answer with [`naps_reply`] of `reps`.
    Sleep { delay_ms: u64, reps: Option<u64>, naps: u64 },
    /// Compute the `n`th Fibonacci number, then answer with
    /// [`compute_reply`].
    Compute { n: u64 },
    /// Read the request body, then answer with [`dup_reply`]; `times` is
    /// the parsed repeat count, if it parsed.
    Dup { times: Option<usize> },
}

/// The mathematical value of a [`Route`].
pub enum RouteView {
    Reply(ReplyView),
    Sleep { delay_ms: u64, reps: Option<u64>, naps: u64 },
    Compute { n: u64 },
    Dup { times: Option<usize> },
}

impl View for Route {
    type V = RouteView;

    open spec fn view(&self) -> RouteView {
        match self {
            Route::Reply(r) => RouteView::Reply(r@),
            Route::Sleep { delay_ms, reps, naps } => RouteView::Sleep {
                delay_ms: *delay_ms,
                reps: *reps,
                naps: *naps,
            },
            Route::Compute { n } => RouteView::Compute { n: *n },
            Route::Dup { times } => RouteView::Dup { times: *times },
        }
    }
}

pub open spec fn hello_world_text() -> Seq<u8> {
    seq![72u8, 101, 108, 108, 111, 44, 32, 87, 111, 114, 108, 100, 33]
}

pub open spec fn hello_prefix_text() -> Seq<u8> {
    seq![72u8, 101, 108, 108, 111, 44, 32]
}

pub open spec fn nobody_text() -> Seq<u8> {
    seq![72u8, 101, 108, 108, 111, 44, 32, 77, 114, 46, 32, 78, 111, 98, 111, 100, 121, 63]
}

pub open spec fn nap_text() -> Seq<u8> {
    seq![78u8, 97, 112, 32, 67, 111, 109, 112, 108, 101, 116, 101, 100]
}

pub open spec fn naps_suffix_text() -> Seq<u8> {
    seq![32u8, 78, 97, 112, 115, 32, 67, 111, 109, 112, 108, 101, 116, 101, 100]
}

pub open spec fn hello_word() -> Seq<u8> { seq![104u8, 101, 108, 108, 111] }
pub open spec fn sleep_word() -> Seq<u8> { seq![115u8, 108, 101, 101, 112] }
pub open spec fn compute_word() -> Seq<u8> { seq![99u8, 111, 109, 112, 117, 116, 101] }
pub open spec fn dup_word() -> Seq<u8> { seq![100u8, 117, 112] }
pub open spec fn template_word() -> Seq<u8> { seq![116u8, 101, 109, 112, 108, 97, 116, 101] }

/// The greeting of the `hello` route for the two segments after it:
/// `"Hello, <first> <last>!"` when both are there and non-empty,
/// `"Hello, <first>!"` when only the first is, `"Hello, Mr. Nobody?"`
/// otherwise.
pub open spec fn greeting(first: Option<Seq<u8>>, last: Option<Seq<u8>>) -> Seq<u8> {
    if first is Some && first->0.len() > 0 && last is Some && last->0.len() > 0 {
        hello_prefix_text() + first->0 + seq![32u8] + last->0 + seq![33u8]
    } else if first is Some && first->0.len() > 0 {
        hello_prefix_text() + first->0 + seq![33u8]
    } else {
        nobody_text()
    }
}

/// A segment, if present, parsed as an unsigned number of maximum `max`:
/// `None` when absent, `Some(None)` when it does not parse.
pub open spec fn parsed(seg: Option<Seq<u8>>, max: int) -> Option<Option<int>> {
    match seg {
        Some(s) => Some(parse_unsigned(s, max)),
        None => None,
    }
}

pub open spec fn empty_reply(status: u16) -> RouteView {
    RouteView::Reply(ReplyView { status, body: Seq::empty() })
}

/// Where the server sends a request with this method and path. The path
/// is split on `'/'` and its first segment, empty for a path that starts
/// with `'/'`, is skipped; the next one picks the route: `GET` of ``,
/// `hello`, `sleep`, `compute` or `template`, or `POST` of `dup`. Every
/// other request is not found.
pub open spec fn route_of(method: RocMethod, path: Seq<u8>) -> RouteView {
    let base = segment(path, 1);
    let second = segment(path, 2);
    let third = segment(path, 3);
    if method == RocMethod::Get && base == Some(Seq::<u8>::empty()) {
        RouteView::Reply(ReplyView { status: STATUS_OK, body: hello_world_text() })
    } else if method == RocMethod::Get && base == Some(hello_word()) {
        RouteView::Reply(ReplyView { status: STATUS_OK, body: greeting(second, third) })
    } else if method == RocMethod::Get && base == Some(sleep_word()) {
        match (parsed(second, u64::MAX as int), parsed(third, u64::MAX as int)) {
            (Some(Some(d)), Some(Some(r))) => RouteView::Sleep {
                delay_ms: d as u64,
                reps: Some(r as u64),
                naps: r as u64,
            },
            (Some(Some(d)), None) => RouteView::Sleep { delay_ms: d as u64, reps: None, naps: 1 },
            _ => empty_reply(STATUS_BAD_REQUEST),
        }
    } else if method == RocMethod::Get && base == Some(compute_word()) {
        match parsed(second, u64::MAX as int) {
            Some(Some(n)) => RouteView::Compute { n: n as u64 },
            _ => empty_reply(STATUS_BAD_REQUEST),
        }
    } else if method == RocMethod::Get && base == Some(template_word()) {
        RouteView::Reply(ReplyView { status: STATUS_OK, body: home_page(roc_talk_list()) })
    } else if method == RocMethod::Post && base == Some(dup_word()) {
        match parsed(second, usize::MAX as int) {
            Some(Some(n)) => RouteView::Dup { times: Some(n as usize) },
            _ => RouteView::Dup { times: None },
        }
    } else {
        empty_reply(STATUS_NOT_FOUND)
    }
}

/// The byte string an optional segment holds.
pub open spec fn seg_view(s: Option<&[u8]>) -> Option<Seq<u8>> {
    match s {
        Some(x) => Some(x@),
        None => None,
    }
}

fn segment_at(segs: &Vec<Vec<u8>>, k: usize) -> (s: Option<&[u8]>)
    ensures
        seg_view(s) == (if k < segs@.len() { Some(views(segs@)[k as int]) } else { None::<Seq<u8>> }),
{
    if k < segs.len() {
        Some(segs[k].as_slice())
    } else {
        None
    }
}

fn parse_segment_u64(seg: Option<&[u8]>) -> (r: Option<Option<u64>>)
    ensures
        match (r, parsed(seg_view(seg), u64::MAX as int)) {
            (Some(Some(v)), Some(Some(w))) => v == w,
            (Some(None), Some(None)) => true,
            (None, None) => true,
            _ => false,
        },
{
    match seg {
        Some(x) => Some(parse_u64(x)),
        None => None,
    }
}

/// Builds the greeting of the `hello` route.
fn greeting_text(first: Option<&[u8]>, last: Option<&[u8]>) -> (t: Vec<u8>)
    ensures
        t@ == greeting(seg_view(first), seg_view(last)),
{
    let prefix: [u8; 7] = [72, 101, 108, 108, 111, 44, 32];
    assert(prefix@ =~= hello_prefix_text());
    match (first, last) {
        (Some(f), Some(l)) if f.len() > 0 && l.len() > 0 => {
            let mut t: Vec<u8> = Vec::new();
            append_bytes(&mut t, prefix.as_slice());
            append_bytes(&mut t, f);
            t.push(32);
            append_bytes(&mut t, l);
            t.push(33);
            assert(t@ =~= hello_prefix_text() + f@ + seq![32u8] + l@ + seq![33u8]);
            t
        },
        (Some(f), _) if f.len() > 0 => {
            let mut t: Vec<u8> = Vec::new();
            append_bytes(&mut t, prefix.as_slice());
            append_bytes(&mut t, f);
            t.push(33);
            assert(t@ =~= hello_prefix_text() + f@ + seq![33u8]);
            t
        },
        _ => {
            let nobody: [u8; 18] = [72, 101, 108, 108, 111, 44, 32, 77, 114, 46, 32, 78, 111, 98, 111, 100, 121, 63];
            let mut t: Vec<u8> = Vec::new();
            append_bytes(&mut t, nobody.as_slice());
            assert(t@ =~= nobody_text());
            t
        },
    }
}

fn text_reply(text: &[u8]) -> (r: Reply)
    ensures
        r@ == (ReplyView { status: STATUS_OK, body: text@ }),
{
    let mut body: Vec<u8> = Vec::new();
    append_bytes(&mut body, text);
    assert(body@ =~= text@);
    Reply { status: STATUS_OK, body }
}

fn empty_reply_with(status: u16) -> (r: Route)
    ensures
        r@ == empty_reply(status),
{
    let body: Vec<u8> = Vec::new();
    assert(body@ =~= Seq::<u8>::empty());
    Route::Reply(Reply { status, body })
}

/// Decides what the server does with a request: the method and the raw
/// path of the request go in, the route comes out.
pub fn route(method: RocMethod, path: &[u8]) -> (r: Route)
    ensures
        r@ == route_of(method, path@),
{
    let segs = split_path(path);
    let base = segment_at(&segs, 1);
    let second = segment_at(&segs, 2);
    let third = segment_at(&segs, 3);
    let hello: [u8; 5] = [104, 101, 108, 108, 111];
    let sleep: [u8; 5] = [115, 108, 101, 101, 112];
    let compute: [u8; 7] = [99, 111, 109, 112, 117, 116, 101];
    let dup: [u8; 3] = [100, 117, 112];
    let template: [u8; 8] = [116, 101, 109, 112, 108, 97, 116, 101];
    assert(template@ =~= template_word());
    assert(hello@ =~= hello_word());
    assert(sleep@ =~= sleep_word());
    assert(compute@ =~= compute_word());
    assert(dup@ =~= dup_word());
    let empty: [u8; 0] = [];
    assert(empty@ =~= Seq::<u8>::empty());
    let base_is = |word: &[u8]| -> (b: bool)
        ensures
            b == (seg_view(base) == Some(word@)),
        {
            match base {
                Some(x) => bytes_equal(x, word),
                None => false,
            }
        };
    let is_get = method == RocMethod::Get;
    let is_post = method == RocMethod::Post;
    if is_get && base_is(empty.as_slice()) {
        let world: [u8; 13] = [72, 101, 108, 108, 111, 44, 32, 87, 111, 114, 108, 100, 33];
        assert(world@ =~= hello_world_text());
        Route::Reply(text_reply(world.as_slice()))
    } else if is_get && base_is(hello.as_slice()) {
        Route::Reply(Reply { status: STATUS_OK, body: greeting_text(second, third) })
    } else if is_get && base_is(sleep.as_slice()) {
        match (parse_segment_u64(second), parse_segment_u64(third)) {
            (Some(Some(d)), Some(Some(reps))) => Route::Sleep {
                delay_ms: d,
                reps: Some(reps),
                naps: reps,
            },
            (Some(Some(d)), None) => Route::Sleep { delay_ms: d, reps: None, naps: 1 },
            _ => empty_reply_with(STATUS_BAD_REQUEST),
        }
    } else if is_get && base_is(compute.as_slice()) {
        match parse_segment_u64(second) {
            Some(Some(n)) => Route::Compute { n },
            _ => empty_reply_with(STATUS_BAD_REQUEST),
        }
    } else if is_get && base_is(template.as_slice()) {
        let talks = roc_talks();
        Route::Reply(Reply { status: STATUS_OK, body: render_home_page(&talks) })
    } else if is_post && base_is(dup.as_slice()) {
        match second {
            Some(x) => Route::Dup { times: parse_usize(x) },
            None => Route::Dup { times: None },
        }
    } else {
        empty_reply_with(STATUS_NOT_FOUND)
    }
}

/// The body after sleeping: `"<reps> Naps Completed"` after `reps`
/// naps, `"Nap Completed"` after the single one.
pub open spec fn naps_text(reps: Option<u64>) -> Seq<u8> {
    match reps {
        Some(r) => decimal(r as nat) + naps_suffix_text(),
        None => nap_text(),
    }
}

/// The answer of the `sleep` route once the naps are over.
pub fn naps_reply(reps: Option<u64>) -> (r: Reply)
    ensures
        r@ == (ReplyView { status: STATUS_OK, body: naps_text(reps) }),
{
    match reps {
        Some(n) => {
            let mut body = format_u64(n);
            let suffix: [u8; 15] = [32, 78, 97, 112, 115, 32, 67, 111, 109, 112, 108, 101, 116, 101, 100];
            assert(suffix@ =~= naps_suffix_text());
            append_bytes(&mut body, suffix.as_slice());
            Reply { status: STATUS_OK, body }
        },
        None => {
            let nap: [u8; 13] = [78, 97, 112, 32, 67, 111, 109, 112, 108, 101, 116, 101, 100];
            assert(nap@ =~= nap_text());
            text_reply(nap.as_slice())
        },
    }
}

/// The Fibonacci numbers as the server counts them: the 0th and the 1st
/// are both 1, every later one is the sum of the two before it.
pub open spec fn fib(n: nat) -> nat
    decreases n,
{
    if n <= 1 {
        1
    } else {
        fib((n - 1) as nat) + fib((n - 2) as nat)
    }
}

/// The Fibonacci numbers never decrease.
pub proof fn lemma_fib_monotonic(i: nat, j: nat)
    requires
        i <= j,
    ensures
        fib(i) <= fib(j),
    decreases j - i,
{
    if i < j {
        lemma_fib_monotonic(i, (j - 1) as nat);
    }
}

/// The `n`th Fibonacci number, computed by the naive double recursion on
/// purpose: the route exists to spend CPU time.
pub fn fibonacci(n: u64) -> (f: u64)
    requires
        fib(n as nat) <= u64::MAX,
    ensures
        f == fib(n as nat),
    decreases n,
{
    match n {
        0 => 1,
        1 => 1,
        _ => fibonacci(n - 1) + fibonacci(n - 2),
    }
}

/// Whether the `n`th Fibonacci number fits in a `u64`, found with a
/// linear number of checked additions.
pub fn fibonacci_fits(n: u64) -> (fits: bool)
    ensures
        fits == (fib(n as nat) <= u64::MAX),
{
    if n <= 1 {
        return true;
    }
    let mut prev: u64 = 1;
    let mut cur: u64 = 1;
    let mut i: u64 = 1;
    while i < n
        invariant
            1 <= i <= n,
            prev == fib((i - 1) as nat),
            cur == fib(i as nat),
        decreases n - i,
    {
        match cur.checked_add(prev) {
            Some(next) => {
                prev = cur;
                cur = next;
                i = i + 1;
            },
            None => {
                proof {
                    lemma_fib_monotonic((i + 1) as nat, n as nat);
                }
                return false;
            },
        }
    }
    true
}

/// The answer of the `compute` route: the `n`th Fibonacci number in
/// decimal.
pub fn compute_reply(n: u64) -> (r: Reply)
    requires
        fib(n as nat) <= u64::MAX,
    ensures
        r@ == (ReplyView { status: STATUS_OK, body: decimal(fib(n as nat)) }),
        r.status == 200,
        parse_unsigned(r.body@, u64::MAX as int) == Some(fib(n as nat) as int),
{
    proof {
        lemma_format_then_parse(fib(n as nat) as u64);
    }
    let f = fibonacci(n);
    Reply { status: STATUS_OK, body: format_u64(f) }
}

/// The answer of the `dup` route once the body has been read (`None` when
/// reading it failed): the body `times` times over, or a bad request when
/// either the count or the body is missing.
pub open spec fn dup_reply_of(times: Option<usize>, body: Option<Seq<u8>>) -> ReplyView {
    match (times, body) {
        (Some(n), Some(b)) => ReplyView { status: STATUS_OK, body: repeated(b, n as nat) },
        _ => ReplyView { status: STATUS_BAD_REQUEST, body: Seq::empty() },
    }
}

/// Builds the answer of the `dup` route.
pub fn dup_reply(times: Option<usize>, body: Option<&[u8]>) -> (r: Reply)
    requires
        times is Some && body is Some ==> times->0 * body->0@.len() <= usize::MAX,
    ensures
        r@ == dup_reply_of(times, seg_view(body)),
        times is Some && body is Some ==> r.status == 200 && r.body@.len() == times->0
            * body->0@.len() && forall|k: int|
            0 <= k < r.body@.len() ==> r.body@[k] == body->0@[k % body->0@.len() as int],
        !(times is Some && body is Some) ==> r.status == 400 && r.body@.len() == 0,
{
    proof {
        if times is Some && body is Some {
            lemma_dup_answers(times->0, body->0@);
        }
    }
    match (times, body) {
        (Some(n), Some(b)) => Reply { status: STATUS_OK, body: repeat_bytes(b, n) },
        _ => {
            let body: Vec<u8> = Vec::new();
            assert(body@ =~= Seq::<u8>::empty());
            Reply { status: STATUS_BAD_REQUEST, body }
        },
    }
}

/// The `dup` route answers a count `n` and a body `b` with 200 and `b`
/// written `n` times over (so `n` times as many bytes, byte `k` being
/// byte `k % |b|` of `b`), `n` = 0 included; a missing count or body
/// gives 400 with an empty body.
pub proof fn lemma_dup_answers(n: usize, b: Seq<u8>)
    ensures
        dup_reply_of(Some(n), Some(b)).status == 200,
        dup_reply_of(Some(n), Some(b)).body.len() == n * b.len(),
        forall|k: int|
            0 <= k < n * b.len() ==> #[trigger] dup_reply_of(Some(n), Some(b)).body[k] == b[k
                % b.len() as int],
        dup_reply_of(None, Some(b)).status == 400,
        dup_reply_of(None, Some(b)).body.len() == 0,
        dup_reply_of(Some(n), None).status == 400,
        dup_reply_of(Some(n), None).body.len() == 0,
{
    lemma_repeated_len(b, n as nat);
    assert forall|k: int| 0 <= k < n * b.len() implies #[trigger] dup_reply_of(
        Some(n),
        Some(b),
    ).body[k] == b[k % b.len() as int] by {
        lemma_repeated_index(b, n as nat, k);
    }
}

/// After the naps, the body is the repeat count in decimal, which reads
/// back as that count, followed by `" Naps Completed"`; after the single
/// nap it is `"Nap Completed"`.
pub proof fn lemma_naps_body(r: u64)
    ensures
        naps_text(Some(r)).len() > 15,
        naps_text(Some(r)).subrange(naps_text(Some(r)).len() - 15, naps_text(Some(r)).len() as int)
            == seq![32u8, 78, 97, 112, 115, 32, 67, 111, 109, 112, 108, 101, 116, 101, 100],
        parse_unsigned(naps_text(Some(r)).take(naps_text(Some(r)).len() - 15), u64::MAX as int)
            == Some(r as int),
        naps_text(None) == seq![78u8, 97, 112, 32, 67, 111, 109, 112, 108, 101, 116, 101, 100],
{
    lemma_format_then_parse(r);
    let t = naps_text(Some(r));
    let d = decimal(r as nat);
    assert(t.take(t.len() - 15) =~= d);
    assert(t.subrange(t.len() - 15, t.len() as int) =~= naps_suffix_text());
}

/// `GET /hello/<first>/<last>` with non-empty names greets both, with one
/// name (or an empty last one) greets that one. Names hold no `'/'`.
pub proof fn lemma_hello_names(first: Seq<u8>, last: Seq<u8>)
    requires
        no_slash(first),
        no_slash(last),
        first.len() > 0,
    ensures
        last.len() > 0 ==> route_of(
            RocMethod::Get,
            seq![47u8, 104, 101, 108, 108, 111, 47] + first + seq![47u8] + last,
        ) == RouteView::Reply(
            ReplyView {
                status: 200,
                body: seq![72u8, 101, 108, 108, 111, 44, 32] + first + seq![32u8] + last + seq![
                    33u8,
                ],
            },
        ),
        route_of(RocMethod::Get, seq![47u8, 104, 101, 108, 108, 111, 47] + first)
            == RouteView::Reply(
            ReplyView { status: 200, body: seq![72u8, 101, 108, 108, 111, 44, 32] + first + seq![33u8] },
        ),
        route_of(RocMethod::Get, seq![47u8, 104, 101, 108, 108, 111, 47] + first + seq![47u8])
            == RouteView::Reply(
            ReplyView { status: 200, body: seq![72u8, 101, 108, 108, 111, 44, 32] + first + seq![33u8] },
        ),
{
    let e = Seq::<u8>::empty();
    let h = hello_word();
    assert(no_slash(h));
    assert(no_slash(e));
    lemma_split_of_parts(h, first, last);
    lemma_split_of_parts(h, first, e);
    assert(seq![47u8, 104, 101, 108, 108, 111, 47] + first + seq![47u8] + last =~= seq![SLASH] + h
        + seq![SLASH] + first + seq![SLASH] + last);
    assert(seq![47u8, 104, 101, 108, 108, 111, 47] + first =~= seq![SLASH] + h + seq![SLASH]
        + first);
    assert(seq![47u8, 104, 101, 108, 108, 111, 47] + first + seq![47u8] =~= seq![SLASH] + h
        + seq![SLASH] + first + seq![SLASH] + e);
    assert(h != e) by {
        assert(h.len() != e.len());
    }
    assert(seq![SLASH] + h + seq![SLASH] + first + seq![SLASH] + e == seq![SLASH] + h + seq![SLASH]
        + first + seq![SLASH] + e);
}

/// `GET /hello` and `GET /hello//<last>` (no first name) answer
/// `"Hello, Mr. Nobody?"`.
pub proof fn lemma_hello_nobody(last: Seq<u8>)
    requires
        no_slash(last),
    ensures
        route_of(RocMethod::Get, seq![47u8, 104, 101, 108, 108, 111]) == RouteView::Reply(
            ReplyView {
                status: 200,
                body: seq![72u8, 101, 108, 108, 111, 44, 32, 77, 114, 46, 32, 78, 111, 98, 111, 100, 121, 63],
            },
        ),
        route_of(RocMethod::Get, seq![47u8, 104, 101, 108, 108, 111, 47, 47] + last)
            == RouteView::Reply(
            ReplyView {
                status: 200,
                body: seq![72u8, 101, 108, 108, 111, 44, 32, 77, 114, 46, 32, 78, 111, 98, 111, 100, 121, 63],
            },
        ),
{
    let e = Seq::<u8>::empty();
    let h = hello_word();
    assert(no_slash(h));
    assert(no_slash(e));
    lemma_split_of_parts(h, e, last);
    assert(seq![47u8, 104, 101, 108, 108, 111] =~= seq![SLASH] + h);
    assert(seq![47u8, 104, 101, 108, 108, 111, 47, 47] + last =~= seq![SLASH] + h + seq![SLASH] + e
        + seq![SLASH] + last);
    assert(h != e) by {
        assert(h.len() != e.len());
    }
}

/// `POST /dup/<count>` carries the count exactly when the text after `dup`
/// parses as a `usize`; `POST /dup` and `POST /dup/` carry none, so their
/// answer is a bad request.
pub proof fn lemma_dup_count(count: Seq<u8>)
    requires
        no_slash(count),
    ensures
        route_of(RocMethod::Post, seq![47u8, 100, 117, 112, 47] + count) is Dup,
        (route_of(RocMethod::Post, seq![47u8, 100, 117, 112, 47] + count)->times is Some)
            <==> (parse_unsigned(count, usize::MAX as int) is Some),
        parse_unsigned(count, usize::MAX as int) matches Some(n) ==> (route_of(
            RocMethod::Post,
            seq![47u8, 100, 117, 112, 47] + count,
        )->times == Some(n as usize)),
        route_of(RocMethod::Post, seq![47u8, 100, 117, 112]) == (RouteView::Dup { times: None }),
        route_of(RocMethod::Post, seq![47u8, 100, 117, 112, 47]) == (RouteView::Dup {
            times: None,
        }),
{
    let e = Seq::<u8>::empty();
    let d = dup_word();
    assert(no_slash(d));
    assert(no_slash(e));
    lemma_split_of_parts(d, count, e);
    lemma_split_of_parts(d, e, e);
    assert(seq![47u8, 100, 117, 112, 47] + count =~= seq![SLASH] + d + seq![SLASH] + count);
    assert(seq![47u8, 100, 117, 112] =~= seq![SLASH] + d);
    assert(seq![47u8, 100, 117, 112, 47] =~= seq![SLASH] + d + seq![SLASH] + e);
    assert(parse_unsigned(e, usize::MAX as int) is None);
}

/// `GET` of a path whose route segment is empty (`/`) says hello to the
/// world.
pub proof fn lemma_root_route(path: Seq<u8>)
    requires
        segment(path, 1) == Some(Seq::<u8>::empty()),
    ensures
        route_of(RocMethod::Get, path) == RouteView::Reply(
            ReplyView {
                status: 200,
                body: seq![72u8, 101, 108, 108, 111, 44, 32, 87, 111, 114, 108, 100, 33],
            },
        ),
{
}

/// Methods other than `GET` and `POST` are never routed; a `POST` is
/// routed only to `dup`.
pub proof fn lemma_not_found(method: RocMethod, path: Seq<u8>)
    ensures
        method != RocMethod::Get && method != RocMethod::Post ==> route_of(method, path)
            == RouteView::Reply(ReplyView { status: 404, body: Seq::<u8>::empty() }),
        method == RocMethod::Post && segment(path, 1) != Some(seq![100u8, 117, 112])
            ==> route_of(method, path) == RouteView::Reply(
            ReplyView { status: 404, body: Seq::<u8>::empty() },
        ),
{
    assert(dup_word() =~= seq![100u8, 117, 112]);
}

/// `GET /sleep/<ms>` sleeps once for `ms`, `GET /sleep/<ms>/<n>` sleeps `n`
/// times; a delay or count that does not parse as a `u64` is a bad
/// request.
pub proof fn lemma_sleep_route(delay: Seq<u8>, reps: Seq<u8>)
    requires
        no_slash(delay),
        no_slash(reps),
    ensures
        parse_unsigned(delay, u64::MAX as int) is Some ==> route_of(
            RocMethod::Get,
            seq![47u8, 115, 108, 101, 101, 112, 47] + delay,
        ) == (RouteView::Sleep {
            delay_ms: parse_unsigned(delay, u64::MAX as int)->0 as u64,
            reps: None,
            naps: 1,
        }),
        parse_unsigned(delay, u64::MAX as int) is Some && parse_unsigned(reps, u64::MAX as int) is Some
            ==> route_of(
            RocMethod::Get,
            seq![47u8, 115, 108, 101, 101, 112, 47] + delay + seq![47u8] + reps,
        ) == (RouteView::Sleep {
            delay_ms: parse_unsigned(delay, u64::MAX as int)->0 as u64,
            reps: Some(parse_unsigned(reps, u64::MAX as int)->0 as u64),
            naps: parse_unsigned(reps, u64::MAX as int)->0 as u64,
        }),
        parse_unsigned(delay, u64::MAX as int) is None ==> route_of(
            RocMethod::Get,
            seq![47u8, 115, 108, 101, 101, 112, 47] + delay,
        ) == RouteView::Reply(ReplyView { status: 400, body: Seq::<u8>::empty() }),
        parse_unsigned(delay, u64::MAX as int) is None || parse_unsigned(reps, u64::MAX as int) is None
            ==> route_of(
            RocMethod::Get,
            seq![47u8, 115, 108, 101, 101, 112, 47] + delay + seq![47u8] + reps,
        ) == RouteView::Reply(ReplyView { status: 400, body: Seq::<u8>::empty() }),
{
    let w = sleep_word();
    assert(no_slash(w));
    lemma_split_of_parts(w, delay, reps);
    assert(seq![47u8, 115, 108, 101, 101, 112, 47] + delay =~= seq![SLASH] + w + seq![SLASH] + delay);
    assert(seq![47u8, 115, 108, 101, 101, 112, 47] + delay + seq![47u8] + reps =~= seq![SLASH] + w
        + seq![SLASH] + delay + seq![SLASH] + reps);
    assert(w != Seq::<u8>::empty()) by {
        assert(w.len() != 0);
    }
    assert(w != hello_word()) by {
        assert(w[0] != hello_word()[0]);
    }
}

/// `GET /compute/<n>` computes the `n`th Fibonacci number when `n` parses
/// as a `u64`, and is a bad request otherwise, as is `GET /compute`.
pub proof fn lemma_compute_route(n: Seq<u8>)
    requires
        no_slash(n),
    ensures
        parse_unsigned(n, u64::MAX as int) is Some ==> route_of(
            RocMethod::Get,
            seq![47u8, 99, 111, 109, 112, 117, 116, 101, 47] + n,
        ) == (RouteView::Compute { n: parse_unsigned(n, u64::MAX as int)->0 as u64 }),
        parse_unsigned(n, u64::MAX as int) is None ==> route_of(
            RocMethod::Get,
            seq![47u8, 99, 111, 109, 112, 117, 116, 101, 47] + n,
        ) == RouteView::Reply(ReplyView { status: 400, body: Seq::<u8>::empty() }),
        route_of(RocMethod::Get, seq![47u8, 99, 111, 109, 112, 117, 116, 101]) == RouteView::Reply(
            ReplyView { status: 400, body: Seq::<u8>::empty() },
        ),
{
    let w = compute_word();
    let e = Seq::<u8>::empty();
    assert(no_slash(w));
    assert(no_slash(e));
    lemma_split_of_parts(w, n, e);
    assert(seq![47u8, 99, 111, 109, 112, 117, 116, 101, 47] + n =~= seq![SLASH] + w + seq![SLASH]
        + n);
    assert(seq![47u8, 99, 111, 109, 112, 117, 116, 101] =~= seq![SLASH] + w);
    assert(w != e) by {
        assert(w.len() != 0);
    }
    assert(w != hello_word()) by {
        assert(w[0] != hello_word()[0]);
    }
    assert(w != sleep_word()) by {
        assert(w[0] != sleep_word()[0]);
    }
}

/// `GET` of a path whose route segment is `template` answers with the home
/// page listing the Roc talks.
pub proof fn lemma_template_route(path: Seq<u8>)
    requires
        segment(path, 1) == Some(seq![116u8, 101, 109, 112, 108, 97, 116, 101]),
    ensures
        route_of(RocMethod::Get, path) == RouteView::Reply(
            ReplyView { status: 200, body: home_page(roc_talk_list()) },
        ),
{
    let w = template_word();
    assert(w =~= seq![116u8, 101, 109, 112, 108, 97, 116, 101]);
    assert(w != Seq::<u8>::empty()) by {
        assert(w.len() != 0);
    }
    assert(w != hello_word()) by {
        assert(w[0] != hello_word()[0]);
    }
    assert(w != sleep_word()) by {
        assert(w[0] != sleep_word()[0]);
    }
    assert(w != compute_word()) by {
        assert(w[0] != compute_word()[0]);
    }
}

/// The Fibonacci numbers start 1, 1 and each later one is the sum of the
/// two before it.
pub proof fn lemma_fib_recurrence(n: nat)
    ensures
        fib(0) == 1,
        fib(1) == 1,
        fib(n + 2) == fib(n + 1) + fib(n),
{
}

} // verus!
