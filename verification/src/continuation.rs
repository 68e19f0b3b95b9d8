//! The host side of the continuation protocols: after each call into Roc,
//! the tag of the returned pointer says what Roc asks of the host next.

use vstd::prelude::*;
use crate::routes::{Reply, ReplyView};
use crate::status::STATUS_INTERNAL_SERVER_ERROR;
use crate::tagged::{get_tag, tag_of};

verus! {

/// The two words of a boxed Rust trait object (data pointer and vtable
/// pointer), as the host and Roc pass a future between them.
#[derive(Clone, Copy, Debug)]
pub struct TraitObject {
    pub data: usize,
    pub vtable: usize,
}

// ---------------------------------------------------------------------------
// Numbers of two kinds: Roc asks for `f32` and `i32` values in any order.
// ---------------------------------------------------------------------------

/// The first `i32` the host hands to Roc.
pub const FIRST_I32: i32 = 10;

/// How much each later `i32` grows over the one before.
pub const I32_STEP: i32 = 2;

/// What the host does next in the mixed-number protocol.
#[derive(Clone, Copy, Debug, PartialEq, Eq, Structural)]
pub enum MixedAction {
    /// Tag 0: Roc is done; the result is behind the untagged pointer.
    Finish,
    /// Tag 1: Roc wants the next `f32`.
    SendF32,
    /// Tag 2: Roc wants an `i32`; this one.
    SendI32(i32),
    /// Any other tag: the continuation is invalid.
    Invalid,
}

pub open spec fn mixed_action(next: i32, tag: nat) -> MixedAction {
    if tag == 0 {
        MixedAction::Finish
    } else if tag == 1 {
        MixedAction::SendF32
    } else if tag == 2 {
        MixedAction::SendI32(next)
    } else {
        MixedAction::Invalid
    }
}

pub open spec fn mixed_next(next: i32, tag: nat) -> i32 {
    if tag == 2 {
        (next + I32_STEP) as i32
    } else {
        next
    }
}

/// The `i32` side of the mixed-number protocol: the values handed to Roc
/// count up from 10 by 2. (The `f32` side is the host's own.)
pub struct MixedFeeder {
    next: i32,
}

impl MixedFeeder {
    /// The `i32` the next `I32MoreCont` request receives.
    pub closed spec fn next_i32(&self) -> i32 {
        self.next
    }

    pub fn new() -> (f: Self)
        ensures
            f.next_i32() == FIRST_I32,
    {
        MixedFeeder { next: FIRST_I32 }
    }

    /// The `i32` the next `I32MoreCont` request receives.
    pub fn peek_i32(&self) -> (v: i32)
        ensures
            v == self.next_i32(),
    {
        self.next
    }

    /// Decides what to do with the continuation `cont_ptr` and, for an
    /// `i32` request, moves on to the next value.
    pub fn step(&mut self, cont_ptr: usize) -> (a: MixedAction)
        requires
            tag_of(cont_ptr) == 2 ==> old(self).next_i32() <= i32::MAX - I32_STEP,
        ensures
            a == mixed_action(old(self).next_i32(), tag_of(cont_ptr)),
            final(self).next_i32() == mixed_next(old(self).next_i32(), tag_of(cont_ptr)),
            tag_of(cont_ptr) == 0 ==> a == MixedAction::Finish && final(self).next_i32()
                == old(self).next_i32(),
            tag_of(cont_ptr) == 1 ==> a == MixedAction::SendF32 && final(self).next_i32()
                == old(self).next_i32(),
            tag_of(cont_ptr) == 2 ==> a == MixedAction::SendI32(old(self).next_i32())
                && final(self).next_i32() == old(self).next_i32() + 2,
            tag_of(cont_ptr) > 2 ==> a == MixedAction::Invalid && final(self).next_i32()
                == old(self).next_i32(),
    {
        match get_tag(cont_ptr) {
            0 => MixedAction::Finish,
            1 => MixedAction::SendF32,
            2 => {
                let v = self.next;
                self.next = v + I32_STEP;
                MixedAction::SendI32(v)
            },
            _ => MixedAction::Invalid,
        }
    }
}

/// The actions for a run of continuation tags, starting from `next`.
pub open spec fn mixed_run(next: i32, tags: Seq<nat>) -> Seq<MixedAction>
    decreases tags.len(),
{
    if tags.len() == 0 {
        Seq::empty()
    } else {
        seq![mixed_action(next, tags[0])] + mixed_run(mixed_next(next, tags[0]), tags.drop_first())
    }
}

/// How many of the tags are `tag`.
pub open spec fn count_tag(tags: Seq<nat>, tag: nat) -> nat
    decreases tags.len(),
{
    if tags.len() == 0 {
        0
    } else {
        (if tags[0] == tag { 1nat } else { 0nat }) + count_tag(tags.drop_first(), tag)
    }
}

/// While Roc keeps asking for numbers, the `k`th request for an `i32`
/// (counting from 0) receives `start + 2k`: with the host's start of 10,
/// the values are 10, 12, 14, … in the order Roc asks.
pub proof fn lemma_i32_values_count_up(start: i32, tags: Seq<nat>, j: int)
    requires
        forall|i: int| 0 <= i < tags.len() ==> tags[i] == 1 || tags[i] == 2,
        start + I32_STEP * count_tag(tags, 2) <= i32::MAX,
        0 <= j < tags.len(),
        tags[j] == 2,
    ensures
        mixed_run(start, tags).len() == tags.len(),
        mixed_run(start, tags)[j] == MixedAction::SendI32(
            (start + I32_STEP * count_tag(tags.take(j), 2)) as i32,
        ),
    decreases tags.len(),
{
    lemma_mixed_run_len(start, tags);
    let rest = tags.drop_first();
    let next = mixed_next(start, tags[0]);
    assert(count_tag(tags, 2) == (if tags[0] == 2 { 1nat } else { 0nat }) + count_tag(rest, 2));
    if j == 0 {
        assert(tags.take(0) =~= Seq::<nat>::empty());
    } else {
        assert(tags.take(j).drop_first() =~= rest.take(j - 1));
        assert(next == start + (if tags[0] == 2 { I32_STEP } else { 0 }));
        lemma_i32_values_count_up(next, rest, j - 1);
        assert(mixed_run(start, tags)[j] == mixed_run(next, rest)[j - 1]);
    }
}

proof fn lemma_mixed_run_len(start: i32, tags: Seq<nat>)
    ensures
        mixed_run(start, tags).len() == tags.len(),
    decreases tags.len(),
{
    if tags.len() > 0 {
        lemma_mixed_run_len(mixed_next(start, tags[0]), tags.drop_first());
    }
}

// ---------------------------------------------------------------------------
// Feeding a list of numbers: Roc asks for one more until it is done.
// ---------------------------------------------------------------------------

/// What the host does next in the data-feeding protocol.
#[derive(Clone, Copy, Debug, PartialEq, Eq, Structural)]
pub enum FeedAction {
    /// Tag 0: Roc is done; its output is behind the untagged pointer.
    Finish,
    /// Any other tag: Roc wants more data; this value.
    Send(i32),
    /// Roc wants more data than the host has.
    OutOfData,
}

/// One step of the data-feeding protocol at position `pos` of `data`:
/// the action and the position after it.
pub open spec fn feed_step(data: Seq<i32>, pos: nat, tag: nat) -> (FeedAction, nat) {
    if tag == 0 {
        (FeedAction::Finish, pos)
    } else if pos < data.len() {
        (FeedAction::Send(data[pos as int]), pos + 1)
    } else {
        (FeedAction::OutOfData, pos)
    }
}

/// The numbers the host feeds Roc: 21, 15, −9, 12, 32.
pub open spec fn feed_data() -> Seq<i32> {
    seq![21i32, 15i32, -9i32, 12i32, 32i32]
}

/// The numbers the host feeds Roc, in order.
pub fn default_feed_data() -> (data: Vec<i32>)
    ensures
        data@ == feed_data(),
{
    let data: Vec<i32> = vec![21, 15, -9, 12, 32];
    assert(data@ =~= feed_data());
    data
}

/// Hands the values of a list to Roc, one per request, in order.
pub struct DataFeeder {
    data: Vec<i32>,
    pos: usize,
}

impl DataFeeder {
    #[verifier::type_invariant]
    spec fn well_formed(&self) -> bool {
        self.pos <= self.data@.len()
    }

    /// The values the feeder hands out.
    pub closed spec fn data(&self) -> Seq<i32> {
        self.data@
    }

    /// How many values have been handed out.
    pub closed spec fn position(&self) -> nat {
        self.pos as nat
    }

    pub fn new(data: Vec<i32>) -> (f: Self)
        ensures
            f.data() == data@,
            f.position() == 0,
    {
        DataFeeder { data, pos: 0 }
    }

    /// Decides what to do with the continuation `cont_ptr`; a value that is
    /// handed out is not handed out again.
    pub fn step(&mut self, cont_ptr: usize) -> (a: FeedAction)
        ensures
            final(self).data() == old(self).data(),
            (a, final(self).position()) == feed_step(
                old(self).data(),
                old(self).position(),
                tag_of(cont_ptr),
            ),
            final(self).position() <= final(self).data().len(),
            tag_of(cont_ptr) == 0 ==> a == FeedAction::Finish && final(self).position()
                == old(self).position(),
            tag_of(cont_ptr) != 0 && old(self).position() < old(self).data().len() ==> a
                == FeedAction::Send(old(self).data()[old(self).position() as int])
                && final(self).position() == old(self).position() + 1,
            tag_of(cont_ptr) != 0 && old(self).position() >= old(self).data().len() ==> a
                == FeedAction::OutOfData && final(self).position() == old(self).position(),
    {
        proof {
            use_type_invariant(&*self);
        }
        if get_tag(cont_ptr) == 0 {
            FeedAction::Finish
        } else if self.pos < self.data.len() {
            let v = self.data[self.pos];
            self.pos = self.pos + 1;
            FeedAction::Send(v)
        } else {
            FeedAction::OutOfData
        }
    }
}

/// The actions for a run of continuation tags, starting at `pos`.
pub open spec fn feed_run(data: Seq<i32>, pos: nat, tags: Seq<nat>) -> Seq<FeedAction>
    decreases tags.len(),
{
    if tags.len() == 0 {
        Seq::empty()
    } else {
        let (a, next) = feed_step(data, pos, tags[0]);
        seq![a] + feed_run(data, next, tags.drop_first())
    }
}

/// A continuation with tag 0 means Roc is done: the host finishes,
/// whatever data is left, and hands out nothing more. In a run of tags,
/// the action for a 0 tag is always `Finish`.
pub proof fn lemma_done_tag_finishes(data: Seq<i32>, pos: nat, tags: Seq<nat>, j: int)
    requires
        0 <= j < tags.len(),
        tags[j] == 0,
    ensures
        feed_step(data, pos, 0) == (FeedAction::Finish, pos),
        feed_run(data, pos, tags).len() == tags.len(),
        feed_run(data, pos, tags)[j] == FeedAction::Finish,
    decreases tags.len(),
{
    lemma_feed_run_len(data, pos, tags);
    if j > 0 {
        let (a, next) = feed_step(data, pos, tags[0]);
        lemma_done_tag_finishes(data, next, tags.drop_first(), j - 1);
    }
}

proof fn lemma_feed_run_len(data: Seq<i32>, pos: nat, tags: Seq<nat>)
    ensures
        feed_run(data, pos, tags).len() == tags.len(),
    decreases tags.len(),
{
    if tags.len() > 0 {
        let (a, next) = feed_step(data, pos, tags[0]);
        lemma_feed_run_len(data, next, tags.drop_first());
    }
}

/// While Roc keeps asking for more, it receives the data in order, each
/// value once: the `j`th request gets `data[j]`, and every request past the
/// end of the data finds none left.
pub proof fn lemma_feed_in_order(data: Seq<i32>, tags: Seq<nat>, j: int)
    requires
        forall|i: int| 0 <= i < tags.len() ==> tags[i] != 0,
        0 <= j < tags.len(),
    ensures
        feed_run(data, 0, tags).len() == tags.len(),
        j < data.len() ==> feed_run(data, 0, tags)[j] == FeedAction::Send(data[j]),
        j >= data.len() ==> feed_run(data, 0, tags)[j] == FeedAction::OutOfData,
{
    lemma_feed_from(data, 0, tags, j);
}

proof fn lemma_feed_from(data: Seq<i32>, pos: nat, tags: Seq<nat>, j: int)
    requires
        forall|i: int| 0 <= i < tags.len() ==> tags[i] != 0,
        0 <= j < tags.len(),
    ensures
        feed_run(data, pos, tags).len() == tags.len(),
        pos + j < data.len() ==> feed_run(data, pos, tags)[j] == FeedAction::Send(data[pos + j]),
        pos + j >= data.len() ==> feed_run(data, pos, tags)[j] == FeedAction::OutOfData,
    decreases tags.len(),
{
    let (a, next) = feed_step(data, pos, tags[0]);
    let rest = tags.drop_first();
    if j == 0 {
        if rest.len() > 0 {
            lemma_feed_from(data, next, rest, 0);
        } else {
            assert(feed_run(data, next, rest) =~= Seq::<FeedAction>::empty());
        }
    } else {
        lemma_feed_from(data, next, rest, j - 1);
        if pos >= data.len() {
            assert(next == pos);
        }
    }
}

// ---------------------------------------------------------------------------
// Futures: Roc hands the host a future to await before it goes on.
// ---------------------------------------------------------------------------

/// What Roc asks of the host in the future protocol.
#[derive(Clone, Copy, Debug, PartialEq, Eq, Structural)]
pub enum FutureRequest {
    /// Tag 0: Roc is done; the result is behind the untagged pointer.
    Done,
    /// Tag 1: await the future at the untagged pointer and pass its value
    /// to the closure behind it.
    AwaitMore,
    /// Any other tag, which the host rejects.
    Invalid(u8),
}

pub open spec fn future_request(tag: nat) -> FutureRequest {
    if tag == 0 {
        FutureRequest::Done
    } else if tag == 1 {
        FutureRequest::AwaitMore
    } else {
        FutureRequest::Invalid(tag as u8)
    }
}

/// The tag of a pointer as a byte.
pub open spec fn get_tag_value(ptr: usize) -> u8 {
    (ptr % 8) as u8
}

/// Reads what Roc asks for from the continuation `cont_ptr`.
pub fn decode_future_request(cont_ptr: usize) -> (r: FutureRequest)
    ensures
        r == future_request(tag_of(cont_ptr)),
        tag_of(cont_ptr) == 0 <==> r == FutureRequest::Done,
        tag_of(cont_ptr) == 1 <==> r == FutureRequest::AwaitMore,
        tag_of(cont_ptr) > 1 <==> r == FutureRequest::Invalid(get_tag_value(cont_ptr)),
{
    match get_tag(cont_ptr) {
        0 => FutureRequest::Done,
        1 => FutureRequest::AwaitMore,
        x => FutureRequest::Invalid(x),
    }
}

/// The number of kinds of task the host starts, round robin.
pub const TASK_KINDS: u32 = 3;

/// The kind of the `task`th task: the kinds take turns.
pub fn task_kind(task: u32) -> (kind: u32)
    ensures
        kind == task % TASK_KINDS,
        kind < TASK_KINDS,
{
    task % TASK_KINDS
}

// ---------------------------------------------------------------------------
// Web requests: Roc asks for a database answer or the request body, or
// hands over the response.
// ---------------------------------------------------------------------------

/// What Roc asks of the host while it handles a web request.
#[derive(Clone, Copy, Debug, PartialEq, Eq, Structural)]
pub enum WebRequest {
    /// Tag 0: run a database query; its delay is behind the untagged
    /// pointer, its closure right after the request's payload.
    DbRequest,
    /// Tag 1: load the request body and pass it to the closure at the
    /// untagged pointer.
    LoadBody,
    /// Tag 2: the response is behind the untagged pointer.
    Respond,
    /// Any other tag: answer with [`invalid_request_reply`].
    Invalid,
}

pub open spec fn web_request(tag: nat) -> WebRequest {
    if tag == 0 {
        WebRequest::DbRequest
    } else if tag == 1 {
        WebRequest::LoadBody
    } else if tag == 2 {
        WebRequest::Respond
    } else {
        WebRequest::Invalid
    }
}

/// Reads what Roc asks for from the continuation `cont_ptr`.
pub fn decode_web_request(cont_ptr: usize) -> (r: WebRequest)
    ensures
        r == web_request(tag_of(cont_ptr)),
        tag_of(cont_ptr) == 0 <==> r == WebRequest::DbRequest,
        tag_of(cont_ptr) == 1 <==> r == WebRequest::LoadBody,
        tag_of(cont_ptr) == 2 <==> r == WebRequest::Respond,
        tag_of(cont_ptr) > 2 <==> r == WebRequest::Invalid,
{
    match get_tag(cont_ptr) {
        0 => WebRequest::DbRequest,
        1 => WebRequest::LoadBody,
        2 => WebRequest::Respond,
        _ => WebRequest::Invalid,
    }
}

/// The answer to a continuation with an invalid tag: an internal server
/// error with an empty body.
pub fn invalid_request_reply() -> (r: Reply)
    ensures
        r@ == (ReplyView { status: STATUS_INTERNAL_SERVER_ERROR, body: Seq::empty() }),
{
    let body: Vec<u8> = Vec::new();
    assert(body@ =~= Seq::<u8>::empty());
    Reply { status: STATUS_INTERNAL_SERVER_ERROR, body }
}

} // verus!
