//! The HTTP request method as Roc sees it.

use vstd::prelude::*;
use crate::bytes::bytes_equal;

verus! {

/// The request methods a Roc application can tell apart; every method
/// that is not one of the standard ones is `Other`.
#[derive(Clone, Copy, Debug, PartialEq, Eq, Structural)]
pub enum RocMethod {
    Connect,
    Delete,
    Get,
    Head,
    Options,
    Other,
    Patch,
    Post,
    Put,
    Trace,
}

pub open spec fn connect_name() -> Seq<u8> { seq![67u8, 79, 78, 78, 69, 67, 84] }
pub open spec fn delete_name() -> Seq<u8> { seq![68u8, 69, 76, 69, 84, 69] }
pub open spec fn get_name() -> Seq<u8> { seq![71u8, 69, 84] }
pub open spec fn head_name() -> Seq<u8> { seq![72u8, 69, 65, 68] }
pub open spec fn options_name() -> Seq<u8> { seq![79u8, 80, 84, 73, 79, 78, 83] }
pub open spec fn patch_name() -> Seq<u8> { seq![80u8, 65, 84, 67, 72] }
pub open spec fn post_name() -> Seq<u8> { seq![80u8, 79, 83, 84] }
pub open spec fn put_name() -> Seq<u8> { seq![80u8, 85, 84] }
pub open spec fn trace_name() -> Seq<u8> { seq![84u8, 82, 65, 67, 69] }

/// The Roc method of a request method, given by its name as HTTP spells it
/// (case matters: `"GET"` is `Get`, `"get"` is `Other`).
pub open spec fn method_named(name: Seq<u8>) -> RocMethod {
    if name == connect_name() {
        RocMethod::Connect
    } else if name == delete_name() {
        RocMethod::Delete
    } else if name == get_name() {
        RocMethod::Get
    } else if name == head_name() {
        RocMethod::Head
    } else if name == options_name() {
        RocMethod::Options
    } else if name == patch_name() {
        RocMethod::Patch
    } else if name == post_name() {
        RocMethod::Post
    } else if name == put_name() {
        RocMethod::Put
    } else if name == trace_name() {
        RocMethod::Trace
    } else {
        RocMethod::Other
    }
}

impl RocMethod {
    /// The Roc method for the request method named `name`.
    pub fn from_name(name: &[u8]) -> (m: RocMethod)
        ensures
            m == method_named(name@),
    {
        let connect: [u8; 7] = [67, 79, 78, 78, 69, 67, 84];
        let delete: [u8; 6] = [68, 69, 76, 69, 84, 69];
        let get: [u8; 3] = [71, 69, 84];
        let head: [u8; 4] = [72, 69, 65, 68];
        let options: [u8; 7] = [79, 80, 84, 73, 79, 78, 83];
        let patch: [u8; 5] = [80, 65, 84, 67, 72];
        let post: [u8; 4] = [80, 79, 83, 84];
        let put: [u8; 3] = [80, 85, 84];
        let trace: [u8; 5] = [84, 82, 65, 67, 69];
        assert(connect@ =~= connect_name());
        assert(delete@ =~= delete_name());
        assert(get@ =~= get_name());
        assert(head@ =~= head_name());
        assert(options@ =~= options_name());
        assert(patch@ =~= patch_name());
        assert(post@ =~= post_name());
        assert(put@ =~= put_name());
        assert(trace@ =~= trace_name());
        if bytes_equal(name, connect.as_slice()) {
            RocMethod::Connect
        } else if bytes_equal(name, delete.as_slice()) {
            RocMethod::Delete
        } else if bytes_equal(name, get.as_slice()) {
            RocMethod::Get
        } else if bytes_equal(name, head.as_slice()) {
            RocMethod::Head
        } else if bytes_equal(name, options.as_slice()) {
            RocMethod::Options
        } else if bytes_equal(name, patch.as_slice()) {
            RocMethod::Patch
        } else if bytes_equal(name, post.as_slice()) {
            RocMethod::Post
        } else if bytes_equal(name, put.as_slice()) {
            RocMethod::Put
        } else if bytes_equal(name, trace.as_slice()) {
            RocMethod::Trace
        } else {
            RocMethod::Other
        }
    }
}

/// The nine standard request methods are told apart by their exact names,
/// in capitals; every other name, `"get"` included, is `Other`.
pub proof fn lemma_method_names(name: Seq<u8>)
    ensures
        method_named(seq![67u8, 79, 78, 78, 69, 67, 84]) == RocMethod::Connect,
        method_named(seq![68u8, 69, 76, 69, 84, 69]) == RocMethod::Delete,
        method_named(seq![71u8, 69, 84]) == RocMethod::Get,
        method_named(seq![72u8, 69, 65, 68]) == RocMethod::Head,
        method_named(seq![79u8, 80, 84, 73, 79, 78, 83]) == RocMethod::Options,
        method_named(seq![80u8, 65, 84, 67, 72]) == RocMethod::Patch,
        method_named(seq![80u8, 79, 83, 84]) == RocMethod::Post,
        method_named(seq![80u8, 85, 84]) == RocMethod::Put,
        method_named(seq![84u8, 82, 65, 67, 69]) == RocMethod::Trace,
        name != seq![67u8, 79, 78, 78, 69, 67, 84] && name != seq![68u8, 69, 76, 69, 84, 69]
            && name != seq![71u8, 69, 84] && name != seq![72u8, 69, 65, 68] && name != seq![
            79u8,
            80,
            84,
            73,
            79,
            78,
            83,
        ] && name != seq![80u8, 65, 84, 67, 72] && name != seq![80u8, 79, 83, 84] && name
            != seq![80u8, 85, 84] && name != seq![84u8, 82, 65, 67, 69] ==> method_named(name)
            == RocMethod::Other,
{
    let names = seq![
        connect_name(),
        delete_name(),
        get_name(),
        head_name(),
        options_name(),
        patch_name(),
        post_name(),
        put_name(),
        trace_name(),
    ];
    assert(forall|i: int, j: int|
        0 <= i < j < 9 ==> #[trigger] names[i] != #[trigger] names[j]) by {
        assert forall|i: int, j: int| 0 <= i < j < 9 implies #[trigger] names[i] != #[trigger] names[j] by {
            if names[i].len() == names[j].len() {
                if names[i][0] == names[j][0] {
                    assert(names[i][1] != names[j][1]);
                } else {
                    assert(names[i][0] != names[j][0]);
                }
            }
        }
    }
    assert(names[0] == connect_name());
    assert(names[1] == delete_name());
    assert(names[2] == get_name());
    assert(names[3] == head_name());
    assert(names[4] == options_name());
    assert(names[5] == patch_name());
    assert(names[6] == post_name());
    assert(names[7] == put_name());
    assert(names[8] == trace_name());
}

} // verus!
