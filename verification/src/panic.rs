//! What the host does when Roc panics.

use vstd::prelude::*;
use vstd::utf8::valid_utf8;
use crate::bytes::append_bytes;
use crate::utf8::is_valid_utf8;

verus! {

/// The only panic kind Roc reports so far: a message.
pub const PANIC_WITH_MESSAGE: u32 = 0;

/// The exit code of the process after a Roc panic.
pub const PANIC_EXIT_CODE: i32 = 1;

/// How the host reacts to a Roc panic.
pub enum PanicDisposition {
    /// Report `report` and exit the process with `code`.
    Exit { code: i32, report: Vec<u8> },
    /// A message panic whose message is not UTF-8: the host cannot read
    /// it as text.
    InvalidMessage,
    /// A panic kind the host does not handle yet.
    Unsupported,
}

pub open spec fn panic_prefix() -> Seq<u8> {
    seq![82u8, 111, 99, 32, 104, 105, 116, 32, 97, 32, 112, 97, 110, 105, 99, 58, 32]
}

/// Decides how to react to a Roc panic of kind `tag_id` whose message has
/// the bytes `message`: a message panic whose message is UTF-8 is reported
/// as `"Roc hit a panic: <message>"` with exit code 1, one whose message is
/// not UTF-8 is rejected, and any other kind is not supported.
pub fn panic_disposition(tag_id: u32, message: &[u8]) -> (d: PanicDisposition)
    ensures
        tag_id == PANIC_WITH_MESSAGE && valid_utf8(message@) ==> (d matches PanicDisposition::Exit {
            code,
            report,
        } && code == PANIC_EXIT_CODE && report@ == panic_prefix() + message@),
        tag_id == 0 && valid_utf8(message@) ==> (d matches PanicDisposition::Exit { code, report }
            && code == 1 && report@ == seq![82u8, 111, 99, 32, 104, 105, 116, 32, 97, 32, 112, 97, 110, 105, 99, 58, 32] + message@),
        tag_id == PANIC_WITH_MESSAGE && !valid_utf8(message@) ==> d is InvalidMessage,
        tag_id != PANIC_WITH_MESSAGE ==> d is Unsupported,
{
    if tag_id == PANIC_WITH_MESSAGE && !is_valid_utf8(message) {
        PanicDisposition::InvalidMessage
    } else if tag_id == PANIC_WITH_MESSAGE {
        let prefix: [u8; 17] = [82, 111, 99, 32, 104, 105, 116, 32, 97, 32, 112, 97, 110, 105, 99, 58, 32];
        assert(prefix@ =~= panic_prefix());
        let mut report: Vec<u8> = Vec::new();
        append_bytes(&mut report, prefix.as_slice());
        append_bytes(&mut report, message);
        PanicDisposition::Exit { code: PANIC_EXIT_CODE, report }
    } else {
        PanicDisposition::Unsupported
    }
}

} // verus!
