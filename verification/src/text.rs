//! The fixed byte strings of the relay: frame fragments of the control
//! vocabulary and the texts of events and responses. Each text exists twice:
//! a spec constant giving its bytes, and an executable function that appends
//! those bytes to a buffer, proved to match the spec constant.

use vstd::prelude::*;

verus! {

/// Appends every byte of `src` to `out`, in order.
pub fn push_bytes(out: &mut Vec<u8>, src: &[u8])
    ensures
        final(out)@ == old(out)@ + src@,
{
    let n: usize = src.len();
    let mut i: usize = 0;
    while i < n
        invariant
            n == src@.len(),
            i <= n,
            out@ == old(out)@ + src@.subrange(0, i as int),
        decreases n - i,
    {
        let b: u8 = src[i];
        out.push(b);
        proof {
            assert(old(out)@ + src@.subrange(0, i as int + 1) =~= (old(out)@
                + src@.subrange(0, i as int)).push(src@[i as int]));
        }
        i = i + 1;
    }
    proof {
        assert(src@.subrange(0, n as int) =~= src@);
    }
}

/// The bytes of `{\"type\":\"`: opening of every control command frame.
pub open spec fn cmd_pre() -> Seq<u8> {
    seq![123u8, 34u8, 116u8, 121u8, 112u8, 101u8, 34u8, 58u8, 34u8]
}

/// The bytes of `connect\",\"host\":\"`: tag and host key of a connect command.
pub open spec fn connect_mid() -> Seq<u8> {
    seq![99u8, 111u8, 110u8, 110u8, 101u8, 99u8, 116u8, 34u8, 44u8, 34u8, 104u8, 111u8, 115u8, 116u8, 34u8, 58u8, 34u8]
}

/// The bytes of `,\"port\":`: port key of a connect command.
pub open spec fn port_key() -> Seq<u8> {
    seq![44u8, 34u8, 112u8, 111u8, 114u8, 116u8, 34u8, 58u8]
}

/// The bytes of `disconnect\"}`: tag and closing brace of a disconnect command.
pub open spec fn disconnect_tail() -> Seq<u8> {
    seq![100u8, 105u8, 115u8, 99u8, 111u8, 110u8, 110u8, 101u8, 99u8, 116u8, 34u8, 125u8]
}

/// The bytes of `{\"type\":\"connect\",\"ok\":`: opening of a connect-ack event frame.
pub open spec fn ev_connect_pre() -> Seq<u8> {
    seq![123u8, 34u8, 116u8, 121u8, 112u8, 101u8, 34u8, 58u8, 34u8, 99u8, 111u8, 110u8, 110u8, 101u8, 99u8, 116u8, 34u8, 44u8, 34u8, 111u8, 107u8, 34u8, 58u8]
}

/// Appends the bytes of [`ev_connect_pre`] to `out`.
pub fn push_ev_connect_pre(out: &mut Vec<u8>)
    ensures
        final(out)@ == old(out)@ + ev_connect_pre(),
{
    let a: [u8; 23] = [123, 34, 116, 121, 112, 101, 34, 58, 34, 99, 111, 110, 110, 101, 99, 116, 34, 44, 34, 111, 107, 34, 58];
    proof {
        assert(a@ =~= ev_connect_pre());
    }
    push_bytes(out, a.as_slice());
}

/// The bytes of `true`: JSON true.
pub open spec fn lit_true() -> Seq<u8> {
    seq![116u8, 114u8, 117u8, 101u8]
}

/// Appends the bytes of [`lit_true`] to `out`.
pub fn push_lit_true(out: &mut Vec<u8>)
    ensures
        final(out)@ == old(out)@ + lit_true(),
{
    let a: [u8; 4] = [116, 114, 117, 101];
    proof {
        assert(a@ =~= lit_true());
    }
    push_bytes(out, a.as_slice());
}

/// The bytes of `false`: JSON false.
pub open spec fn lit_false() -> Seq<u8> {
    seq![102u8, 97u8, 108u8, 115u8, 101u8]
}

/// Appends the bytes of [`lit_false`] to `out`.
pub fn push_lit_false(out: &mut Vec<u8>)
    ensures
        final(out)@ == old(out)@ + lit_false(),
{
    let a: [u8; 5] = [102, 97, 108, 115, 101];
    proof {
        assert(a@ =~= lit_false());
    }
    push_bytes(out, a.as_slice());
}

/// The bytes of `,\"error\":`: error key of a connect-ack event.
pub open spec fn error_key() -> Seq<u8> {
    seq![44u8, 34u8, 101u8, 114u8, 114u8, 111u8, 114u8, 34u8, 58u8]
}

/// Appends the bytes of [`error_key`] to `out`.
pub fn push_error_key(out: &mut Vec<u8>)
    ensures
        final(out)@ == old(out)@ + error_key(),
{
    let a: [u8; 9] = [44, 34, 101, 114, 114, 111, 114, 34, 58];
    proof {
        assert(a@ =~= error_key());
    }
    push_bytes(out, a.as_slice());
}

/// The bytes of `null`: JSON null.
pub open spec fn lit_null() -> Seq<u8> {
    seq![110u8, 117u8, 108u8, 108u8]
}

/// Appends the bytes of [`lit_null`] to `out`.
pub fn push_lit_null(out: &mut Vec<u8>)
    ensures
        final(out)@ == old(out)@ + lit_null(),
{
    let a: [u8; 4] = [110, 117, 108, 108];
    proof {
        assert(a@ =~= lit_null());
    }
    push_bytes(out, a.as_slice());
}

/// The bytes of `{\"type\":\"disconnect\",\"reason\":`: opening of a disconnect-notice event frame.
pub open spec fn ev_disconnect_pre() -> Seq<u8> {
    seq![123u8, 34u8, 116u8, 121u8, 112u8, 101u8, 34u8, 58u8, 34u8, 100u8, 105u8, 115u8, 99u8, 111u8, 110u8, 110u8, 101u8, 99u8, 116u8, 34u8, 44u8, 34u8, 114u8, 101u8, 97u8, 115u8, 111u8, 110u8, 34u8, 58u8]
}

/// Appends the bytes of [`ev_disconnect_pre`] to `out`.
pub fn push_ev_disconnect_pre(out: &mut Vec<u8>)
    ensures
        final(out)@ == old(out)@ + ev_disconnect_pre(),
{
    let a: [u8; 30] = [123, 34, 116, 121, 112, 101, 34, 58, 34, 100, 105, 115, 99, 111, 110, 110, 101, 99, 116, 34, 44, 34, 114, 101, 97, 115, 111, 110, 34, 58];
    proof {
        assert(a@ =~= ev_disconnect_pre());
    }
    push_bytes(out, a.as_slice());
}

/// The bytes of `{\"type\":\"error\",\"message\":\"`: opening of an error event frame.
pub open spec fn ev_error_pre() -> Seq<u8> {
    seq![123u8, 34u8, 116u8, 121u8, 112u8, 101u8, 34u8, 58u8, 34u8, 101u8, 114u8, 114u8, 111u8, 114u8, 34u8, 44u8, 34u8, 109u8, 101u8, 115u8, 115u8, 97u8, 103u8, 101u8, 34u8, 58u8, 34u8]
}

/// Appends the bytes of [`ev_error_pre`] to `out`.
pub fn push_ev_error_pre(out: &mut Vec<u8>)
    ensures
        final(out)@ == old(out)@ + ev_error_pre(),
{
    let a: [u8; 27] = [123, 34, 116, 121, 112, 101, 34, 58, 34, 101, 114, 114, 111, 114, 34, 44, 34, 109, 101, 115, 115, 97, 103, 101, 34, 58, 34];
    proof {
        assert(a@ =~= ev_error_pre());
    }
    push_bytes(out, a.as_slice());
}

/// The bytes of `client requested`: disconnect reason for an explicit disconnect command.
pub open spec fn reason_client() -> Seq<u8> {
    seq![99u8, 108u8, 105u8, 101u8, 110u8, 116u8, 32u8, 114u8, 101u8, 113u8, 117u8, 101u8, 115u8, 116u8, 101u8, 100u8]
}

/// Appends the bytes of [`reason_client`] to `out`.
pub fn push_reason_client(out: &mut Vec<u8>)
    ensures
        final(out)@ == old(out)@ + reason_client(),
{
    let a: [u8; 16] = [99, 108, 105, 101, 110, 116, 32, 114, 101, 113, 117, 101, 115, 116, 101, 100];
    proof {
        assert(a@ =~= reason_client());
    }
    push_bytes(out, a.as_slice());
}

/// The bytes of `connection closed`: disconnect reason for an upstream end-of-stream.
pub open spec fn reason_closed() -> Seq<u8> {
    seq![99u8, 111u8, 110u8, 110u8, 101u8, 99u8, 116u8, 105u8, 111u8, 110u8, 32u8, 99u8, 108u8, 111u8, 115u8, 101u8, 100u8]
}

/// Appends the bytes of [`reason_closed`] to `out`.
pub fn push_reason_closed(out: &mut Vec<u8>)
    ensures
        final(out)@ == old(out)@ + reason_closed(),
{
    let a: [u8; 17] = [99, 111, 110, 110, 101, 99, 116, 105, 111, 110, 32, 99, 108, 111, 115, 101, 100];
    proof {
        assert(a@ =~= reason_closed());
    }
    push_bytes(out, a.as_slice());
}

/// The bytes of `invalid command`: error message for malformed control input.
pub open spec fn msg_invalid() -> Seq<u8> {
    seq![105u8, 110u8, 118u8, 97u8, 108u8, 105u8, 100u8, 32u8, 99u8, 111u8, 109u8, 109u8, 97u8, 110u8, 100u8]
}

/// Appends the bytes of [`msg_invalid`] to `out`.
pub fn push_msg_invalid(out: &mut Vec<u8>)
    ensures
        final(out)@ == old(out)@ + msg_invalid(),
{
    let a: [u8; 15] = [105, 110, 118, 97, 108, 105, 100, 32, 99, 111, 109, 109, 97, 110, 100];
    proof {
        assert(a@ =~= msg_invalid());
    }
    push_bytes(out, a.as_slice());
}

/// The bytes of `not connected`: error message for a payload sent with no live link.
pub open spec fn msg_not_connected() -> Seq<u8> {
    seq![110u8, 111u8, 116u8, 32u8, 99u8, 111u8, 110u8, 110u8, 101u8, 99u8, 116u8, 101u8, 100u8]
}

/// Appends the bytes of [`msg_not_connected`] to `out`.
pub fn push_msg_not_connected(out: &mut Vec<u8>)
    ensures
        final(out)@ == old(out)@ + msg_not_connected(),
{
    let a: [u8; 13] = [110, 111, 116, 32, 99, 111, 110, 110, 101, 99, 116, 101, 100];
    proof {
        assert(a@ =~= msg_not_connected());
    }
    push_bytes(out, a.as_slice());
}

/// The bytes of `Failed to connect: `: prefix of a dial-failure report.
pub open spec fn dial_fail_pre() -> Seq<u8> {
    seq![70u8, 97u8, 105u8, 108u8, 101u8, 100u8, 32u8, 116u8, 111u8, 32u8, 99u8, 111u8, 110u8, 110u8, 101u8, 99u8, 116u8, 58u8, 32u8]
}

/// Appends the bytes of [`dial_fail_pre`] to `out`.
pub fn push_dial_fail_pre(out: &mut Vec<u8>)
    ensures
        final(out)@ == old(out)@ + dial_fail_pre(),
{
    let a: [u8; 19] = [70, 97, 105, 108, 101, 100, 32, 116, 111, 32, 99, 111, 110, 110, 101, 99, 116, 58, 32];
    proof {
        assert(a@ =~= dial_fail_pre());
    }
    push_bytes(out, a.as_slice());
}

/// The bytes of `Connected successfully`: response to a successful embedded connect.
pub open spec fn resp_connected() -> Seq<u8> {
    seq![67u8, 111u8, 110u8, 110u8, 101u8, 99u8, 116u8, 101u8, 100u8, 32u8, 115u8, 117u8, 99u8, 99u8, 101u8, 115u8, 115u8, 102u8, 117u8, 108u8, 108u8, 121u8]
}

/// Appends the bytes of [`resp_connected`] to `out`.
pub fn push_resp_connected(out: &mut Vec<u8>)
    ensures
        final(out)@ == old(out)@ + resp_connected(),
{
    let a: [u8; 22] = [67, 111, 110, 110, 101, 99, 116, 101, 100, 32, 115, 117, 99, 99, 101, 115, 115, 102, 117, 108, 108, 121];
    proof {
        assert(a@ =~= resp_connected());
    }
    push_bytes(out, a.as_slice());
}

/// The bytes of `Packet sent`: response to a successful embedded send.
pub open spec fn resp_sent() -> Seq<u8> {
    seq![80u8, 97u8, 99u8, 107u8, 101u8, 116u8, 32u8, 115u8, 101u8, 110u8, 116u8]
}

/// Appends the bytes of [`resp_sent`] to `out`.
pub fn push_resp_sent(out: &mut Vec<u8>)
    ensures
        final(out)@ == old(out)@ + resp_sent(),
{
    let a: [u8; 11] = [80, 97, 99, 107, 101, 116, 32, 115, 101, 110, 116];
    proof {
        assert(a@ =~= resp_sent());
    }
    push_bytes(out, a.as_slice());
}

/// The bytes of `Disconnected`: response to an embedded disconnect.
pub open spec fn resp_disconnected() -> Seq<u8> {
    seq![68u8, 105u8, 115u8, 99u8, 111u8, 110u8, 110u8, 101u8, 99u8, 116u8, 101u8, 100u8]
}

/// Appends the bytes of [`resp_disconnected`] to `out`.
pub fn push_resp_disconnected(out: &mut Vec<u8>)
    ensures
        final(out)@ == old(out)@ + resp_disconnected(),
{
    let a: [u8; 12] = [68, 105, 115, 99, 111, 110, 110, 101, 99, 116, 101, 100];
    proof {
        assert(a@ =~= resp_disconnected());
    }
    push_bytes(out, a.as_slice());
}

} // verus!
