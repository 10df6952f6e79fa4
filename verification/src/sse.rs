//! Frames of the server-to-client push protocol: sequential numeric event
//! ids, an event-type tag, and a JSON payload. A consumer renders every
//! frame it receives; note that the snapshot and removal channels feeding a
//! consumer deliver each message to exactly one reader, so two concurrent
//! streams split the frames between them rather than each seeing all.

use vstd::prelude::*;

use crate::codec::{join_comma_space, push_bytes};
use crate::digits::{dec_digits, format_u64};

verus! {

/// `id: <id>\r\nevent: removed\r\ndata: {"index":<index>}\r\n\r\n` — the
/// push-protocol frame that tells a consumer which body offset vanished.
pub open spec fn removal_event_text(id: int, index: int) -> Seq<u8> {
    seq![105u8, 100u8, 58u8, 32u8] + dec_digits(id) + seq![
        13u8, 10u8, 101u8, 118u8, 101u8, 110u8, 116u8, 58u8, 32u8, 114u8, 101u8, 109u8, 111u8,
        118u8, 101u8, 100u8, 13u8, 10u8, 100u8, 97u8, 116u8, 97u8, 58u8, 32u8, 123u8, 34u8, 105u8,
        110u8, 100u8, 101u8, 120u8, 34u8, 58u8,
    ] + dec_digits(index) + seq![125u8, 13u8, 10u8, 13u8, 10u8]
}

/// `id: <id>\r\nevent: simulation\r\ndata: {"simstate": [<bodies>],
/// "metadata": <meta>}\r\n\r\n` — the frame that carries one snapshot: the
/// rendered bodies, `", "`-separated, and the rendered constants.
pub open spec fn snapshot_event_text(id: int, bodies: Seq<Seq<u8>>, meta: Seq<u8>) -> Seq<u8> {
    seq![105u8, 100u8, 58u8, 32u8] + dec_digits(id) + seq![
        13u8, 10u8, 101u8, 118u8, 101u8, 110u8, 116u8, 58u8, 32u8, 115u8, 105u8, 109u8, 117u8,
        108u8, 97u8, 116u8, 105u8, 111u8, 110u8, 13u8, 10u8, 100u8, 97u8, 116u8, 97u8, 58u8, 32u8,
        123u8, 34u8, 115u8, 105u8, 109u8, 115u8, 116u8, 97u8, 116u8, 101u8, 34u8, 58u8, 32u8, 91u8,
    ] + join_comma_space(bodies) + seq![
        93u8, 44u8, 32u8, 34u8, 109u8, 101u8, 116u8, 97u8, 100u8, 97u8, 116u8, 97u8, 34u8, 58u8,
        32u8,
    ] + meta + seq![125u8, 13u8, 10u8, 13u8, 10u8]
}

/// Builds one removal frame.
pub fn removal_event(id: u64, index: usize) -> (out: Vec<u8>)
    ensures
        out@ == removal_event_text(id as int, index as int),
{
    let mut out: Vec<u8> = Vec::new();
    push_bytes(&mut out, [105u8, 100u8, 58u8, 32u8].as_slice());
    let id_digits = format_u64(id);
    push_bytes(&mut out, id_digits.as_slice());
    push_bytes(
        &mut out,
        [
            13u8, 10u8, 101u8, 118u8, 101u8, 110u8, 116u8, 58u8, 32u8, 114u8, 101u8, 109u8, 111u8,
            118u8, 101u8, 100u8, 13u8, 10u8, 100u8, 97u8, 116u8, 97u8, 58u8, 32u8, 123u8, 34u8,
            105u8, 110u8, 100u8, 101u8, 120u8, 34u8, 58u8,
        ].as_slice(),
    );
    let index_digits = format_u64(index as u64);
    push_bytes(&mut out, index_digits.as_slice());
    push_bytes(&mut out, [125u8, 13u8, 10u8, 13u8, 10u8].as_slice());
    proof {
        assert(out@ =~= removal_event_text(id as int, index as int));
    }
    out
}

/// Builds one snapshot frame from the already-rendered bodies and
/// constants.
pub fn snapshot_event(id: u64, bodies: &Vec<Vec<u8>>, meta: &[u8]) -> (out: Vec<u8>)
    ensures
        out@ == snapshot_event_text(id as int, bodies@.map_values(|b: Vec<u8>| b@), meta@),
{
    let ghost bviews = bodies@.map_values(|b: Vec<u8>| b@);
    let mut out: Vec<u8> = Vec::new();
    push_bytes(&mut out, [105u8, 100u8, 58u8, 32u8].as_slice());
    let id_digits = format_u64(id);
    push_bytes(&mut out, id_digits.as_slice());
    push_bytes(
        &mut out,
        [
            13u8, 10u8, 101u8, 118u8, 101u8, 110u8, 116u8, 58u8, 32u8, 115u8, 105u8, 109u8, 117u8,
            108u8, 97u8, 116u8, 105u8, 111u8, 110u8, 13u8, 10u8, 100u8, 97u8, 116u8, 97u8, 58u8,
            32u8, 123u8, 34u8, 115u8, 105u8, 109u8, 115u8, 116u8, 97u8, 116u8, 101u8, 34u8, 58u8,
            32u8, 91u8,
        ].as_slice(),
    );
    let ghost pre = out@;
    let mut i: usize = 0;
    while i < bodies.len()
        invariant
            0 <= i <= bodies@.len(),
            bviews == bodies@.map_values(|b: Vec<u8>| b@),
            out@ == pre + join_comma_space(bviews.take(i as int)),
        decreases bodies@.len() - i,
    {
        proof {
            assert(bviews.take(i + 1).drop_last() =~= bviews.take(i as int));
            assert(bviews.take(i + 1).last() == bviews[i as int]);
        }
        if i > 0 {
            out.push(44);
            out.push(32);
        }
        push_bytes(&mut out, bodies[i].as_slice());
        proof {
            if i == 0 {
                assert(out@ =~= pre + join_comma_space(bviews.take(1)));
            } else {
                assert(out@ =~= pre + join_comma_space(bviews.take(i + 1)));
            }
        }
        i += 1;
    }
    proof {
        assert(bviews.take(bviews.len() as int) =~= bviews);
    }
    push_bytes(
        &mut out,
        [
            93u8, 44u8, 32u8, 34u8, 109u8, 101u8, 116u8, 97u8, 100u8, 97u8, 116u8, 97u8, 34u8,
            58u8, 32u8,
        ].as_slice(),
    );
    push_bytes(&mut out, meta);
    push_bytes(&mut out, [125u8, 13u8, 10u8, 13u8, 10u8].as_slice());
    proof {
        assert(out@ =~= snapshot_event_text(id as int, bviews, meta@));
    }
    out
}

} // verus!
