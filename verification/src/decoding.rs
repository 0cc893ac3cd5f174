//! The decisions around the decoder: which pixel format to take from those
//! the decoder offers, what a receive result means, and when the decoder is
//! flushed before a packet.
use vstd::prelude::*;

verus! {

/// The "no pixel format" code, which also ends a list of formats.
pub const PIX_FMT_NONE: i32 = -1;

/// `AVERROR(EAGAIN)`: the decoder needs more input.
pub const ERROR_AGAIN: i32 = -11;

/// `AVERROR(EOF)` with the C library's `EOF` of -1.
pub const ERROR_EOF_ERRNO: i32 = 1;

/// The format the decoder is given from the list it offers (ended by
/// `PIX_FMT_NONE`): `preferred` when it is offered before the end, else
/// `PIX_FMT_NONE`.
pub fn choose_pixel_format(formats: &Vec<i32>, preferred: i32) -> (f: i32)
    requires
        exists|k: int| 0 <= k < formats.len() && formats@[k] == PIX_FMT_NONE,
    ensures
        ({
            let end = choose|k: int|
                0 <= k < formats.len() && formats@[k] == PIX_FMT_NONE && forall|j: int|
                    0 <= j < k ==> formats@[j] != PIX_FMT_NONE;
            f == if exists|i: int| 0 <= i < end && formats@[i] == preferred {
                preferred
            } else {
                PIX_FMT_NONE
            }
        }),
{
    let ghost end = choose|k: int|
        0 <= k < formats.len() && formats@[k] == PIX_FMT_NONE && forall|j: int|
            0 <= j < k ==> formats@[j] != PIX_FMT_NONE;
    proof {
        let k0 = choose|k: int| 0 <= k < formats.len() && formats@[k] == PIX_FMT_NONE;
        lemma_first_end(formats@, k0);
    }
    let mut i: usize = 0;
    while formats[i] != PIX_FMT_NONE
        invariant
            0 <= i <= end,
            0 <= end < formats.len(),
            formats@[end] == PIX_FMT_NONE,
            forall|j: int| 0 <= j < end ==> formats@[j] != PIX_FMT_NONE,
            forall|j: int| 0 <= j < i ==> formats@[j] != preferred,
        decreases end - i,
    {
        if formats[i] == preferred {
            return formats[i];
        }
        i = i + 1;
    }
    PIX_FMT_NONE
}

proof fn lemma_first_end(formats: Seq<i32>, k0: int)
    requires
        0 <= k0 < formats.len(),
        formats[k0] == PIX_FMT_NONE,
    ensures
        exists|k: int|
            0 <= k < formats.len() && formats[k] == PIX_FMT_NONE && forall|j: int|
                0 <= j < k ==> formats[j] != PIX_FMT_NONE,
    decreases k0,
{
    if exists|j: int| 0 <= j < k0 && formats[j] == PIX_FMT_NONE {
        let j = choose|j: int| 0 <= j < k0 && formats[j] == PIX_FMT_NONE;
        lemma_first_end(formats, j);
    } else {
        assert(forall|j: int| 0 <= j < k0 ==> formats[j] != PIX_FMT_NONE);
    }
}

/// What a receive of the decoder answered.
#[derive(PartialEq, Eq, Structural, Clone, Copy, Debug)]
pub enum ReceiveOutcome {
    /// A frame was decoded.
    Frame,
    /// The decoder needs input first.
    NeedsInput,
    /// It failed with this code.
    Failed(i32),
}

/// The meaning of a receive result: a negative code is "needs input" for
/// `ERROR_AGAIN` (and `ERROR_EOF_ERRNO`), an error otherwise; any other
/// result is a frame.
pub fn receive_outcome(result: i32) -> (o: ReceiveOutcome)
    ensures
        o == if result < 0 {
            if result == ERROR_AGAIN || result == ERROR_EOF_ERRNO {
                ReceiveOutcome::NeedsInput
            } else {
                ReceiveOutcome::Failed(result)
            }
        } else {
            ReceiveOutcome::Frame
        },
{
    if result < 0 {
        if result == ERROR_AGAIN || result == ERROR_EOF_ERRNO {
            ReceiveOutcome::NeedsInput
        } else {
            ReceiveOutcome::Failed(result)
        }
    } else {
        ReceiveOutcome::Frame
    }
}

/// Before a packet of serial `packet_serial` is sent: whether the decoder
/// is flushed (it had no serial, or another one), and its serial after.
pub fn send_packet_serial(current: Option<u32>, packet_serial: u32) -> (r: (bool, Option<u32>))
    ensures
        r == (match current {
            Some(s) => s != packet_serial,
            None => true,
        }, if current == Some(packet_serial) {
            current
        } else {
            Some(packet_serial)
        }),
{
    match current {
        Some(s) => if s != packet_serial {
            (true, Some(packet_serial))
        } else {
            (false, current)
        },
        None => (true, Some(packet_serial)),
    }
}

} // verus!
