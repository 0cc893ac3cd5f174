//! The sizes of converted audio: how many planes and bytes a conversion
//! needs, how many samples it yields, and which planes of the destination
//! frame must be (re)allocated or freed.
use vstd::prelude::*;

verus! {

/// Most planes an audio frame holds.
pub const MAX_PLANES: usize = 8;

/// The planes and the bytes per plane a conversion of `samples_out` samples
/// per channel needs: one plane per channel of `sample_bytes`-byte samples
/// when planar, else one plane with the channels interleaved.
pub fn conversion_layout(is_planar: bool, channels: u32, sample_bytes: u32, samples_out: u32) -> (r: (u32, u32))
    requires
        samples_out * sample_bytes <= u32::MAX,
        !is_planar ==> samples_out * sample_bytes * channels <= u32::MAX,
    ensures
        r == (if is_planar {
            (channels, (samples_out * sample_bytes) as u32)
        } else {
            (1u32, (samples_out * sample_bytes * channels) as u32)
        }),
{
    let planes = if is_planar {
        channels
    } else {
        1
    };
    let buffer_size = if is_planar {
        samples_out * sample_bytes
    } else {
        samples_out * sample_bytes * channels
    };
    (planes, buffer_size)
}

/// Samples in the converted frame for `converted` samples per channel: all
/// channels counted when planar, one when interleaved.
pub fn converted_samples(is_planar: bool, channels: u32, converted: u32) -> (n: usize)
    requires
        (if is_planar {
            channels as int
        } else {
            1
        }) * converted <= usize::MAX,
    ensures
        n == (if is_planar {
            channels as int
        } else {
            1
        }) * converted,
{
    let factor: usize = if is_planar {
        channels as usize
    } else {
        1
    };
    factor * (converted as usize)
}

/// What becomes of one plane of the destination frame.
#[derive(PartialEq, Eq, Structural, Clone, Copy, Debug)]
pub enum PlaneAction {
    /// It has the right size already.
    Keep,
    /// It is (re)allocated to the plane size.
    Allocate,
    /// It is freed (if allocated).
    Free,
    /// It was not in use and stays so.
    Unused,
}

/// The action on plane `i` of a frame whose planes have `sizes`, of which
/// `in_use` are in use, made to hold `planes` planes of `plane_size` bytes.
pub open spec fn plane_action(sizes: Seq<Option<usize>>, in_use: int, planes: int, plane_size: usize, i: int) -> PlaneAction {
    if i < planes {
        if sizes[i] == Some(plane_size) {
            PlaneAction::Keep
        } else {
            PlaneAction::Allocate
        }
    } else if i < in_use {
        PlaneAction::Free
    } else {
        PlaneAction::Unused
    }
}

/// The action on each plane when a frame with planes of `sizes` (the first
/// `in_use` in use) is made to hold `planes` planes of `plane_size` bytes:
/// planes of another size or none are allocated, planes beyond the new
/// count are freed.
pub fn plane_actions(sizes: &[Option<usize>; 8], in_use: usize, planes: usize, plane_size: usize) -> (r: Vec<PlaneAction>)
    requires
        planes <= MAX_PLANES,
        in_use <= MAX_PLANES,
    ensures
        r@.len() == MAX_PLANES,
        forall|i: int|
            0 <= i < MAX_PLANES ==> #[trigger] r@[i] == plane_action(
                sizes@,
                in_use as int,
                planes as int,
                plane_size,
                i,
            ),
{
    let mut r: Vec<PlaneAction> = Vec::new();
    let mut i: usize = 0;
    while i < MAX_PLANES
        invariant
            i <= MAX_PLANES,
            r@.len() == i,
            forall|j: int|
                0 <= j < i ==> #[trigger] r@[j] == plane_action(
                    sizes@,
                    in_use as int,
                    planes as int,
                    plane_size,
                    j,
                ),
        decreases MAX_PLANES - i,
    {
        let action = if i < planes {
            match sizes[i] {
                Some(size) => if size != plane_size {
                    PlaneAction::Allocate
                } else {
                    PlaneAction::Keep
                },
                None => PlaneAction::Allocate,
            }
        } else if i < in_use {
            PlaneAction::Free
        } else {
            PlaneAction::Unused
        };
        r.push(action);
        i = i + 1;
    }
    r
}

} // verus!
