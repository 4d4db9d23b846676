//! The input-event relay.
//!
//! Messages on the negotiated data channel carry one binary-encoded
//! input event of exactly seven kinds.  The relay decodes each message —
//! a malformed one is dropped, never fatal to the session — and
//! translates the event into the pipeline's vocabulary, fire-and-forget.
//! The wire form is one tag byte followed by the event's fields as
//! 4-byte big-endian words.

use vstd::prelude::*;

verus! {

use crate::frame::spec_u32_to_be_bytes;
use crate::frame::spec_u32_from_be_bytes;
use crate::frame::lemma_u32_be_bytes_round_trip;

/// One input event from the remote peer.
#[derive(Clone, Copy, Debug, PartialEq, Eq, Structural)]
pub enum InputEvent {
    /// Relative mouse move.
    MouseMove { dx: i32, dy: i32 },
    /// Absolute mouse move.
    MouseMoveAbs { x: i32, y: i32 },
    KeyDown { keycode: u32 },
    KeyUp { keycode: u32 },
    MouseWheel { dx: i32, dy: i32 },
    MouseKeyDown { button: u32 },
    MouseKeyUp { button: u32 },
}

/// One event in the pipeline's vocabulary, handed to the collaborator
/// that injects input.
#[derive(Clone, Copy, Debug, PartialEq, Eq, Structural)]
pub enum PipelineEvent {
    MouseMoveRelative { pointer_x: i32, pointer_y: i32 },
    MouseMoveAbsolute { pointer_x: i32, pointer_y: i32 },
    KeyboardKey { key: u32, pressed: bool },
    MouseAxis { x: i32, y: i32 },
    MouseButton { button: u32, pressed: bool },
}

/// The wire bytes of one event: a tag byte, then each field big-endian.
pub open spec fn spec_encode_input(e: InputEvent) -> Seq<u8> {
    match e {
        InputEvent::MouseMove { dx, dy } => seq![1u8] + spec_u32_to_be_bytes(dx as u32)
            + spec_u32_to_be_bytes(dy as u32),
        InputEvent::MouseMoveAbs { x, y } => seq![2u8] + spec_u32_to_be_bytes(x as u32)
            + spec_u32_to_be_bytes(y as u32),
        InputEvent::KeyDown { keycode } => seq![3u8] + spec_u32_to_be_bytes(keycode),
        InputEvent::KeyUp { keycode } => seq![4u8] + spec_u32_to_be_bytes(keycode),
        InputEvent::MouseWheel { dx, dy } => seq![5u8] + spec_u32_to_be_bytes(dx as u32)
            + spec_u32_to_be_bytes(dy as u32),
        InputEvent::MouseKeyDown { button } => seq![6u8] + spec_u32_to_be_bytes(button),
        InputEvent::MouseKeyUp { button } => seq![7u8] + spec_u32_to_be_bytes(button),
    }
}

/// What one data-channel message decodes to, if anything: the tag picks
/// the kind, the length must fit it exactly, and the fields follow
/// big-endian.
pub open spec fn spec_decode_input(b: Seq<u8>) -> Option<InputEvent> {
    if b.len() == 9 && b[0] == 1 {
        Option::Some(
            InputEvent::MouseMove {
                dx: spec_u32_from_be_bytes(b.subrange(1, 5)) as i32,
                dy: spec_u32_from_be_bytes(b.subrange(5, 9)) as i32,
            },
        )
    } else if b.len() == 9 && b[0] == 2 {
        Option::Some(
            InputEvent::MouseMoveAbs {
                x: spec_u32_from_be_bytes(b.subrange(1, 5)) as i32,
                y: spec_u32_from_be_bytes(b.subrange(5, 9)) as i32,
            },
        )
    } else if b.len() == 5 && b[0] == 3 {
        Option::Some(InputEvent::KeyDown { keycode: spec_u32_from_be_bytes(b.subrange(1, 5)) })
    } else if b.len() == 5 && b[0] == 4 {
        Option::Some(InputEvent::KeyUp { keycode: spec_u32_from_be_bytes(b.subrange(1, 5)) })
    } else if b.len() == 9 && b[0] == 5 {
        Option::Some(
            InputEvent::MouseWheel {
                dx: spec_u32_from_be_bytes(b.subrange(1, 5)) as i32,
                dy: spec_u32_from_be_bytes(b.subrange(5, 9)) as i32,
            },
        )
    } else if b.len() == 5 && b[0] == 6 {
        Option::Some(InputEvent::MouseKeyDown { button: spec_u32_from_be_bytes(b.subrange(1, 5)) })
    } else if b.len() == 5 && b[0] == 7 {
        Option::Some(InputEvent::MouseKeyUp { button: spec_u32_from_be_bytes(b.subrange(1, 5)) })
    } else {
        Option::None
    }
}

/// The pipeline event one input event translates to.
pub open spec fn spec_translate_input(e: InputEvent) -> PipelineEvent {
    match e {
        InputEvent::MouseMove { dx, dy } => PipelineEvent::MouseMoveRelative {
            pointer_x: dx,
            pointer_y: dy,
        },
        InputEvent::MouseMoveAbs { x, y } => PipelineEvent::MouseMoveAbsolute {
            pointer_x: x,
            pointer_y: y,
        },
        InputEvent::KeyDown { keycode } => PipelineEvent::KeyboardKey {
            key: keycode,
            pressed: true,
        },
        InputEvent::KeyUp { keycode } => PipelineEvent::KeyboardKey {
            key: keycode,
            pressed: false,
        },
        InputEvent::MouseWheel { dx, dy } => PipelineEvent::MouseAxis { x: dx, y: dy },
        InputEvent::MouseKeyDown { button } => PipelineEvent::MouseButton {
            button,
            pressed: true,
        },
        InputEvent::MouseKeyUp { button } => PipelineEvent::MouseButton {
            button,
            pressed: false,
        },
    }
}

fn push_u32_be(x: u32, out: &mut Vec<u8>)
    ensures
        final(out)@ == old(out)@ + spec_u32_to_be_bytes(x),
{
    out.push(((x >> 24) & 0xff) as u8);
    out.push(((x >> 16) & 0xff) as u8);
    out.push(((x >> 8) & 0xff) as u8);
    out.push((x & 0xff) as u8);
    assert(out@ =~= old(out)@ + spec_u32_to_be_bytes(x));
}

/// Encode one event for the data channel.
pub fn encode_input(e: &InputEvent) -> (r: Vec<u8>)
    ensures
        r@ == spec_encode_input(*e),
{
    let mut out: Vec<u8> = Vec::new();
    match e {
        InputEvent::MouseMove { dx, dy } => {
            out.push(1);
            push_u32_be(*dx as u32, &mut out);
            push_u32_be(*dy as u32, &mut out);
        },
        InputEvent::MouseMoveAbs { x, y } => {
            out.push(2);
            push_u32_be(*x as u32, &mut out);
            push_u32_be(*y as u32, &mut out);
        },
        InputEvent::KeyDown { keycode } => {
            out.push(3);
            push_u32_be(*keycode, &mut out);
        },
        InputEvent::KeyUp { keycode } => {
            out.push(4);
            push_u32_be(*keycode, &mut out);
        },
        InputEvent::MouseWheel { dx, dy } => {
            out.push(5);
            push_u32_be(*dx as u32, &mut out);
            push_u32_be(*dy as u32, &mut out);
        },
        InputEvent::MouseKeyDown { button } => {
            out.push(6);
            push_u32_be(*button, &mut out);
        },
        InputEvent::MouseKeyUp { button } => {
            out.push(7);
            push_u32_be(*button, &mut out);
        },
    }
    proof {
        assert(out@ =~= spec_encode_input(*e));
    }
    out
}

fn read_u32_be(b: &Vec<u8>, at: usize) -> (r: u32)
    requires
        at + 4 <= b@.len(),
    ensures
        r == spec_u32_from_be_bytes(b@.subrange(at as int, at + 4)),
{
    let n = b.len();
    assert(at + 4 <= n);
    let r = (b[at] as u32) << 24 | (b[at + 1] as u32) << 16 | (b[at + 2] as u32) << 8 | (b[at
        + 3] as u32);
    proof {
        assert(seq![
            b@[at as int],
            b@[at as int + 1],
            b@[at as int + 2],
            b@[at as int + 3],
        ] =~= b@.subrange(at as int, at + 4));
    }
    r
}

/// Decode one data-channel message; `None` drops it.
pub fn decode_input(b: &Vec<u8>) -> (r: Option<InputEvent>)
    ensures
        r == spec_decode_input(b@),
{
    if b.len() == 9 {
        let tag = b[0];
        if tag == 1 {
            Some(
                InputEvent::MouseMove {
                    dx: read_u32_be(b, 1) as i32,
                    dy: read_u32_be(b, 5) as i32,
                },
            )
        } else if tag == 2 {
            Some(
                InputEvent::MouseMoveAbs {
                    x: read_u32_be(b, 1) as i32,
                    y: read_u32_be(b, 5) as i32,
                },
            )
        } else if tag == 5 {
            Some(
                InputEvent::MouseWheel {
                    dx: read_u32_be(b, 1) as i32,
                    dy: read_u32_be(b, 5) as i32,
                },
            )
        } else {
            None
        }
    } else if b.len() == 5 {
        let tag = b[0];
        if tag == 3 {
            Some(InputEvent::KeyDown { keycode: read_u32_be(b, 1) })
        } else if tag == 4 {
            Some(InputEvent::KeyUp { keycode: read_u32_be(b, 1) })
        } else if tag == 6 {
            Some(InputEvent::MouseKeyDown { button: read_u32_be(b, 1) })
        } else if tag == 7 {
            Some(InputEvent::MouseKeyUp { button: read_u32_be(b, 1) })
        } else {
            None
        }
    } else {
        None
    }
}

/// Translate one event into the pipeline's vocabulary.
pub fn handle_input_message(e: &InputEvent) -> (r: PipelineEvent)
    ensures
        r == spec_translate_input(*e),
{
    match e {
        InputEvent::MouseMove { dx, dy } => PipelineEvent::MouseMoveRelative {
            pointer_x: *dx,
            pointer_y: *dy,
        },
        InputEvent::MouseMoveAbs { x, y } => PipelineEvent::MouseMoveAbsolute {
            pointer_x: *x,
            pointer_y: *y,
        },
        InputEvent::KeyDown { keycode } => PipelineEvent::KeyboardKey {
            key: *keycode,
            pressed: true,
        },
        InputEvent::KeyUp { keycode } => PipelineEvent::KeyboardKey {
            key: *keycode,
            pressed: false,
        },
        InputEvent::MouseWheel { dx, dy } => PipelineEvent::MouseAxis { x: *dx, y: *dy },
        InputEvent::MouseKeyDown { button } => PipelineEvent::MouseButton {
            button: *button,
            pressed: true,
        },
        InputEvent::MouseKeyUp { button } => PipelineEvent::MouseButton {
            button: *button,
            pressed: false,
        },
    }
}

/// The relay's step on one inbound data-channel message: decode it and
/// translate; a decode failure yields nothing and harms nothing.
pub fn relay_data_channel_message(data: &Vec<u8>) -> (r: Option<PipelineEvent>)
    ensures
        r == match spec_decode_input(data@) {
            Option::Some(e) => Option::Some(spec_translate_input(e)),
            Option::None => Option::None::<PipelineEvent>,
        },
{
    match decode_input(data) {
        Some(e) => Some(handle_input_message(&e)),
        None => None,
    }
}

/// Input framing round-trip: every event's wire form decodes back to
/// exactly that event.
pub proof fn lemma_input_round_trip(e: InputEvent)
    ensures
        spec_decode_input(spec_encode_input(e)) == Option::Some(e),
{
    let b = spec_encode_input(e);
    match e {
        InputEvent::MouseMove { dx, dy } => {
            lemma_i32_bytes_round_trip(dx, b, 1);
            lemma_i32_bytes_round_trip(dy, b, 5);
        },
        InputEvent::MouseMoveAbs { x, y } => {
            lemma_i32_bytes_round_trip(x, b, 1);
            lemma_i32_bytes_round_trip(y, b, 5);
        },
        InputEvent::KeyDown { keycode } => {
            lemma_u32_at(keycode, b, 1);
        },
        InputEvent::KeyUp { keycode } => {
            lemma_u32_at(keycode, b, 1);
        },
        InputEvent::MouseWheel { dx, dy } => {
            lemma_i32_bytes_round_trip(dx, b, 1);
            lemma_i32_bytes_round_trip(dy, b, 5);
        },
        InputEvent::MouseKeyDown { button } => {
            lemma_u32_at(button, b, 1);
        },
        InputEvent::MouseKeyUp { button } => {
            lemma_u32_at(button, b, 1);
        },
    }
}

/// A `u32` written big-endian at `at` reads back unchanged.
proof fn lemma_u32_at(x: u32, b: Seq<u8>, at: int)
    requires
        0 <= at,
        at + 4 <= b.len(),
        b.subrange(at, at + 4) =~= spec_u32_to_be_bytes(x),
    ensures
        spec_u32_from_be_bytes(b.subrange(at, at + 4)) == x,
{
    lemma_u32_be_bytes_round_trip(x);
}

/// An `i32` carried through the `u32` wire form reads back unchanged.
proof fn lemma_i32_bytes_round_trip(x: i32, b: Seq<u8>, at: int)
    requires
        0 <= at,
        at + 4 <= b.len(),
        b.subrange(at, at + 4) =~= spec_u32_to_be_bytes(x as u32),
    ensures
        spec_u32_from_be_bytes(b.subrange(at, at + 4)) as i32 == x,
{
    lemma_u32_be_bytes_round_trip(x as u32);
    assert(((x as u32) as i32) == x) by (bit_vector);
}

} // verus!
