//! Escape sequences of the kitty graphics protocol: the commands that
//! transmit frames, assemble them into a looping animation, and probe a
//! terminal for support.

use vstd::prelude::*;
use vstd::utf8::*;
use base64::Engine;

use crate::animation::Meta;
use crate::bytes::{contains_bytes, contains_seq, push_bytes, push_str};
use crate::numfmt::{decimal, push_decimal};

verus! {

/// UTF-8 bytes of a text.
pub open spec fn lit(s: &str) -> Seq<u8> {
    encode_utf8(s@)
}

/// Start of an application program command for graphics: `ESC _ G`.
pub open spec fn apc_start() -> Seq<u8> {
    seq![0x1bu8, 0x5fu8, 0x47u8]
}

/// String terminator: `ESC \`.
pub open spec fn apc_end() -> Seq<u8> {
    seq![0x1bu8, 0x5cu8]
}

/// A graphics command: the control data `params`, then, where there is a
/// payload, `;` and the payload, framed by `ESC _ G` and `ESC \`.
pub open spec fn graphics_command(params: Seq<u8>, payload: Option<Seq<u8>>) -> Seq<u8> {
    apc_start() + params + match payload {
        Some(p) => seq![0x3bu8] + p,
        None => Seq::empty(),
    } + apc_end()
}

/// The control data holds no `;`.
pub open spec fn no_semicolon(p: Seq<u8>) -> bool {
    forall|i: int| 0 <= i < p.len() ==> p[i] != 0x3bu8
}

/// Where the parts of a graphics command stand: the control data right after
/// the 3-byte start; then either `;`, the payload and the 2-byte end, or the
/// end at once.
pub proof fn lemma_graphics_command_layout(p: Seq<u8>, d: Option<Seq<u8>>)
    ensures
        ({
            let c = graphics_command(p, d);
            &&& c.subrange(0, 3) == apc_start()
            &&& c.subrange(3, 3 + p.len() as int) == p
            &&& c.subrange(c.len() - 2, c.len() as int) == apc_end()
            &&& match d {
                Some(q) => {
                    &&& c.len() == p.len() + q.len() + 6
                    &&& c[3 + p.len() as int] == 0x3bu8
                    &&& c.subrange(4 + p.len() as int, c.len() - 2) == q
                },
                None => c.len() == p.len() + 5,
            }
        }),
{
    let c = graphics_command(p, d);
    match d {
        Some(q) => {
            assert(c == apc_start() + p + (seq![0x3bu8] + q) + apc_end());
            assert(c.subrange(0, 3) == apc_start());
            assert(c.subrange(3, 3 + p.len() as int) == p);
            assert(c.subrange(4 + p.len() as int, c.len() - 2) == q);
            assert(c.subrange(c.len() - 2, c.len() as int) == apc_end());
        },
        None => {
            assert(c == apc_start() + p + Seq::<u8>::empty() + apc_end());
            assert(c.subrange(0, 3) == apc_start());
            assert(c.subrange(3, 3 + p.len() as int) == p);
            assert(c.subrange(c.len() - 2, c.len() as int) == apc_end());
        },
    }
}

/// A command without payload holds no `;` when its control data holds none.
proof fn lemma_no_payload_no_semicolon(p: Seq<u8>, k: int)
    requires
        no_semicolon(p),
        0 <= k < graphics_command(p, None).len(),
    ensures
        graphics_command(p, None)[k] != 0x3bu8,
{
    let c = graphics_command(p, None);
    assert(c == apc_start() + p + Seq::<u8>::empty() + apc_end());
    if 3 <= k < 3 + p.len() as int {
        assert(c[k] == p[k - 3]);
    }
}

/// A graphics command whose control data holds no `;` determines its control
/// data and its payload: the control data runs from after the start to the
/// first `;` (or to the end where there is none), and the payload from there
/// to the end.
pub proof fn lemma_graphics_command_injective(
    p1: Seq<u8>,
    d1: Option<Seq<u8>>,
    p2: Seq<u8>,
    d2: Option<Seq<u8>>,
)
    requires
        no_semicolon(p1),
        no_semicolon(p2),
        graphics_command(p1, d1) == graphics_command(p2, d2),
    ensures
        p1 == p2,
        d1 == d2,
{
    let c = graphics_command(p1, d1);
    lemma_graphics_command_layout(p1, d1);
    lemma_graphics_command_layout(p2, d2);
    let l1 = p1.len() as int;
    let l2 = p2.len() as int;
    match (d1, d2) {
        (Some(q1), Some(q2)) => {
            if l1 < l2 {
                assert(c.subrange(3, 3 + l2)[l1] == p2[l1]);
                assert(false);
            }
            if l2 < l1 {
                assert(c.subrange(3, 3 + l1)[l2] == p1[l2]);
                assert(false);
            }
        },
        (Some(q1), None) => {
            lemma_no_payload_no_semicolon(p2, 3 + l1);
        },
        (None, Some(q2)) => {
            lemma_no_payload_no_semicolon(p1, 3 + l2);
        },
        (None, None) => {},
    }
}

/// Builds a graphics command from raw control data and payload bytes.
pub fn graphics_command_bytes(params: &[u8], payload: Option<&[u8]>) -> (r: Vec<u8>)
    ensures
        r@ == graphics_command(params@, match payload {
            Some(p) => Some(p@),
            None => None,
        }),
{
    let mut buf: Vec<u8> = Vec::new();
    buf.push(0x1b);
    buf.push(0x5f);
    buf.push(0x47);
    push_bytes(&mut buf, params);
    let ghost mid = buf@;
    match payload {
        Some(data) => {
            buf.push(0x3b);
            push_bytes(&mut buf, data);
            proof {
                assert(buf@ == mid + (seq![0x3bu8] + data@));
            }
        },
        None => {
            proof {
                assert(buf@ == mid + Seq::<u8>::empty());
            }
        },
    }
    buf.push(0x1b);
    buf.push(0x5c);
    buf
}

/// Builds a kitty graphics protocol escape sequence; the parameters are
/// `key=value` pairs written directly into the sequence.
pub fn gr_cmd(params: &str, payload: Option<&str>) -> (r: Vec<u8>)
    ensures
        r@ == graphics_command(lit(params), match payload {
            Some(p) => Some(lit(p)),
            None => None,
        }),
{
    match payload {
        Some(p) => graphics_command_bytes(params.as_bytes(), Some(p.as_bytes())),
        None => graphics_command_bytes(params.as_bytes(), None),
    }
}


/// Control data of the command that transmits and displays the first frame
/// of animation `id`: `a=T,i={id},f=32,s={w},v={h},q=2`.
pub open spec fn transmit_params(id: u32, w: u32, h: u32) -> Seq<u8> {
    lit("a=T,i=") + decimal(id as nat) + lit(",f=32,s=") + decimal(w as nat) + lit(",v=")
        + decimal(h as nat) + lit(",q=2")
}

/// Control data of the command that adds a further frame shown for `dur`
/// milliseconds: `a=f,i={id},f=32,s={w},v={h},z={dur},q=2`.
pub open spec fn frame_params(id: u32, w: u32, h: u32, dur: u32) -> Seq<u8> {
    lit("a=f,i=") + decimal(id as nat) + lit(",f=32,s=") + decimal(w as nat) + lit(",v=")
        + decimal(h as nat) + lit(",z=") + decimal(dur as nat) + lit(",q=2")
}

/// Control data that sets the display time of the root frame:
/// `a=a,i={id},r=1,z={d0},q=2`.
pub open spec fn root_gap_params(id: u32, d0: u32) -> Seq<u8> {
    lit("a=a,i=") + decimal(id as nat) + lit(",r=1,z=") + decimal(d0 as nat) + lit(",q=2")
}

/// Control data that starts the animation looping forever:
/// `a=a,i={id},s=3,v=1,q=2`.
pub open spec fn start_loop_params(id: u32) -> Seq<u8> {
    lit("a=a,i=") + decimal(id as nat) + lit(",s=3,v=1,q=2")
}

/// Builds `transmit_params`.
pub fn transmit_params_bytes(id: u32, w: u32, h: u32) -> (r: Vec<u8>)
    ensures
        r@ == transmit_params(id, w, h),
{
    let mut b: Vec<u8> = Vec::new();
    push_str(&mut b, "a=T,i=");
    push_decimal(&mut b, id as u64);
    push_str(&mut b, ",f=32,s=");
    push_decimal(&mut b, w as u64);
    push_str(&mut b, ",v=");
    push_decimal(&mut b, h as u64);
    push_str(&mut b, ",q=2");
    b
}

/// Builds `frame_params`.
pub fn frame_params_bytes(id: u32, w: u32, h: u32, dur: u32) -> (r: Vec<u8>)
    ensures
        r@ == frame_params(id, w, h, dur),
{
    let mut b: Vec<u8> = Vec::new();
    push_str(&mut b, "a=f,i=");
    push_decimal(&mut b, id as u64);
    push_str(&mut b, ",f=32,s=");
    push_decimal(&mut b, w as u64);
    push_str(&mut b, ",v=");
    push_decimal(&mut b, h as u64);
    push_str(&mut b, ",z=");
    push_decimal(&mut b, dur as u64);
    push_str(&mut b, ",q=2");
    b
}

/// Builds `root_gap_params`.
pub fn root_gap_params_bytes(id: u32, d0: u32) -> (r: Vec<u8>)
    ensures
        r@ == root_gap_params(id, d0),
{
    let mut b: Vec<u8> = Vec::new();
    push_str(&mut b, "a=a,i=");
    push_decimal(&mut b, id as u64);
    push_str(&mut b, ",r=1,z=");
    push_decimal(&mut b, d0 as u64);
    push_str(&mut b, ",q=2");
    b
}

/// Builds `start_loop_params`.
pub fn start_loop_params_bytes(id: u32) -> (r: Vec<u8>)
    ensures
        r@ == start_loop_params(id),
{
    let mut b: Vec<u8> = Vec::new();
    push_str(&mut b, "a=a,i=");
    push_decimal(&mut b, id as u64);
    push_str(&mut b, ",s=3,v=1,q=2");
    b
}

/// The commands that play an animation: one per frame to send (each sent
/// with its pixels through a temporary file), then the command that sets the
/// root frame's gap and the one that starts the endless loop.
pub struct PlayPlan {
    /// Control data for each frame to send, in order.
    pub frame_params: Vec<Vec<u8>>,
    /// Command that sets the display time of the first frame.
    pub root_gap: Vec<u8>,
    /// Command that starts the animation looping.
    pub start_loop: Vec<u8>,
}

/// Number of frames that playback sends: the first, then as many more as
/// there are both further frames and further durations.
pub open spec fn frames_sent(n_frames: nat, n_durations: nat) -> nat {
    1 + if n_frames <= n_durations {
        (n_frames - 1) as nat
    } else {
        (n_durations - 1) as nat
    }
}

/// Playback sends every frame that has a display time: as many as the
/// smaller of the frame count and the duration count, no fewer.
pub proof fn lemma_frames_sent_is_smaller_count(n_frames: nat, n_durations: nat)
    requires
        n_frames >= 1,
        n_durations >= 1,
    ensures
        frames_sent(n_frames, n_durations) <= n_frames,
        frames_sent(n_frames, n_durations) <= n_durations,
        frames_sent(n_frames, n_durations) == n_frames || frames_sent(n_frames, n_durations)
            == n_durations,
{
}

/// Plans the playback of animation `id` with `n_frames` frames: the first
/// frame is transmitted and displayed; frame `k` after it is added with
/// display time `meta.durations[k]`; the first frame's time is then set to
/// `meta.durations[0]`, and the animation loops forever.
pub fn play_plan(meta: &Meta, n_frames: usize, id: u32) -> (p: PlayPlan)
    requires
        n_frames >= 1,
        meta.durations@.len() >= 1,
    ensures
        p.frame_params@.len() == frames_sent(n_frames as nat, meta.durations@.len()),
        p.frame_params@.len() <= n_frames,
        p.frame_params@.len() <= meta.durations@.len(),
        p.frame_params@.len() == n_frames || p.frame_params@.len() == meta.durations@.len(),
        p.frame_params@[0]@ == transmit_params(id, meta.width, meta.height),
        forall|k: int|
            1 <= k < p.frame_params@.len() ==> #[trigger] p.frame_params@[k]@ == frame_params(
                id,
                meta.width,
                meta.height,
                meta.durations@[k],
            ),
        p.root_gap@ == graphics_command(root_gap_params(id, meta.durations@[0]), None),
        p.start_loop@ == graphics_command(start_loop_params(id), None),
{
    let w = meta.width;
    let h = meta.height;
    let count: usize = if n_frames <= meta.durations.len() {
        n_frames
    } else {
        meta.durations.len()
    };
    let mut params: Vec<Vec<u8>> = Vec::new();
    params.push(transmit_params_bytes(id, w, h));
    let mut k: usize = 1;
    while k < count
        invariant
            1 <= k <= count,
            count <= meta.durations@.len(),
            params@.len() == k,
            params@[0]@ == transmit_params(id, w, h),
            forall|j: int|
                1 <= j < k ==> #[trigger] params@[j]@ == frame_params(
                    id,
                    w,
                    h,
                    meta.durations@[j],
                ),
        decreases count - k,
    {
        params.push(frame_params_bytes(id, w, h, meta.durations[k]));
        k = k + 1;
    }
    let gap = root_gap_params_bytes(id, meta.durations[0]);
    let start = start_loop_params_bytes(id);
    PlayPlan {
        frame_params: params,
        root_gap: graphics_command_bytes(gap.as_slice(), None),
        start_loop: graphics_command_bytes(start.as_slice(), None),
    }
}

/// The standard, padded Base64 text (`A-Z a-z 0-9 + /`, `=` padding) of
/// `data`, as bytes.
pub uninterp spec fn base64_standard(data: Seq<u8>) -> Seq<u8>;

/// Length of the padded Base64 text of `n` bytes fits in `usize`.
pub open spec fn base64_len_fits(n: nat) -> bool {
    (n / 3) * 4 + (if n % 3 == 0 {
        0int
    } else {
        4int
    }) <= usize::MAX
}

/// Calls `base64::Engine::encode` on `base64::engine::general_purpose::STANDARD`
/// and hands back the text's bytes. Claimed: the bytes are `base64_standard`
/// of the input, so one input always gives one text. The crate panics when
/// the text's length overflows `usize`, which `requires` rules out.
#[verifier::external_body]
fn encode_base64(data: &[u8]) -> (r: Vec<u8>)
    requires
        base64_len_fits(data@.len()),
    ensures
        r@ == base64_standard(data@),
{
    base64::engine::general_purpose::STANDARD.encode(data).into_bytes()
}

/// The command that transmits the pixels kept in the temporary file at
/// `path`: control data `params` followed by `,t=t`, and the Base64 text of
/// the path as payload.
pub open spec fn temp_file_command(params: Seq<u8>, path: Seq<u8>) -> Seq<u8> {
    graphics_command(params + lit(",t=t"), Some(base64_standard(path)))
}

/// The temporary-file command, byte by byte: `ESC _ G`, the control data,
/// `,t=t;`, the Base64 text of the path, `ESC \`.
pub proof fn lemma_temp_file_command_layout(params: Seq<u8>, path: Seq<u8>)
    ensures
        temp_file_command(params, path) == apc_start() + params + lit(",t=t") + seq![0x3bu8]
            + base64_standard(path) + apc_end(),
{
    assert(temp_file_command(params, path) =~= apc_start() + params + lit(",t=t") + seq![0x3bu8]
        + base64_standard(path) + apc_end());
}

/// Builds the command that has the terminal read a frame's pixels from the
/// temporary file at `path` (the terminal deletes such files itself).
pub fn temp_file_command_bytes(params: &[u8], path: &[u8]) -> (r: Vec<u8>)
    requires
        base64_len_fits(path@.len()),
    ensures
        r@ == temp_file_command(params@, path@),
{
    let encoded = encode_base64(path);
    let mut control: Vec<u8> = Vec::new();
    push_bytes(&mut control, params);
    push_str(&mut control, ",t=t");
    graphics_command_bytes(control.as_slice(), Some(encoded.as_slice()))
}

/// The query that asks the terminal whether it supports the graphics
/// protocol: a 1x1 RGB image, action query, payload `AAAA`.
pub open spec fn support_query() -> Seq<u8> {
    graphics_command(lit("i=31,s=1,v=1,a=q,t=d,f=24"), Some(lit("AAAA")))
}

/// Builds `support_query`.
pub fn support_query_bytes() -> (r: Vec<u8>)
    ensures
        r@ == support_query(),
{
    gr_cmd("i=31,s=1,v=1,a=q,t=d,f=24", Some("AAAA"))
}

/// The bytes of `OK`.
pub open spec fn ok_marker() -> Seq<u8> {
    seq![0x4fu8, 0x4bu8]
}

/// Whether the terminal's answer to `support_query` reports success: it
/// holds `OK`.
pub fn response_ok(resp: &[u8]) -> (r: bool)
    ensures
        r == contains_seq(resp@, ok_marker()),
{
    let marker: Vec<u8> = vec![0x4fu8, 0x4bu8];
    proof {
        assert(marker@ == ok_marker());
    }
    contains_bytes(resp, marker.as_slice())
}

} // verus!
