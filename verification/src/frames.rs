//! The pet's frames: every GIF frame scaled to the target size and turned
//! once for each walking direction, as Base64 PNG files ready for the Kitty
//! graphics protocol.
use vstd::prelude::*;

use crate::codec::{
    base64_encode, base64_standard, gif_fails_at_end, gif_pending, gif_read_info,
    gif_read_next_frame, gif_rgba_stream, png_encode_rgba, png_of_rgba, resize_exact_rgba,
    rgba_dims_fit, rgba_fits, rgba_from_raw, rgba_len, rgba_resized_nearest, rgba_rotated180,
    rgba_rotated270, rgba_rotated90, rotate180_rgba, rotate270_rgba, rotate90_rgba, RawFrame,
};
use crate::direction::Direction;
use vstd::utf8::is_ascii_chars;
use crate::codec::lemma_base64_ascii;

verus! {

/// Why encoding the frames failed.
pub enum FrameError {
    /// The GIF decoder refused the file or one of its frames.
    Decode(gif::DecodingError),
    /// A decoded frame's buffer is too small for its size.
    RawFrame,
    /// Scaling a frame to the target size needs a buffer longer than `usize`
    /// can count (`ImageBuffer::new` refuses it).
    TooLarge,
    /// A frame could not be encoded as PNG; the encoder's error.
    Encode(image::ImageError),
}

/// The kind of a `FrameError`, as a plain value.
#[derive(PartialEq, Eq, Structural)]
pub enum FrameFault {
    Decode,
    RawFrame,
    TooLarge,
    Encode,
}

impl FrameError {
    pub open spec fn fault(&self) -> FrameFault {
        match self {
            FrameError::Decode(_) => FrameFault::Decode,
            FrameError::RawFrame => FrameFault::RawFrame,
            FrameError::TooLarge => FrameFault::TooLarge,
            FrameError::Encode(_) => FrameFault::Encode,
        }
    }
}

/// The frames of the pet, one list per walking direction. The lists have one
/// entry per GIF frame, in the GIF's order.
pub struct PetFrames {
    pub right: Vec<String>,
    pub up: Vec<String>,
    pub left: Vec<String>,
    pub down: Vec<String>,
}

impl PetFrames {
    /// The list for a direction.
    pub open spec fn frames_for(&self, dir: Direction) -> Vec<String> {
        match dir {
            Direction::Right => self.right,
            Direction::Up => self.up,
            Direction::Left => self.left,
            Direction::Down => self.down,
        }
    }

    /// The four lists have the same length, so that one frame index serves
    /// every direction.
    pub open spec fn wf(&self) -> bool {
        &&& self.up@.len() == self.right@.len()
        &&& self.left@.len() == self.right@.len()
        &&& self.down@.len() == self.right@.len()
    }

    /// The number of frames.
    pub open spec fn len(&self) -> nat {
        self.right@.len()
    }

    /// Frame `i` in the four directions, in the order Right, Up, Left, Down.
    pub open spec fn quad(&self, i: int) -> Seq<Seq<char>> {
        seq![self.right@[i]@, self.up@[i]@, self.left@[i]@, self.down@[i]@]
    }

    /// All frames, each in the four directions.
    pub open spec fn quads(&self) -> Seq<Seq<Seq<char>>> {
        Seq::new(self.len(), |i: int| self.quad(i))
    }

    /// Frame `idx` for a walking direction. One index serves all directions.
    pub fn frame_at(&self, dir: Direction, idx: usize) -> (res: &String)
        requires
            self.wf(),
            idx < self.len(),
        ensures
            *res == self.frames_for(dir)@[idx as int],
    {
        &self.get(dir)[idx]
    }

    /// The frames for a walking direction.
    pub fn get(&self, dir: Direction) -> (res: &Vec<String>)
        ensures
            *res == self.frames_for(dir),
    {
        match dir {
            Direction::Right => &self.right,
            Direction::Up => &self.up,
            Direction::Left => &self.left,
            Direction::Down => &self.down,
        }
    }
}

/// The position of a direction in the order Right, Up, Left, Down.
pub open spec fn dir_index(dir: Direction) -> int {
    match dir {
        Direction::Right => 0,
        Direction::Up => 1,
        Direction::Left => 2,
        Direction::Down => 3,
    }
}

/// By how many degrees (clockwise) a frame is turned for a walking direction.
/// A GIF is drawn walking right; walking counter-clockwise the pet's feet
/// point outwards from the bottom edge, walking clockwise from the top edge.
pub open spec fn spec_rotation_angle(dir: Direction, cw: bool) -> u32 {
    if cw {
        match dir {
            Direction::Right => 180,
            Direction::Up => 90,
            Direction::Left => 0,
            Direction::Down => 270,
        }
    } else {
        match dir {
            Direction::Right => 0,
            Direction::Up => 270,
            Direction::Left => 180,
            Direction::Down => 90,
        }
    }
}

/// The angle by which frames are turned for a walking direction.
pub fn rotation_angle(dir: Direction, cw: bool) -> (angle: u32)
    ensures
        angle == spec_rotation_angle(dir, cw),
{
    if cw {
        match dir {
            Direction::Right => 180,
            Direction::Up => 90,
            Direction::Left => 0,
            Direction::Down => 270,
        }
    } else {
        match dir {
            Direction::Right => 0,
            Direction::Up => 270,
            Direction::Left => 180,
            Direction::Down => 90,
        }
    }
}

/// The angles that the encoder accepts.
pub open spec fn is_quarter_angle(angle: u32) -> bool {
    angle == 0 || angle == 90 || angle == 180 || angle == 270
}

/// The width of an image of `width` x `height` once turned by `angle`.
pub open spec fn rotated_width(width: u32, height: u32, angle: u32) -> u32 {
    if angle == 90 || angle == 270 { height } else { width }
}

/// The height of an image of `width` x `height` once turned by `angle`.
pub open spec fn rotated_height(width: u32, height: u32, angle: u32) -> u32 {
    if angle == 90 || angle == 270 { width } else { height }
}

/// The RGBA bytes of an image of `width` x `height` turned clockwise by
/// `angle`.
pub open spec fn rgba_rotated(width: u32, height: u32, pixels: Seq<u8>, angle: u32) -> Seq<u8> {
    if angle == 90 {
        rgba_rotated90(width as int, height as int, pixels)
    } else if angle == 180 {
        rgba_rotated180(width as int, height as int, pixels)
    } else if angle == 270 {
        rgba_rotated270(width as int, height as int, pixels)
    } else {
        pixels
    }
}

/// The Base64 PNG of an image turned by `angle`, or `None` when the PNG
/// encoder fails.
pub open spec fn spec_encode_rotated(width: u32, height: u32, pixels: Seq<u8>, angle: u32) -> Option<Seq<char>> {
    match png_of_rgba(
        rotated_width(width, height, angle),
        rotated_height(width, height, angle),
        rgba_rotated(width, height, pixels, angle),
    ) {
        Some(png) => Some(base64_standard(png)),
        None => None,
    }
}

/// Turns an RGBA image clockwise by `angle` degrees, encodes it as PNG and
/// the PNG as Base64.
pub fn encode_rotated(width: u32, height: u32, pixels: &Vec<u8>, angle: u32) -> (res: Result<String, FrameError>)
    requires
        is_quarter_angle(angle),
        pixels@.len() == rgba_len(width as int, height as int),
        rgba_dims_fit(width as int, height as int),
    ensures
        res is Ok <==> spec_encode_rotated(width, height, pixels@, angle) is Some,
        res matches Ok(s) ==> spec_encode_rotated(width, height, pixels@, angle) == Some(s@),
        res matches Err(e) ==> e.fault() == FrameFault::Encode,
{
    let rotated = if angle == 0 {
        pixels.clone()
    } else if angle == 90 {
        rotate90_rgba(width, height, pixels.clone())
    } else if angle == 180 {
        rotate180_rgba(width, height, pixels.clone())
    } else {
        rotate270_rgba(width, height, pixels.clone())
    };
    let (out_width, out_height) = if angle == 90 || angle == 270 { (height, width) } else { (width, height) };
    assert(rotated@ == rgba_rotated(width, height, pixels@, angle));
    assert(rgba_len(out_width as int, out_height as int) == rgba_len(width as int, height as int)) by (nonlinear_arith)
        requires
            (out_width == width && out_height == height) || (out_width == height && out_height == width),
    ;
    match png_encode_rgba(out_width, out_height, rotated) {
        Ok(png) => Ok(base64_encode(png.as_slice())),
        Err(e) => Err(FrameError::Encode(e)),
    }
}

/// Whether a frame `width` pixels wide can be scaled to `size` x `size`: the
/// buffers that scaling allocates (`width` x `size` and `size` x `size`
/// pixels) have lengths that `usize` can count.
pub open spec fn scale_fits(width: u32, size: u32) -> bool {
    &&& rgba_len(width as int, size as int) <= usize::MAX
    &&& rgba_dims_fit(size as int, size as int)
}

/// Whether `scale_fits` holds.
pub fn scale_supported(width: u32, size: u32) -> (ok: bool)
    ensures
        ok == scale_fits(width, size),
{
    let max = usize::MAX as u128;
    let w = width as u128;
    let s = size as u128;
    assert(w * s <= 0xffff_ffffu128 * 0xffff_ffffu128 && s * s <= 0xffff_ffffu128 * 0xffff_ffffu128) by (nonlinear_arith)
        requires
            s <= 0xffff_ffffu128,
            w <= 0xffff_ffffu128,
    ;
    let wide = 4 * (w * s);
    let square = 4 * (s * s);
    assert(wide == rgba_len(width as int, size as int) && square == rgba_len(size as int, size as int)) by (nonlinear_arith)
        requires
            wide == 4 * (w * s),
            square == 4 * (s * s),
            s == size,
            w == width,
    ;
    wide <= max && 4 * s <= max && square <= max
}

/// What becomes of one decoded frame: its Base64 PNG in the four directions
/// (Right, Up, Left, Down), or the error met first.
#[verifier::opaque]
pub open spec fn spec_encode_frame(frame: (u16, u16, Seq<u8>), size: u32, cw: bool) -> Result<Seq<Seq<char>>, FrameFault> {
    let (w, h, buf) = frame;
    if !rgba_fits(w as u32, h as u32, buf.len()) {
        Err(FrameFault::RawFrame)
    } else if !scale_fits(w as u32, size) {
        Err(FrameFault::TooLarge)
    } else {
        let small = rgba_resized_nearest(w as u32, h as u32, buf, size);
        let r = spec_encode_rotated(size, size, small, spec_rotation_angle(Direction::Right, cw));
        let u = spec_encode_rotated(size, size, small, spec_rotation_angle(Direction::Up, cw));
        let l = spec_encode_rotated(size, size, small, spec_rotation_angle(Direction::Left, cw));
        let d = spec_encode_rotated(size, size, small, spec_rotation_angle(Direction::Down, cw));
        if r is Some && u is Some && l is Some && d is Some {
            Ok(seq![r.unwrap(), u.unwrap(), l.unwrap(), d.unwrap()])
        } else {
            Err(FrameFault::Encode)
        }
    }
}

/// What becomes of a stream of decoded frames that ends with an error
/// (`fails`) or cleanly: every frame encoded, or the first error met.
pub open spec fn spec_encode_stream(frames: Seq<(u16, u16, Seq<u8>)>, fails: bool, size: u32, cw: bool) -> Result<Seq<Seq<Seq<char>>>, FrameFault>
    decreases frames.len(),
{
    if frames.len() == 0 {
        if fails {
            Err(FrameFault::Decode)
        } else {
            Ok(Seq::empty())
        }
    } else {
        match spec_encode_frame(frames[0], size, cw) {
            Err(f) => Err(f),
            Ok(q) => match spec_encode_stream(frames.drop_first(), fails, size, cw) {
                Err(f) => Err(f),
                Ok(rest) => Ok(seq![q] + rest),
            },
        }
    }
}

/// What becomes of a GIF file: the encoded frames, or the first error met.
pub open spec fn spec_encode_gif(bytes: Seq<u8>, size: u32, cw: bool) -> Result<Seq<Seq<Seq<char>>>, FrameFault> {
    match gif_rgba_stream(bytes) {
        None => Err(FrameFault::Decode),
        Some((frames, fails)) => spec_encode_stream(frames, fails, size, cw),
    }
}

/// Encodes one decoded frame for the four directions.
fn encode_frame(frame: RawFrame, size: u32, cw: bool) -> (res: Result<(String, String, String, String), FrameError>)
    ensures
        match res {
            Ok((r, u, l, d)) => spec_encode_frame(frame.view_frame(), size, cw) == Ok::<Seq<Seq<char>>, FrameFault>(seq![r@, u@, l@, d@]),
            Err(e) => spec_encode_frame(frame.view_frame(), size, cw) == Err::<Seq<Seq<char>>, FrameFault>(e.fault()),
        },
{
    reveal(spec_encode_frame);
    let width = frame.width as u32;
    let height = frame.height as u32;
    let raw = match rgba_from_raw(width, height, frame.buffer) {
        Some(raw) => raw,
        None => return Err(FrameError::RawFrame),
    };
    if !scale_supported(width, size) {
        return Err(FrameError::TooLarge);
    }
    let small = resize_exact_rgba(width, height, raw, size);
    let r = encode_rotated(size, size, &small, rotation_angle(Direction::Right, cw))?;
    let u = encode_rotated(size, size, &small, rotation_angle(Direction::Up, cw))?;
    let l = encode_rotated(size, size, &small, rotation_angle(Direction::Left, cw))?;
    let d = encode_rotated(size, size, &small, rotation_angle(Direction::Down, cw))?;
    Ok((r, u, l, d))
}


/// The encoded frames of a prefix of a stream, each frame encoding cleanly.
pub open spec fn encoded_prefix(frames: Seq<(u16, u16, Seq<u8>)>, k: int, size: u32, cw: bool) -> Seq<Seq<Seq<char>>> {
    Seq::new(k as nat, |j: int| spec_encode_frame(frames[j], size, cw)->Ok_0)
}

/// Encoding a stream is encoding a prefix whose frames all encode cleanly,
/// then the rest.
proof fn lemma_encode_stream_split(frames: Seq<(u16, u16, Seq<u8>)>, fails: bool, size: u32, cw: bool, k: int)
    requires
        0 <= k <= frames.len(),
        forall|j: int| 0 <= j < k ==> spec_encode_frame(#[trigger] frames[j], size, cw) is Ok,
    ensures
        spec_encode_stream(frames, fails, size, cw) == match spec_encode_stream(frames.skip(k), fails, size, cw) {
            Ok(rest) => Ok(encoded_prefix(frames, k, size, cw) + rest),
            Err(f) => Err::<Seq<Seq<Seq<char>>>, FrameFault>(f),
        },
    decreases k,
{
    if k == 0 {
        assert(frames.skip(0) =~= frames);
        assert(encoded_prefix(frames, 0, size, cw) =~= Seq::<Seq<Seq<char>>>::empty());
        match spec_encode_stream(frames, fails, size, cw) {
            Ok(rest) => {
                assert(encoded_prefix(frames, k, size, cw) + rest =~= rest);
            },
            Err(_) => {},
        }
    } else {
        let tail = frames.drop_first();
        assert forall|j: int| 0 <= j < k - 1 implies spec_encode_frame(#[trigger] tail[j], size, cw) is Ok by {
            assert(tail[j] == frames[j + 1]);
        }
        lemma_encode_stream_split(tail, fails, size, cw, k - 1);
        assert(tail.skip(k - 1) =~= frames.skip(k));
        assert(spec_encode_frame(frames[0], size, cw) is Ok);
        match spec_encode_stream(frames.skip(k), fails, size, cw) {
            Ok(rest) => {
                assert(seq![spec_encode_frame(frames[0], size, cw)->Ok_0] + (encoded_prefix(tail, k - 1, size, cw) + rest)
                    =~= encoded_prefix(frames, k, size, cw) + rest);
            },
            Err(_) => {},
        }
    }
}

/// Decodes a GIF file and encodes each of its frames for the four walking
/// directions: scaled to `target_size` x `target_size` (nearest neighbour),
/// turned by the direction's angle, written as PNG and then as Base64.
/// The result is exactly `spec_encode_gif`: the frames in order, or the first
/// error met.
pub fn encode_frames(gif_bytes: Vec<u8>, target_size: u32, cw: bool) -> (res: Result<PetFrames, FrameError>)
    ensures
        match res {
            Ok(frames) => frames.wf() && spec_encode_gif(gif_bytes@, target_size, cw) == Ok::<Seq<Seq<Seq<char>>>, FrameFault>(frames.quads()),
            Err(e) => spec_encode_gif(gif_bytes@, target_size, cw) == Err::<Seq<Seq<Seq<char>>>, FrameFault>(e.fault()),
        },
{
    let ghost bytes = gif_bytes@;
    let mut stream = match gif_read_info(gif_bytes) {
        Ok(stream) => stream,
        Err(e) => return Err(FrameError::Decode(e)),
    };
    let ghost all = gif_pending(stream);
    let ghost fails = gif_fails_at_end(stream);
    let mut frames = PetFrames { right: Vec::new(), up: Vec::new(), left: Vec::new(), down: Vec::new() };
    assert(all.skip(0) =~= all);
    loop
        invariant
            bytes == gif_bytes@,
            gif_rgba_stream(bytes) == Some((all, fails)),
            frames.wf(),
            frames.len() <= all.len(),
            gif_pending(stream) == all.skip(frames.len() as int),
            gif_fails_at_end(stream) == fails,
            forall|j: int| 0 <= j < frames.len() ==> spec_encode_frame(#[trigger] all[j], target_size, cw) == Ok::<Seq<Seq<char>>, FrameFault>(frames.quad(j)),
        decreases gif_pending(stream).len(),
    {
        let ghost k = frames.len() as int;
        proof {
            lemma_encode_stream_split(all, fails, target_size, cw, k);
            assert(encoded_prefix(all, k, target_size, cw) =~= frames.quads());
        }
        match gif_read_next_frame(&mut stream) {
            Err(e) => {
                assert(all.skip(k) =~= Seq::<(u16, u16, Seq<u8>)>::empty());
                assert(spec_encode_stream(all.skip(k), fails, target_size, cw) == Err::<Seq<Seq<Seq<char>>>, FrameFault>(FrameFault::Decode));
                assert(spec_encode_gif(bytes, target_size, cw) == spec_encode_stream(all, fails, target_size, cw));
                return Err(FrameError::Decode(e));
            },
            Ok(None) => {
                assert(all.skip(k) =~= Seq::<(u16, u16, Seq<u8>)>::empty());
                assert(spec_encode_stream(all.skip(k), fails, target_size, cw) == Ok::<Seq<Seq<Seq<char>>>, FrameFault>(Seq::empty()));
                assert(frames.quads() + Seq::<Seq<Seq<char>>>::empty() =~= frames.quads());
                assert(spec_encode_gif(bytes, target_size, cw) == spec_encode_stream(all, fails, target_size, cw));
                return Ok(frames);
            },
            Ok(Some(frame)) => {
                assert(frame.view_frame() == all[k]);
                assert(all.skip(k).drop_first() =~= all.skip(k + 1));
                let (r, u, l, d) = match encode_frame(frame, target_size, cw) {
                    Ok(q) => q,
                    Err(e) => {
                        assert(all.skip(k)[0] == all[k]);
                        assert(spec_encode_stream(all.skip(k), fails, target_size, cw) == Err::<Seq<Seq<Seq<char>>>, FrameFault>(e.fault()));
                        assert(spec_encode_gif(bytes, target_size, cw) == spec_encode_stream(all, fails, target_size, cw));
                        return Err(e);
                    },
                };
                let ghost old_frames = frames;
                frames.right.push(r);
                frames.up.push(u);
                frames.left.push(l);
                frames.down.push(d);
                assert forall|j: int| 0 <= j < frames.len() implies spec_encode_frame(#[trigger] all[j], target_size, cw) == Ok::<Seq<Seq<char>>, FrameFault>(frames.quad(j)) by {
                    if j < k {
                        assert(frames.quad(j) == old_frames.quad(j));
                    }
                }
            },
        }
    }
}


/// The four encodings of a frame are ASCII.
pub open spec fn quad_ascii(q: Seq<Seq<char>>) -> bool {
    forall|d: int| 0 <= d < q.len() ==> is_ascii_chars(#[trigger] q[d])
}

proof fn lemma_encode_frame_ascii(frame: (u16, u16, Seq<u8>), size: u32, cw: bool)
    ensures
        spec_encode_frame(frame, size, cw) matches Ok(q) ==> quad_ascii(q),
{
    reveal(spec_encode_frame);
    let (w, h, buf) = frame;
    if rgba_fits(w as u32, h as u32, buf.len()) {
        let small = rgba_resized_nearest(w as u32, h as u32, buf, size);
        let dirs = seq![Direction::Right, Direction::Up, Direction::Left, Direction::Down];
        assert forall|d: int| 0 <= d < 4 implies (spec_encode_rotated(size, size, small, spec_rotation_angle(#[trigger] dirs[d], cw)) matches Some(t) ==> is_ascii_chars(t)) by {
            let pixels = rgba_rotated(size, size, small, spec_rotation_angle(dirs[d], cw));
            if let Some(png) = png_of_rgba(rotated_width(size, size, spec_rotation_angle(dirs[d], cw)), rotated_height(size, size, spec_rotation_angle(dirs[d], cw)), pixels) {
                lemma_base64_ascii(png);
            }
        }
        assert(dirs[0] == Direction::Right && dirs[1] == Direction::Up && dirs[2] == Direction::Left && dirs[3] == Direction::Down);
    }
}

proof fn lemma_encode_stream_ascii(frames: Seq<(u16, u16, Seq<u8>)>, fails: bool, size: u32, cw: bool)
    ensures
        spec_encode_stream(frames, fails, size, cw) matches Ok(qs) ==> forall|i: int| 0 <= i < qs.len() ==> quad_ascii(#[trigger] qs[i]),
    decreases frames.len(),
{
    if frames.len() > 0 {
        lemma_encode_frame_ascii(frames[0], size, cw);
        lemma_encode_stream_ascii(frames.drop_first(), fails, size, cw);
        if let Ok(qs) = spec_encode_stream(frames, fails, size, cw) {
            let q = spec_encode_frame(frames[0], size, cw)->Ok_0;
            let rest = spec_encode_stream(frames.drop_first(), fails, size, cw)->Ok_0;
            assert(qs == seq![q] + rest);
            assert forall|i: int| 0 <= i < qs.len() implies quad_ascii(#[trigger] qs[i]) by {
                if i > 0 {
                    assert(qs[i] == rest[i - 1]);
                }
            }
        }
    }
}

/// Every frame text that encoding a GIF produces is ASCII, in every
/// direction (so every part of its transmission is UTF-8 and the frame is
/// always drawn).
pub proof fn lemma_encoded_frames_ascii(bytes: Seq<u8>, size: u32, cw: bool)
    ensures
        spec_encode_gif(bytes, size, cw) matches Ok(qs) ==> forall|i: int, d: int|
            0 <= i < qs.len() && 0 <= d < qs[i].len() ==> is_ascii_chars(#[trigger] qs[i][d]),
{
    if let Some((frames, fails)) = gif_rgba_stream(bytes) {
        lemma_encode_stream_ascii(frames, fails, size, cw);
        if let Ok(qs) = spec_encode_gif(bytes, size, cw) {
            assert forall|i: int, d: int| 0 <= i < qs.len() && 0 <= d < qs[i].len() implies is_ascii_chars(#[trigger] qs[i][d]) by {
                assert(quad_ascii(qs[i]));
            }
        }
    }
}


/// Clockwise, each direction is turned half a turn further than
/// counter-clockwise.
pub proof fn lemma_clockwise_angle_half_turn(dir: Direction)
    ensures
        spec_rotation_angle(dir, true) == (spec_rotation_angle(dir, false) + 180) % 360,
        is_quarter_angle(spec_rotation_angle(dir, true)),
        is_quarter_angle(spec_rotation_angle(dir, false)),
{
}

/// Walking clockwise, a frame shows in each direction what it shows walking
/// counter-clockwise in the opposite direction: Right and Left swap, Up and
/// Down swap.
pub proof fn lemma_clockwise_frames_are_opposite(frame: (u16, u16, Seq<u8>), size: u32)
    ensures
        spec_encode_frame(frame, size, true) == match spec_encode_frame(frame, size, false) {
            Ok(q) => Ok(seq![q[2], q[3], q[0], q[1]]),
            Err(f) => Err::<Seq<Seq<char>>, FrameFault>(f),
        },
{
    reveal(spec_encode_frame);
    if let Ok(q) = spec_encode_frame(frame, size, false) {
        assert(seq![q[2], q[3], q[0], q[1]] =~= spec_encode_frame(frame, size, true)->Ok_0);
    }
}


/// A frame's four encodings with Right and Left, and Up and Down, exchanged.
pub open spec fn swap_opposite(q: Seq<Seq<char>>) -> Seq<Seq<char>> {
    seq![q[2], q[3], q[0], q[1]]
}

proof fn lemma_clockwise_stream_opposite(frames: Seq<(u16, u16, Seq<u8>)>, fails: bool, size: u32)
    ensures
        spec_encode_stream(frames, fails, size, true) == match spec_encode_stream(frames, fails, size, false) {
            Ok(qs) => Ok(qs.map_values(|q: Seq<Seq<char>>| swap_opposite(q))),
            Err(f) => Err::<Seq<Seq<Seq<char>>>, FrameFault>(f),
        },
    decreases frames.len(),
{
    if frames.len() == 0 {
        if !fails {
            assert(Seq::<Seq<Seq<char>>>::empty().map_values(|q: Seq<Seq<char>>| swap_opposite(q)) =~= Seq::empty());
        }
    } else {
        lemma_clockwise_frames_are_opposite(frames[0], size);
        lemma_clockwise_stream_opposite(frames.drop_first(), fails, size);
        if let Ok(q) = spec_encode_frame(frames[0], size, false) {
            if let Ok(rest) = spec_encode_stream(frames.drop_first(), fails, size, false) {
                assert((seq![q] + rest).map_values(|q: Seq<Seq<char>>| swap_opposite(q))
                    =~= seq![swap_opposite(q)] + rest.map_values(|q: Seq<Seq<char>>| swap_opposite(q)));
            }
        }
    }
}

/// Encoding a GIF for walking clockwise gives the frames of walking
/// counter-clockwise with opposite directions exchanged: clockwise Right is
/// counter-clockwise Left, Left is Right, Up is Down and Down is Up (and the
/// same error where there is one).
pub proof fn lemma_clockwise_gif_opposite(bytes: Seq<u8>, size: u32)
    ensures
        spec_encode_gif(bytes, size, true) == match spec_encode_gif(bytes, size, false) {
            Ok(qs) => Ok(qs.map_values(|q: Seq<Seq<char>>| swap_opposite(q))),
            Err(f) => Err::<Seq<Seq<Seq<char>>>, FrameFault>(f),
        },
{
    if let Some((frames, fails)) = gif_rgba_stream(bytes) {
        lemma_clockwise_stream_opposite(frames, fails, size);
    }
}

/// Frame `i` of `cw` shows in each direction what frame `i` of `ccw` shows in
/// the opposite direction.
pub open spec fn opposite_at(cw: PetFrames, ccw: PetFrames, i: int) -> bool {
    &&& cw.right@[i]@ == ccw.left@[i]@
    &&& cw.left@[i]@ == ccw.right@[i]@
    &&& cw.up@[i]@ == ccw.down@[i]@
    &&& cw.down@[i]@ == ccw.up@[i]@
}

/// The frame sets that `encode_frames` gives for one GIF counter-clockwise
/// (`ccw`) and clockwise (`cw`) hold the same frames with opposite
/// directions exchanged.
pub proof fn lemma_clockwise_frame_sets_opposite(bytes: Seq<u8>, size: u32, ccw: PetFrames, cw: PetFrames)
    requires
        ccw.wf(),
        cw.wf(),
        spec_encode_gif(bytes, size, false) == Ok::<Seq<Seq<Seq<char>>>, FrameFault>(ccw.quads()),
        spec_encode_gif(bytes, size, true) == Ok::<Seq<Seq<Seq<char>>>, FrameFault>(cw.quads()),
    ensures
        cw.len() == ccw.len(),
        forall|i: int| 0 <= i < cw.len() ==> #[trigger] opposite_at(cw, ccw, i),
{
    lemma_clockwise_gif_opposite(bytes, size);
    let mapped = ccw.quads().map_values(|q: Seq<Seq<char>>| swap_opposite(q));
    assert(cw.quads() == mapped);
    assert(cw.quads().len() == ccw.quads().len());
    assert forall|i: int| 0 <= i < cw.len() implies #[trigger] opposite_at(cw, ccw, i) by {
        assert(cw.quads()[i] == cw.quad(i));
        assert(mapped[i] == swap_opposite(ccw.quad(i)));
    }
}


/// What each direction of an encoded frame shows, for a frame of any width
/// and height: the frame scaled to `size` x `size` and turned clockwise by
/// the direction's angle (counter-clockwise walking: Right 0, Up 270, Left
/// 180, Down 90 degrees; clockwise: Right 180, Up 90, Left 0, Down 270), as
/// Base64 PNG.
pub proof fn lemma_frame_directions(frame: (u16, u16, Seq<u8>), size: u32, cw: bool, d: Direction)
    requires
        spec_encode_frame(frame, size, cw) is Ok,
    ensures
        ({
            let (w, h, buf) = frame;
            let small = rgba_resized_nearest(w as u32, h as u32, buf, size);
            let angle: u32 = match d {
                Direction::Right => if cw { 180u32 } else { 0u32 },
                Direction::Up => if cw { 90u32 } else { 270u32 },
                Direction::Left => if cw { 0u32 } else { 180u32 },
                Direction::Down => if cw { 270u32 } else { 90u32 },
            };
            &&& spec_encode_frame(frame, size, cw)->Ok_0.len() == 4
            &&& spec_encode_rotated(size, size, small, angle) == Some(spec_encode_frame(frame, size, cw)->Ok_0[dir_index(d)])
        }),
{
    reveal(spec_encode_frame);
}

/// An encoded stream holds one entry per frame, the entry of frame `i` being
/// that frame's own encoding.
proof fn lemma_encode_stream_entries(frames: Seq<(u16, u16, Seq<u8>)>, fails: bool, size: u32, cw: bool)
    ensures
        spec_encode_stream(frames, fails, size, cw) matches Ok(qs) ==> {
            &&& qs.len() == frames.len()
            &&& forall|i: int| 0 <= i < qs.len() ==> spec_encode_frame(#[trigger] frames[i], size, cw) == Ok::<Seq<Seq<char>>, FrameFault>(qs[i])
        },
    decreases frames.len(),
{
    if frames.len() > 0 {
        lemma_encode_stream_entries(frames.drop_first(), fails, size, cw);
        if let Ok(qs) = spec_encode_stream(frames, fails, size, cw) {
            let q = spec_encode_frame(frames[0], size, cw)->Ok_0;
            let rest = spec_encode_stream(frames.drop_first(), fails, size, cw)->Ok_0;
            assert(qs == seq![q] + rest);
            assert forall|i: int| 0 <= i < qs.len() implies spec_encode_frame(#[trigger] frames[i], size, cw) == Ok::<Seq<Seq<char>>, FrameFault>(qs[i]) by {
                if i > 0 {
                    assert(qs[i] == rest[i - 1]);
                    assert(frames[i] == frames.drop_first()[i - 1]);
                }
            }
        }
    }
}

/// What `encode_frames` gives, frame by frame and direction by direction:
/// when a GIF encodes cleanly, it has one entry per decoded frame, and entry
/// `i` for direction `d` is decoded frame `i` (of whatever width and height)
/// scaled to `size` x `size` and turned by `d`'s angle, as Base64 PNG.
pub proof fn lemma_encoded_gif_directions(bytes: Seq<u8>, size: u32, cw: bool, i: int, d: Direction)
    requires
        spec_encode_gif(bytes, size, cw) is Ok,
        0 <= i < spec_encode_gif(bytes, size, cw)->Ok_0.len(),
    ensures
        ({
            let frames = gif_rgba_stream(bytes)->Some_0.0;
            let qs = spec_encode_gif(bytes, size, cw)->Ok_0;
            let (w, h, buf) = frames[i];
            &&& gif_rgba_stream(bytes) is Some
            &&& qs.len() == frames.len()
            &&& spec_encode_rotated(size, size, rgba_resized_nearest(w as u32, h as u32, buf, size), spec_rotation_angle(d, cw))
                == Some(qs[i][dir_index(d)])
        }),
{
    let (frames, fails) = gif_rgba_stream(bytes)->Some_0;
    lemma_encode_stream_entries(frames, fails, size, cw);
    assert(spec_encode_frame(frames[i], size, cw) is Ok);
    lemma_frame_directions(frames[i], size, cw, d);
}

} // verus!
