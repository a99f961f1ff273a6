//! The bytes written to the terminal for one frame: a Kitty graphics protocol
//! transmission of the frame's PNG at the pet's cell, then the deletion of the
//! previous image, framed by saving and restoring the cursor position.
use vstd::prelude::*;
use vstd::slice::slice_subrange;
use vstd::string::StringSliceAdditionalSpecFns;
use vstd::utf8::valid_utf8;

use crate::frames::{lemma_encoded_frames_ascii, spec_encode_gif};
use crate::walk::{pid_fits, spec_next_id, PetState, TerminalBounds};

verus! {

/// The decimal digits of a number, most significant first, as ASCII bytes.
pub open spec fn decimal(n: nat) -> Seq<u8>
    decreases n,
{
    if n < 10 {
        seq![(48 + n) as u8]
    } else {
        decimal(n / 10).push((48 + n % 10) as u8)
    }
}

/// Appends the decimal digits of `n`.
pub fn push_decimal(buf: &mut Vec<u8>, n: u32)
    ensures
        final(buf)@ == old(buf)@ + decimal(n as nat),
    decreases n,
{
    if n >= 10 {
        push_decimal(buf, n / 10);
    }
    buf.push(48 + (n % 10) as u8);
}

/// Appends all bytes of a slice.
pub fn push_all(buf: &mut Vec<u8>, bytes: &[u8])
    ensures
        final(buf)@ == old(buf)@ + bytes@,
{
    let ghost start = buf@;
    let mut i: usize = 0;
    while i < bytes.len()
        invariant
            i <= bytes@.len(),
            buf@ == start + bytes@.take(i as int),
        decreases bytes@.len() - i,
    {
        buf.push(bytes[i]);
        i = i + 1;
        assert(bytes@.take(i as int) =~= bytes@.take(i - 1) + seq![bytes@[i - 1]]);
    }
    assert(bytes@.take(i as int) =~= bytes@);
}

/// `ESC 7`: save the cursor position.
pub open spec fn ansi_save() -> Seq<u8> {
    seq![27u8, 55u8]
}

/// `ESC 8`: restore the cursor position.
pub open spec fn ansi_restore() -> Seq<u8> {
    seq![27u8, 56u8]
}

/// `ESC [ row+1 ; col+1 H`: move the cursor to a cell (zero-based).
pub open spec fn ansi_move_to(col: u16, row: u16) -> Seq<u8> {
    seq![27u8, 91u8] + decimal(row as nat + 1) + seq![59u8] + decimal(col as nat + 1) + seq![72u8]
}

/// The ANSI bytes of `crossterm::cursor::SavePosition`, from its
/// `crossterm::Command::write_ansi`. Trusted: the source writes `ESC 7`.
#[verifier::external_body]
fn ansi_save_position() -> (res: Vec<u8>)
    ensures
        res@ == ansi_save(),
{
    let mut s = String::new();
    let _ = crossterm::Command::write_ansi(&crossterm::cursor::SavePosition, &mut s);
    s.into_bytes()
}

/// The ANSI bytes of `crossterm::cursor::RestorePosition`, from its
/// `crossterm::Command::write_ansi`. Trusted: the source writes `ESC 8`.
#[verifier::external_body]
fn ansi_restore_position() -> (res: Vec<u8>)
    ensures
        res@ == ansi_restore(),
{
    let mut s = String::new();
    let _ = crossterm::Command::write_ansi(&crossterm::cursor::RestorePosition, &mut s);
    s.into_bytes()
}

/// The ANSI bytes of `crossterm::cursor::MoveTo(col, row)`, from its
/// `crossterm::Command::write_ansi`. Trusted: the source writes
/// `ESC [ {row + 1} ; {col + 1} H` with both numbers in decimal; it adds 1 to
/// each `u16`, hence the bounds.
#[verifier::external_body]
fn ansi_move_to_cell(col: u16, row: u16) -> (res: Vec<u8>)
    requires
        col < u16::MAX,
        row < u16::MAX,
    ensures
        res@ == ansi_move_to(col, row),
{
    let mut s = String::new();
    let _ = crossterm::Command::write_ansi(&crossterm::cursor::MoveTo(col, row), &mut s);
    s.into_bytes()
}

/// Whether a byte slice is UTF-8, with `std::str::from_utf8`. Trusted: it
/// accepts exactly the well-formed UTF-8 sequences.
#[verifier::external_body]
fn is_utf8(bytes: &[u8]) -> (ok: bool)
    ensures
        ok == valid_utf8(bytes@),
{
    std::str::from_utf8(bytes).is_ok()
}

/// `ESC \`: the end of a Kitty graphics command.
pub open spec fn kitty_end() -> Seq<u8> {
    seq![27u8, 92u8]
}

/// `ESC _ G f=100,a=T,i={id},z={z},q=2,m={m};`: the first part of a PNG
/// transmission that displays image `id` at the cursor in layer `z`, with no
/// replies; `m` is 1 when more parts follow.
pub open spec fn kitty_first_head(id: u32, z: u32, m: nat) -> Seq<u8> {
    seq![27u8, 95u8, 71u8, 102u8, 61u8, 49u8, 48u8, 48u8, 44u8, 97u8, 61u8, 84u8, 44u8, 105u8, 61u8]
        + decimal(id as nat) + seq![44u8, 122u8, 61u8] + decimal(z as nat)
        + seq![44u8, 113u8, 61u8, 50u8, 44u8, 109u8, 61u8] + decimal(m) + seq![59u8]
}

/// `ESC _ G m={m};`: a later part of a transmission.
pub open spec fn kitty_more_head(m: nat) -> Seq<u8> {
    seq![27u8, 95u8, 71u8, 109u8, 61u8] + decimal(m) + seq![59u8]
}

/// `ESC _ G a=d,d=i,i={id},q=2 ESC \`: delete image `id`, with no replies.
pub open spec fn kitty_delete(id: u32) -> Seq<u8> {
    seq![27u8, 95u8, 71u8, 97u8, 61u8, 100u8, 44u8, 100u8, 61u8, 105u8, 44u8, 105u8, 61u8]
        + decimal(id as nat) + seq![44u8, 113u8, 61u8, 50u8] + kitty_end()
}

/// The largest number of payload bytes in one part of a transmission.
pub open spec fn chunk_size() -> int {
    4096
}

/// The size of the first part of `data`.
pub open spec fn first_chunk_len(data: Seq<u8>) -> int {
    if data.len() <= chunk_size() { data.len() as int } else { chunk_size() }
}

/// The transmission of `data` cut in parts of 4096 bytes (the last one
/// shorter); `first` tells whether the first of these parts opens the
/// transmission.
pub open spec fn kitty_chunks(data: Seq<u8>, first: bool, id: u32, z: u32) -> Seq<u8>
    decreases data.len(),
{
    if data.len() == 0 {
        Seq::empty()
    } else {
        let k = first_chunk_len(data);
        let rest = data.skip(k);
        let m: nat = if rest.len() == 0 { 0 } else { 1 };
        let head = if first { kitty_first_head(id, z, m) } else { kitty_more_head(m) };
        head + data.take(k) + kitty_end() + kitty_chunks(rest, false, id, z)
    }
}

/// Every part of `data` is UTF-8 on its own.
pub open spec fn chunks_utf8(data: Seq<u8>) -> bool
    decreases data.len(),
{
    data.len() == 0 || (valid_utf8(data.take(first_chunk_len(data))) && chunks_utf8(
        data.skip(first_chunk_len(data)),
    ))
}

/// The column or row at which an image is placed: the pet's cell, pulled back
/// into the terminal (`clamp(0, size - 1)`).
pub open spec fn clamp_cell(v: u16, size: u16) -> u16 {
    let max: u16 = if size >= 1 { (size - 1) as u16 } else { 0 };
    if v > max { max } else { v }
}

/// Pulls a column or row back into a terminal dimension of `size` cells.
pub fn clamp_to_size(v: u16, size: u16) -> (res: u16)
    ensures
        res == clamp_cell(v, size),
{
    let max = size.saturating_sub(1);
    if v > max { max } else { v }
}

/// The bytes of one frame: save the cursor, move it to the pet's cell,
/// transmit the frame's Base64 PNG as image `next_id`, delete image
/// `current_id`, restore the cursor.
pub open spec fn frame_payload(col: u16, row: u16, next_id: u32, z: u32, current_id: u32, b64: Seq<u8>) -> Seq<u8> {
    ansi_save() + ansi_move_to(col, row) + kitty_chunks(b64, true, next_id, z) + kitty_delete(current_id)
        + ansi_restore()
}

/// Appends one part of a transmission.
fn push_chunk(buf: &mut Vec<u8>, chunk: &[u8], first: bool, last: bool, id: u32, z: u32)
    ensures
        final(buf)@ == old(buf)@ + (if first { kitty_first_head(id, z, if last { 0 } else { 1 }) } else {
            kitty_more_head(if last { 0 } else { 1 })
        }) + chunk@ + kitty_end(),
{
    let m: u32 = if last { 0 } else { 1 };
    let ghost b0 = buf@;
    if first {
        let a = [27u8, 95u8, 71u8, 102u8, 61u8, 49u8, 48u8, 48u8, 44u8, 97u8, 61u8, 84u8, 44u8, 105u8, 61u8];
        push_all(buf, a.as_slice());
        push_decimal(buf, id);
        let b = [44u8, 122u8, 61u8];
        push_all(buf, b.as_slice());
        push_decimal(buf, z);
        let c = [44u8, 113u8, 61u8, 50u8, 44u8, 109u8, 61u8];
        push_all(buf, c.as_slice());
        push_decimal(buf, m);
        buf.push(59u8);
        assert(buf@ =~= b0 + kitty_first_head(id, z, m as nat));
    } else {
        let a = [27u8, 95u8, 71u8, 109u8, 61u8];
        push_all(buf, a.as_slice());
        push_decimal(buf, m);
        buf.push(59u8);
        assert(buf@ =~= b0 + kitty_more_head(m as nat));
    }
    let ghost b1 = buf@;
    push_all(buf, chunk);
    buf.push(27u8);
    buf.push(92u8);
    assert(buf@ =~= b1 + chunk@ + kitty_end());
}

/// Appends the deletion of an image.
fn push_delete(buf: &mut Vec<u8>, id: u32)
    ensures
        final(buf)@ == old(buf)@ + kitty_delete(id),
{
    let ghost b0 = buf@;
    let a = [27u8, 95u8, 71u8, 97u8, 61u8, 100u8, 44u8, 100u8, 61u8, 105u8, 44u8, 105u8, 61u8];
    push_all(buf, a.as_slice());
    push_decimal(buf, id);
    let b = [44u8, 113u8, 61u8, 50u8, 27u8, 92u8];
    push_all(buf, b.as_slice());
    assert(buf@ =~= b0 + kitty_delete(id));
}

/// Builds the bytes that draw the pet's next frame at cell (`col`, `row`)
/// (pulled back into the terminal) and remove the image drawn before. The
/// frame's Base64 text is sent in parts of 4096 bytes; the result is `None`
/// exactly when one of these parts is not UTF-8 on its own.
pub fn build_frame_payload(state: &PetState, bounds: &TerminalBounds, col: u16, row: u16, b64: &str) -> (res: Option<Vec<u8>>)
    requires
        pid_fits(state.pid),
    ensures
        chunks_utf8(b64.spec_bytes()) ==> res is Some,
        !chunks_utf8(b64.spec_bytes()) ==> res is None,
        res matches Some(out) ==> out@ == frame_payload(
            clamp_cell(col, bounds.term_cols),
            clamp_cell(row, bounds.term_rows),
            spec_next_id(state.pid, state.current_id),
            state.z_index,
            state.current_id,
            b64.spec_bytes(),
        ),
{
    let col = clamp_to_size(col, bounds.term_cols);
    let row = clamp_to_size(row, bounds.term_rows);
    let next_id = state.next_id();
    let mut frame_buf: Vec<u8> = Vec::with_capacity(16384);
    let save = ansi_save_position();
    push_all(&mut frame_buf, save.as_slice());
    let move_to = ansi_move_to_cell(col, row);
    push_all(&mut frame_buf, move_to.as_slice());
    let ghost prefix = frame_buf@;
    assert(prefix =~= ansi_save() + ansi_move_to(col, row));

    let bytes = b64.as_bytes();
    let len = bytes.len();
    let ghost data = bytes@;
    let mut start: usize = 0;
    assert(data.skip(0) =~= data);
    while start < len
        invariant
            len == data.len(),
            bytes@ == data,
            data == b64.spec_bytes(),
            start <= len,
            prefix + kitty_chunks(data, true, next_id, state.z_index) == frame_buf@ + kitty_chunks(
                data.skip(start as int),
                start == 0,
                next_id,
                state.z_index,
            ),
            chunks_utf8(data) == chunks_utf8(data.skip(start as int)),
        decreases len - start,
    {
        let ghost rest = data.skip(start as int);
        let end = if len - start > 4096 { start + 4096 } else { len };
        let chunk = slice_subrange(bytes, start, end);
        let ghost k = end - start;
        assert(k == first_chunk_len(rest));
        assert(chunk@ =~= rest.take(k));
        assert(rest.skip(k) =~= data.skip(end as int));
        if !is_utf8(chunk) {
            assert(rest.len() > 0);
            assert(!chunks_utf8(rest));
            return None;
        }
        let ghost before = frame_buf@;
        push_chunk(&mut frame_buf, chunk, start == 0, end == len, next_id, state.z_index);
        let ghost m: nat = if rest.skip(k).len() == 0 { 0 } else { 1 };
        assert((end == len) == (rest.skip(k).len() == 0));
        let ghost head = if start == 0 { kitty_first_head(next_id, state.z_index, m) } else { kitty_more_head(m) };
        assert(kitty_chunks(rest, start == 0, next_id, state.z_index) == head + rest.take(k) + kitty_end()
            + kitty_chunks(rest.skip(k), false, next_id, state.z_index));
        assert(frame_buf@ == before + head + rest.take(k) + kitty_end());
        assert(before + kitty_chunks(rest, start == 0, next_id, state.z_index)
            =~= frame_buf@ + kitty_chunks(rest.skip(k), false, next_id, state.z_index));
        start = end;
    }
    assert(data.skip(start as int) =~= Seq::<u8>::empty());
    assert(frame_buf@ =~= prefix + kitty_chunks(data, true, next_id, state.z_index));
    push_delete(&mut frame_buf, state.current_id);
    let restore = ansi_restore_position();
    push_all(&mut frame_buf, restore.as_slice());
    assert(frame_buf@ =~= frame_payload(col, row, next_id, state.z_index, state.current_id, data));
    Some(frame_buf)
}


/// The bytes that remove both images of a pet when its daemon stops.
pub fn cleanup_payload(pid: u32) -> (out: Vec<u8>)
    requires
        pid_fits(pid),
    ensures
        out@ == kitty_delete((2 * pid) as u32) + kitty_delete((2 * pid + 1) as u32),
{
    let mut out: Vec<u8> = Vec::new();
    push_delete(&mut out, pid * 2);
    push_delete(&mut out, pid * 2 + 1);
    assert(out@ =~= kitty_delete((2 * pid) as u32) + kitty_delete((2 * pid + 1) as u32));
    out
}

/// Every byte is below 128.
pub open spec fn ascii_bytes(data: Seq<u8>) -> bool {
    forall|i: int| 0 <= i < data.len() ==> data[i] < 128
}

/// ASCII bytes are well-formed UTF-8.
pub proof fn lemma_ascii_bytes_utf8(data: Seq<u8>)
    requires
        ascii_bytes(data),
    ensures
        valid_utf8(data),
    decreases data.len(),
{
    if data.len() > 0 {
        let b = data[0];
        assert(b < 128);
        assert((b & 0x7F) as u32 == b as u32) by (bit_vector)
            requires
                b < 128,
        ;
        let rest = data.subrange(1, data.len() as int);
        assert(vstd::utf8::pop_first_scalar(data) == rest);
        lemma_ascii_bytes_utf8(rest);
    }
}

/// Cut in parts, ASCII bytes give parts that are each UTF-8.
pub proof fn lemma_ascii_chunks_utf8(data: Seq<u8>)
    requires
        ascii_bytes(data),
    ensures
        chunks_utf8(data),
    decreases data.len(),
{
    if data.len() > 0 {
        let k = first_chunk_len(data);
        lemma_ascii_bytes_utf8(data.take(k));
        lemma_ascii_chunks_utf8(data.skip(k));
    }
}

/// A frame whose Base64 text is ASCII (as all Base64 text is) is always
/// drawn: its payload is never refused.
pub proof fn lemma_ascii_frame_always_drawn(b64: &str)
    requires
        vstd::string::is_ascii(b64),
    ensures
        chunks_utf8(b64.spec_bytes()),
{
    broadcast use vstd::string::is_ascii_spec_bytes;
    let data = b64.spec_bytes();
    assert forall|i: int| 0 <= i < data.len() implies data[i] < 128 by {
        assert(data[i] == b64@[i] as u8);
        assert('\0' <= b64@[i] <= '\u{7f}');
    }
    lemma_ascii_chunks_utf8(data);
}


/// Every frame that encoding a GIF produces is drawn: the payload that
/// carries it is never refused.
pub proof fn lemma_encoded_frame_always_drawn(bytes: Seq<u8>, size: u32, cw: bool, i: int, d: int, b64: &str)
    requires
        spec_encode_gif(bytes, size, cw) matches Ok(qs) && 0 <= i < qs.len() && 0 <= d < qs[i].len()
            && b64@ == qs[i][d],
    ensures
        chunks_utf8(b64.spec_bytes()),
{
    lemma_encoded_frames_ascii(bytes, size, cw);
    lemma_ascii_frame_always_drawn(b64);
}


/// The number of parts of 4096 bytes (the last one shorter) that `len`
/// bytes are cut into.
pub open spec fn part_count(len: nat) -> int {
    ((len + 4095) / 4096) as int
}

/// Part `i` of `data`: bytes `4096 * i` up to `4096 * (i + 1)`, or the end.
pub open spec fn part_of(data: Seq<u8>, i: int) -> Seq<u8> {
    let end = if 4096 * (i + 1) <= data.len() { 4096 * (i + 1) } else { data.len() as int };
    data.subrange(4096 * i, end)
}

/// The `m` flag of part `i` of `n`: 1 while more parts follow, 0 on the
/// last part only.
pub open spec fn more_flag(i: int, n: int) -> nat {
    if i == n - 1 { 0 } else { 1 }
}

/// Parts `i` to `n - 1` of a transmission, each with its own head: the first
/// part opens the transmission (image id, layer), later parts only carry
/// their flag; each part ends with `ESC \`.
pub open spec fn parts_from(data: Seq<u8>, i: int, n: int, id: u32, z: u32) -> Seq<u8>
    decreases n - i,
{
    if i >= n {
        Seq::empty()
    } else {
        let head = if i == 0 { kitty_first_head(id, z, more_flag(i, n)) } else { kitty_more_head(more_flag(i, n)) };
        head + part_of(data, i) + kitty_end() + parts_from(data, i + 1, n, id, z)
    }
}

/// `n` parts cover `len` bytes: all but the last part are full.
proof fn lemma_part_count(len: nat)
    ensures
        len == 0 ==> part_count(len) == 0,
        len > 0 ==> part_count(len) >= 1 && 4096 * (part_count(len) - 1) < len <= 4096 * part_count(len),
{
    vstd::arithmetic::div_mod::lemma_fundamental_div_mod((len + 4095) as int, 4096);
    vstd::arithmetic::div_mod::lemma_mod_bound((len + 4095) as int, 4096);
}

proof fn lemma_parts_from(data: Seq<u8>, i: int, id: u32, z: u32)
    requires
        0 <= i < part_count(data.len()),
    ensures
        kitty_chunks(data.skip(4096 * i), i == 0, id, z) == parts_from(data, i, part_count(data.len()), id, z),
    decreases part_count(data.len()) - i,
{
    lemma_part_count(data.len());
    let n = part_count(data.len());
    let rest = data.skip(4096 * i);
    assert(4096 * i < data.len());
    let k = first_chunk_len(rest);
    assert(rest.take(k) =~= part_of(data, i));
    if i == n - 1 {
        assert(rest.skip(k).len() == 0);
        assert(parts_from(data, i + 1, n, id, z) == Seq::<u8>::empty());
        assert(kitty_chunks(rest.skip(k), false, id, z) == Seq::<u8>::empty());
    } else {
        assert(4096 * (i + 1) < data.len());
        assert(rest.skip(k) =~= data.skip(4096 * (i + 1)));
        assert(rest.skip(k).len() > 0);
        lemma_parts_from(data, i + 1, id, z);
    }
}

/// How a frame's Base64 text is sent: cut in parts of 4096 bytes (the last
/// one shorter), part 0 opening the transmission with image id and layer,
/// every part but the last flagged `m=1` and the last one only flagged
/// `m=0`.
pub proof fn lemma_transmission_parts(data: Seq<u8>, id: u32, z: u32)
    ensures
        kitty_chunks(data, true, id, z) == parts_from(data, 0, part_count(data.len()), id, z),
{
    lemma_part_count(data.len());
    if data.len() > 0 {
        assert(data.skip(0) =~= data);
        lemma_parts_from(data, 0, id, z);
    }
}

} // verus!
