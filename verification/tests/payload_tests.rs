use mushy::payload::{build_frame_payload, cleanup_payload, clamp_to_size, push_decimal};
use mushy::walk::{PetState, TerminalBounds};

fn bounds() -> TerminalBounds {
    TerminalBounds { term_cols: 80, term_rows: 24, left_col: 0, right_col: 70, top_row: 0, bottom_row: 20 }
}

#[test]
fn decimal_digits() {
    let mut v = Vec::new();
    push_decimal(&mut v, 0);
    push_decimal(&mut v, 7);
    push_decimal(&mut v, 4096);
    push_decimal(&mut v, u32::MAX);
    assert_eq!(v, b"074096".iter().copied().chain(b"4294967295".iter().copied()).collect::<Vec<u8>>());
}

#[test]
fn clamp_into_terminal() {
    assert_eq!(clamp_to_size(5, 80), 5);
    assert_eq!(clamp_to_size(90, 80), 79);
    assert_eq!(clamp_to_size(3, 0), 0);
}

#[test]
fn single_chunk_payload() {
    let state = PetState { dir: mushy::direction::Direction::Right, frame_idx: 0, pid: 21, current_id: 42, z_index: 345 };
    let out = build_frame_payload(&state, &bounds(), 3, 4, "QUJD").unwrap();
    let expected = "\x1b7\x1b[5;4H\x1b_Gf=100,a=T,i=43,z=345,q=2,m=0;QUJD\x1b\\\x1b_Ga=d,d=i,i=42,q=2\x1b\\\x1b8";
    assert_eq!(out, expected.as_bytes());
}

#[test]
fn payload_cell_is_clamped() {
    let state = PetState { dir: mushy::direction::Direction::Right, frame_idx: 0, pid: 21, current_id: 43, z_index: 100 };
    let out = build_frame_payload(&state, &bounds(), 500, 30, "").unwrap();
    let expected = "\x1b7\x1b[24;80H\x1b_Ga=d,d=i,i=43,q=2\x1b\\\x1b8";
    assert_eq!(out, expected.as_bytes());
}

#[test]
fn payload_in_several_chunks() {
    let state = PetState { dir: mushy::direction::Direction::Up, frame_idx: 0, pid: 1, current_id: 2, z_index: 100 };
    let b64: String = "A".repeat(4096 + 10);
    let out = build_frame_payload(&state, &bounds(), 0, 0, &b64).unwrap();
    let expected = format!(
        "\x1b7\x1b[1;1H\x1b_Gf=100,a=T,i=3,z=100,q=2,m=1;{}\x1b\\\x1b_Gm=0;{}\x1b\\\x1b_Ga=d,d=i,i=2,q=2\x1b\\\x1b8",
        "A".repeat(4096),
        "A".repeat(10)
    );
    assert_eq!(out, expected.as_bytes());
}

#[test]
fn payload_refused_when_a_chunk_splits_a_character() {
    let state = PetState { dir: mushy::direction::Direction::Up, frame_idx: 0, pid: 1, current_id: 2, z_index: 100 };
    let mut text = "A".repeat(4095);
    text.push('é');
    assert!(build_frame_payload(&state, &bounds(), 0, 0, &text).is_none());
    let mut text = "A".repeat(4094);
    text.push('é');
    assert!(build_frame_payload(&state, &bounds(), 0, 0, &text).is_some());
}

#[test]
fn cleanup_deletes_both_images() {
    let out = cleanup_payload(21);
    assert_eq!(out, "\x1b_Ga=d,d=i,i=42,q=2\x1b\\\x1b_Ga=d,d=i,i=43,q=2\x1b\\".as_bytes());
}
