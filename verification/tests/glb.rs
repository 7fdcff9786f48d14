use localgpt::glb::{append_view, glb_container, pad_to_four, push_le_u32};

#[test]
fn words_are_little_endian() {
    let mut out = Vec::new();
    push_le_u32(&mut out, 0x0403_0201);
    push_le_u32(&mut out, 2);
    assert_eq!(out, vec![1, 2, 3, 4, 2, 0, 0, 0]);
}

#[test]
fn padding_reaches_a_multiple_of_four() {
    let mut v = vec![1u8, 2, 3, 4, 5];
    pad_to_four(&mut v, 0x20);
    assert_eq!(v, vec![1, 2, 3, 4, 5, 0x20, 0x20, 0x20]);
    let mut w = vec![9u8; 8];
    pad_to_four(&mut w, 0);
    assert_eq!(w.len(), 8);
}

#[test]
fn views_follow_each_other() {
    let mut bin = Vec::new();
    let one = 1.0f32.to_bits();
    let r = append_view(&mut bin, &[one, 0, one]);
    assert_eq!((r.byte_offset, r.byte_length), (0, 12));
    let r = append_view(&mut bin, &[7]);
    assert_eq!((r.byte_offset, r.byte_length), (12, 4));
    assert_eq!(bin.len(), 16);
    assert_eq!(&bin[0..4], &1.0f32.to_le_bytes());
    assert_eq!(&bin[12..16], &[7, 0, 0, 0]);
}

#[test]
fn container_frames_json_and_binary() {
    let g = glb_container(b"{}", &[]);
    let expected: Vec<u8> = vec![
        b'g', b'l', b'T', b'F', 2, 0, 0, 0, 32, 0, 0, 0, // header
        4, 0, 0, 0, b'J', b'S', b'O', b'N', b'{', b'}', b' ', b' ', // JSON chunk
        0, 0, 0, 0, b'B', b'I', b'N', 0, // empty BIN chunk
    ];
    assert_eq!(g, expected);
}

#[test]
fn container_lengths_match_contents() {
    let json = br#"{"asset":{"version":"2.0"}}"#;
    let bin = [1u8, 2, 3, 4, 5, 6];
    let g = glb_container(json, &bin);
    let total = u32::from_le_bytes([g[8], g[9], g[10], g[11]]) as usize;
    assert_eq!(total, g.len());
    assert_eq!(g.len() % 4, 0);
    let jl = u32::from_le_bytes([g[12], g[13], g[14], g[15]]) as usize;
    assert_eq!(jl, 28);
    assert_eq!(&g[20..20 + json.len()], &json[..]);
    let bl = u32::from_le_bytes([g[20 + jl], g[21 + jl], g[22 + jl], g[23 + jl]]) as usize;
    assert_eq!(bl, 8);
    assert_eq!(&g[28 + jl..28 + jl + 6], &bin[..]);
    assert_eq!(&g[28 + jl + 6..], &[0, 0]);
}
