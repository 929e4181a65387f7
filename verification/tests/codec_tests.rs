use snake_dqn::codec::{get_u32, get_u64, get_words, put_u32, put_u64, put_words};

#[test]
fn put_u32_is_little_endian() {
    let mut out: Vec<u8> = vec![9];
    put_u32(&mut out, 0x1234_5678);
    assert_eq!(out, vec![9, 0x78, 0x56, 0x34, 0x12]);
    let mut all: Vec<u8> = Vec::new();
    put_u32(&mut all, u32::MAX);
    put_u32(&mut all, 0);
    assert_eq!(all, vec![255, 255, 255, 255, 0, 0, 0, 0]);
}

#[test]
fn put_u32_matches_to_le_bytes() {
    let values: Vec<u32> = vec![0, 1, 255, 256, 65535, 65536, 0x0100_0000, 0xdead_beef, u32::MAX];
    for v in values {
        let mut out: Vec<u8> = Vec::new();
        put_u32(&mut out, v);
        assert_eq!(out, v.to_le_bytes().to_vec());
        assert_eq!(get_u32(&out, 0), v);
    }
}

#[test]
fn put_u64_matches_to_le_bytes() {
    let values: Vec<u64> =
        vec![0, 1, 0xffff_ffff, 0x1_0000_0000, 0x0123_4567_89ab_cdef, u64::MAX];
    for v in values {
        let mut out: Vec<u8> = Vec::new();
        put_u64(&mut out, v);
        assert_eq!(out, v.to_le_bytes().to_vec());
        assert_eq!(get_u64(&out, 0), v);
    }
}

#[test]
fn floats_pass_through_their_bits() {
    let values: Vec<f32> = vec![0.0, -0.0, 1.5, -2.25e-7, f32::INFINITY, f32::NAN];
    for v in values {
        let mut out: Vec<u8> = Vec::new();
        put_u32(&mut out, v.to_bits());
        assert_eq!(out, v.to_le_bytes().to_vec());
    }
}

#[test]
fn get_reads_at_an_offset() {
    let data: Vec<u8> = vec![0xaa, 0x01, 0x02, 0x03, 0x04, 0x05, 0x06, 0x07, 0x08, 0xbb];
    assert_eq!(get_u32(&data, 1), 0x0403_0201);
    assert_eq!(get_u32(&data, 5), 0x0807_0605);
    assert_eq!(get_u64(&data, 1), 0x0807_0605_0403_0201);
}

#[test]
fn words_round_trip() {
    let ws: Vec<u32> = vec![1, 0x8000_0000, 0x7fc0_0000, 0, u32::MAX];
    let mut out: Vec<u8> = vec![7, 7, 7];
    put_words(&mut out, &ws);
    assert_eq!(out.len(), 3 + 4 * ws.len());
    out.push(9);
    assert_eq!(get_words(&out, 3, ws.len()), ws);
    assert_eq!(get_words(&out, 7, 2), vec![0x8000_0000, 0x7fc0_0000]);
    assert_eq!(get_words(&out, 0, 0), Vec::<u32>::new());
}
