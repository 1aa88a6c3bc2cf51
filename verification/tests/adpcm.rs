use sdr_scraper::audio::ima_adpcm::IMA_ADPCM_Decoder;

#[test]
fn new_decoder_starts_at_zero() {
    let d = IMA_ADPCM_Decoder::new();
    assert_eq!(d.step_index(), 0);
    assert_eq!(d.prev_sample(), 0);
}

#[test]
fn adpcm_vector() {
    let mut d = IMA_ADPCM_Decoder::new();
    let pcm = d.decode_bytes(&[0x00, 0x88, 0x08, 0x11]);
    assert_eq!(pcm, vec![0, 0, 0, 0, 0, 0, 1, 2]);
    assert_eq!(d.step_index(), 0);
    assert_eq!(d.prev_sample(), 2);
}

#[test]
fn silence() {
    let mut d = IMA_ADPCM_Decoder::new();
    let pcm = d.decode_bytes(&vec![0x00u8; 1024]);
    assert_eq!(pcm.len(), 2048);
    assert!(pcm.iter().all(|s| *s == 0));
    assert_eq!(d.step_index(), 0);
    assert_eq!(d.prev_sample(), 0);
}

#[test]
fn maximum_drive() {
    let mut d = IMA_ADPCM_Decoder::new();
    let pcm = d.decode_bytes(&vec![0x77u8; 200]);
    assert_eq!(&pcm[..10], &[11, 41, 104, 240, 533, 1164, 2521, 5431, 11667, 25039]);
    let reached = pcm.iter().position(|s| *s == 32767).expect("never clamped");
    assert_eq!(reached, 10);
    for i in 1..pcm.len() {
        assert!(pcm[i] >= pcm[i - 1]);
        if i <= reached {
            assert!(pcm[i] > pcm[i - 1]);
        } else {
            assert_eq!(pcm[i], 32767);
        }
    }
    assert_eq!(d.step_index(), 88);
    assert_eq!(d.prev_sample(), 32767);
}

#[test]
fn minimum_drive_clamps_at_the_bottom() {
    let mut d = IMA_ADPCM_Decoder::new();
    let pcm = d.decode_bytes(&vec![0xFFu8; 200]);
    assert_eq!(&pcm[..6], &[-11, -41, -104, -240, -533, -1164]);
    assert_eq!(*pcm.last().unwrap(), -32768);
    assert_eq!(d.prev_sample(), -32768);
    assert_eq!(d.step_index(), 88);
}

#[test]
fn single_codes_follow_the_tables() {
    let mut d = IMA_ADPCM_Decoder::new();
    // step 7: 7/8 + 7/4 + 7/2 + 7 = 0 + 1 + 3 + 7
    assert_eq!(d.decode(7), 11);
    assert_eq!(d.step_index(), 8);
    // step 16, code 12: -(16/8 + 16)
    assert_eq!(d.decode(12), 11 - 18);
    assert_eq!(d.step_index(), 10);
    // step 19, code 2: 19/8 + 19/2
    assert_eq!(d.decode(2), -7 + 11);
    assert_eq!(d.step_index(), 9);
}

#[test]
fn state_stays_in_range_after_every_code() {
    let mut d = IMA_ADPCM_Decoder::new();
    let mut x: u32 = 12345;
    for _ in 0..20000 {
        x = x.wrapping_mul(1664525).wrapping_add(1013904223);
        let code = ((x >> 24) & 0x0F) as u16;
        let pcm = d.decode(code);
        assert!((0..=88).contains(&d.step_index()));
        assert!((-32768..=32767).contains(&d.prev_sample()));
        assert_eq!(pcm as i64, d.prev_sample());
    }
}

#[test]
fn low_nibble_is_decoded_first() {
    for b in [0x00u8, 0x17, 0x71, 0x8F, 0xF8, 0x3C, 0xA5] {
        let mut whole = IMA_ADPCM_Decoder::new();
        whole.decode_bytes(&[0x47, 0x25]);
        let mut split = IMA_ADPCM_Decoder::new();
        split.decode_bytes(&[0x47, 0x25]);
        let pair = whole.decode_byte(b);
        let low = split.decode((b & 0x0F) as u16);
        let high = split.decode(((b >> 4) & 0x0F) as u16);
        assert_eq!(pair, (low, high));
        assert_eq!(whole.step_index(), split.step_index());
        assert_eq!(whole.prev_sample(), split.prev_sample());
    }
    let mut d = IMA_ADPCM_Decoder::new();
    assert_eq!(d.decode_byte(0x7f), (-11, 19));
    let mut t = IMA_ADPCM_Decoder::new();
    assert_eq!(t.decode_byte(0xf7), (11, -19));
}

#[test]
fn two_decoders_agree() {
    let bytes: Vec<u8> = (0..=255u8).chain((0..=255u8).rev()).collect();
    let mut a = IMA_ADPCM_Decoder::new();
    let mut b = IMA_ADPCM_Decoder::new();
    assert_eq!(a.decode_bytes(&bytes), b.decode_bytes(&bytes));
    assert_eq!(a.step_index(), b.step_index());
    assert_eq!(a.prev_sample(), b.prev_sample());
}

#[test]
fn decoding_in_chunks_is_decoding_at_once() {
    let bytes: Vec<u8> = (0..200u32).map(|i| (i * 37 % 256) as u8).collect();
    let mut whole = IMA_ADPCM_Decoder::new();
    let expected = whole.decode_bytes(&bytes);
    let mut parts = IMA_ADPCM_Decoder::new();
    let mut got = parts.decode_bytes(&bytes[..77]);
    got.extend(parts.decode_bytes(&bytes[77..]));
    assert_eq!(got, expected);
    assert_eq!(whole.prev_sample(), parts.prev_sample());
    assert_eq!(whole.step_index(), parts.step_index());
}

#[test]
fn mixed_vector() {
    let mut d = IMA_ADPCM_Decoder::new();
    assert_eq!(d.decode_bytes(&[0x7f, 0x80, 0x3c]), vec![-11, 19, 23, 20, -11, 18]);
    assert_eq!(d.step_index(), 15);
}

#[test]
fn empty_input_gives_no_samples() {
    let mut d = IMA_ADPCM_Decoder::new();
    d.decode(5);
    let (index, sample) = (d.step_index(), d.prev_sample());
    assert!(d.decode_bytes(&[]).is_empty());
    assert_eq!((d.step_index(), d.prev_sample()), (index, sample));
}
