use nrf54_audio::pcm::{bytes_of, sample_from_le, Decoder};

#[test]
fn samples_are_little_endian() {
    assert_eq!(bytes_of(&[0x1234, -1, i16::MIN, i16::MAX]), vec![0x34, 0x12, 0xFF, 0xFF, 0x00, 0x80, 0xFF, 0x7F]);
    assert_eq!(bytes_of(&[]), Vec::<u8>::new());
    assert_eq!(sample_from_le(0x00, 0x80), -32768);
    assert_eq!(sample_from_le(0xFE, 0xFF), -2);
    assert_eq!(sample_from_le(0x01, 0x02), 513);
}

#[test]
fn every_sample_survives() {
    for sample in i16::MIN..=i16::MAX {
        let bytes = bytes_of(&[sample]);
        assert_eq!(bytes, sample.to_le_bytes().to_vec());
        assert_eq!(sample_from_le(bytes[0], bytes[1]), sample);
    }
}

#[test]
fn an_odd_byte_is_carried() {
    let mut d = Decoder::new();
    assert_eq!(d.feed(&[1, 0, 2]), vec![1]);
    assert_eq!(d.count(), 1);
    assert_eq!(d.feed(&[]), Vec::<i16>::new());
    assert_eq!(d.feed(&[1]), vec![0x102]);
    assert_eq!(d.count(), 2);
    assert_eq!(d.feed(&[7]), Vec::<i16>::new());
    assert_eq!(d.feed(&[0, 9, 0, 8]), vec![7, 9]);
    assert_eq!(d.feed(&[0xFF]), vec![-248]);
    assert_eq!(d.count(), 5);
}

#[test]
fn chunks_make_no_difference() {
    let samples: Vec<i16> = (0..500).map(|i| (i * 131 - 30_000) as i16).collect();
    let bytes = bytes_of(&samples);
    for size in 1..40usize {
        let mut d = Decoder::new();
        let mut arrived: Vec<i16> = Vec::new();
        for chunk in bytes.chunks(size) {
            arrived.extend(d.feed(chunk));
        }
        assert_eq!(arrived, samples);
        assert_eq!(d.count(), 500);
    }
}
