use webrtc_proxy::nal::{length_prefixed_to_annexb, NalError};

fn length_prefixed(units: &[Vec<u8>]) -> Vec<u8> {
    let mut out = Vec::new();
    for u in units {
        out.extend_from_slice(&(u.len() as u32).to_be_bytes());
        out.extend_from_slice(u);
    }
    out
}

fn split_on_start_codes(buf: &[u8]) -> Vec<Vec<u8>> {
    let mut starts = Vec::new();
    let mut i = 0;
    while i + 4 <= buf.len() {
        if buf[i..i + 4] == [0, 0, 0, 1] {
            starts.push(i);
            i += 4;
        } else {
            i += 1;
        }
    }
    let mut units = Vec::new();
    for (k, s) in starts.iter().enumerate() {
        let end = if k + 1 < starts.len() { starts[k + 1] } else { buf.len() };
        units.push(buf[s + 4..end].to_vec());
    }
    units
}

#[test]
fn single_unit_converts() {
    let out = length_prefixed_to_annexb(vec![0x00, 0x00, 0x00, 0x02, 0xAB, 0xCD]);
    assert_eq!(out, Ok(vec![0x00, 0x00, 0x00, 0x01, 0xAB, 0xCD]));
}

#[test]
fn declared_length_past_end_fails() {
    let out = length_prefixed_to_annexb(vec![0x00, 0x00, 0x00, 0x05, 0xAB, 0xCD]);
    assert_eq!(out, Err(NalError::TruncatedBody));
}

#[test]
fn short_trailing_length_field_fails() {
    let mut buf = length_prefixed(&[vec![0x65, 0x88]]);
    buf.extend_from_slice(&[0x00, 0x00]);
    assert_eq!(length_prefixed_to_annexb(buf), Err(NalError::TruncatedLength));
    assert_eq!(length_prefixed_to_annexb(vec![0x00]), Err(NalError::TruncatedLength));
    assert_eq!(length_prefixed_to_annexb(vec![0x00, 0x00, 0x01]), Err(NalError::TruncatedLength));
}

#[test]
fn empty_buffer_converts_to_empty() {
    assert_eq!(length_prefixed_to_annexb(Vec::new()), Ok(Vec::new()));
}

#[test]
fn empty_unit_is_kept() {
    assert_eq!(
        length_prefixed_to_annexb(vec![0, 0, 0, 0, 0, 0, 0, 1, 0x42]),
        Ok(vec![0, 0, 0, 1, 0, 0, 0, 1, 0x42])
    );
}

#[test]
fn large_length_field_fails_without_overflow() {
    assert_eq!(
        length_prefixed_to_annexb(vec![0xFF, 0xFF, 0xFF, 0xFF, 0x01]),
        Err(NalError::TruncatedBody)
    );
}

#[test]
fn conversion_keeps_length_and_counts_units() {
    let units = vec![vec![0x67, 0x42, 0x00, 0x1f], vec![0x68, 0xce], vec![0x65; 300]];
    let input = length_prefixed(&units);
    let out = length_prefixed_to_annexb(input.clone()).unwrap();
    assert_eq!(out.len(), input.len());
    assert_eq!(split_on_start_codes(&out).len(), units.len());
}

#[test]
fn round_trip_recovers_payloads() {
    let units = vec![
        vec![0x09, 0xf0],
        vec![0x67, 0x64, 0x00, 0x28, 0xac],
        vec![0x68, 0xee, 0x3c, 0x80],
        (0..=255u8).filter(|b| *b != 0).collect::<Vec<u8>>(),
    ];
    let out = length_prefixed_to_annexb(length_prefixed(&units)).unwrap();
    assert_eq!(split_on_start_codes(&out), units);
}

#[test]
fn second_unit_overrunning_fails() {
    let mut buf = length_prefixed(&[vec![0x41, 0x42]]);
    buf.extend_from_slice(&[0x00, 0x00, 0x00, 0x09, 0x01]);
    assert_eq!(length_prefixed_to_annexb(buf), Err(NalError::TruncatedBody));
}
