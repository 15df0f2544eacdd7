//! Tests for the two encoders: round trips, alphabets, lengths, padding.

use bookmarklet::base64::{base64_encode, base64_encode_bytes};
use bookmarklet::percent::{percent_encode_bytes, url_encode};

/// Plain percent-decoder used to exercise the round-trip property.
fn percent_decode(s: &[u8]) -> Vec<u8> {
    let mut out = Vec::new();
    let mut i: usize = 0;
    while i < s.len() {
        if s[i] == b'%' && i + 3 <= s.len() {
            let hex = |d: u8| -> u8 {
                match d {
                    b'0'..=b'9' => d - b'0',
                    b'A'..=b'F' => d - b'A' + 10,
                    _ => 0,
                }
            };
            out.push(hex(s[i + 1]) * 16 + hex(s[i + 2]));
            i += 3;
        } else {
            out.push(s[i]);
            i += 1;
        }
    }
    out
}

/// Plain base64-decoder used to exercise the round-trip property.
fn base64_decode(s: &[u8]) -> Vec<u8> {
    let val = |c: u8| -> u32 {
        match c {
            b'A'..=b'Z' => (c - b'A') as u32,
            b'a'..=b'z' => (c - b'a') as u32 + 26,
            b'0'..=b'9' => (c - b'0') as u32 + 52,
            b'+' => 62,
            b'/' => 63,
            _ => 0,
        }
    };
    let mut out = Vec::new();
    for group in s.chunks(4) {
        let pad: usize = group.iter().filter(|&&c| c == b'=').count();
        let n: u32 = (val(group[0]) << 18)
            | (val(group[1]) << 12)
            | (val(group[2]) << 6)
            | val(group[3]);
        out.push((n >> 16) as u8);
        if pad < 2 {
            out.push((n >> 8) as u8);
        }
        if pad < 1 {
            out.push(n as u8);
        }
    }
    out
}

#[test]
fn unreserved_byte_passes_through() {
    assert_eq!(url_encode("a"), "a");
    let link = format!("javascript:{}", url_encode("a"));
    assert_eq!(link, "javascript:a");
}

#[test]
fn space_becomes_percent_twenty() {
    assert_eq!(url_encode(" "), "%20");
}

#[test]
fn unreserved_alphabet_is_kept_verbatim() {
    let kept = "ABCXYZabcxyz0189-_.~";
    assert_eq!(url_encode(kept), kept);
}

#[test]
fn reserved_punctuation_is_escaped() {
    assert_eq!(url_encode("/?#[]@!$&'()*+,;="), "%2F%3F%23%5B%5D%40%21%24%26%27%28%29%2A%2B%2C%3B%3D");
}

#[test]
fn multibyte_text_is_escaped_byte_by_byte() {
    assert_eq!(url_encode("é"), "%C3%A9");
}

#[test]
fn percent_escapes_use_uppercase_hex() {
    let encoded = percent_encode_bytes(&[0x0f, 0xab, 0xff]);
    assert_eq!(encoded, b"%0F%AB%FF".to_vec());
}

#[test]
fn percent_output_stays_in_token_alphabet() {
    let every_byte: Vec<u8> = (0u8..=255).collect();
    let encoded = percent_encode_bytes(&every_byte);
    assert_eq!(encoded.len(), 66 + 3 * 190);
    let allowed = |c: u8| {
        c.is_ascii_alphanumeric() || c == b'-' || c == b'_' || c == b'.' || c == b'~' || c == b'%'
    };
    assert!(encoded.iter().all(|&c| allowed(c)));
    for (i, &c) in encoded.iter().enumerate() {
        if c == b'%' {
            assert!(i + 3 <= encoded.len());
            for &d in &encoded[i + 1..i + 3] {
                assert!(d.is_ascii_digit() || (b'A'..=b'F').contains(&d));
            }
        }
    }
}

#[test]
fn percent_round_trips_every_byte_value() {
    let every_byte: Vec<u8> = (0u8..=255).collect();
    let encoded = percent_encode_bytes(&every_byte);
    assert_eq!(percent_decode(&encoded), every_byte);
}

#[test]
fn percent_round_trips_nul_and_high_bytes() {
    let tricky = [0u8, 1, 10, 13, 32, 37, 127, 128, 200, 255];
    let encoded = percent_encode_bytes(&tricky);
    assert_eq!(percent_decode(&encoded), tricky.to_vec());
}

#[test]
fn base64_full_group_has_no_padding() {
    assert_eq!(base64_encode("Man"), "TWFu");
}

#[test]
fn base64_two_leftover_bytes_pad_once() {
    assert_eq!(base64_encode("Ma"), "TWE=");
}

#[test]
fn base64_one_leftover_byte_pads_twice() {
    assert_eq!(base64_encode("M"), "TQ==");
}

#[test]
fn both_encoders_map_empty_to_empty() {
    assert_eq!(url_encode(""), "");
    assert_eq!(base64_encode(""), "");
}

#[test]
fn base64_length_is_four_times_ceil_thirds() {
    for n in 0..60usize {
        let bytes: Vec<u8> = (0..n).map(|i| (i * 37 + 11) as u8).collect();
        let encoded = base64_encode_bytes(&bytes);
        assert_eq!(encoded.len(), 4 * n.div_ceil(3));
    }
}

#[test]
fn base64_padding_follows_remainder() {
    for n in 0..30usize {
        let bytes: Vec<u8> = (0..n).map(|i| (i * 53 + 7) as u8).collect();
        let encoded = base64_encode_bytes(&bytes);
        let pad: usize = encoded.iter().filter(|&&c| c == b'=').count();
        let expected = match n % 3 {
            0 => 0,
            1 => 2,
            _ => 1,
        };
        assert_eq!(pad, expected);
        assert!(encoded[..encoded.len() - pad].iter().all(|&c| c != b'='));
    }
}

#[test]
fn base64_round_trips_every_byte_value() {
    let every_byte: Vec<u8> = (0u8..=255).collect();
    let encoded = base64_encode_bytes(&every_byte);
    assert_eq!(base64_decode(&encoded), every_byte);
}

#[test]
fn base64_round_trips_partial_groups() {
    for n in 0..20usize {
        let bytes: Vec<u8> = (0..n).map(|i| (i * 97 + 3) as u8).collect();
        let encoded = base64_encode_bytes(&bytes);
        assert_eq!(base64_decode(&encoded), bytes);
    }
}
