//! Tests for document assembly, size metrics and the date label.

use bookmarklet::numfmt::{u64_to_decimal, u64_to_decimal2};
use bookmarklet::page::{assemble, build_page, compression_percent, generate_html};
use bookmarklet::stamp::{chrono_free_timestamp, date_label_from_seconds};

#[test]
fn assembly_is_idempotent() {
    let first = assemble("javascript:x", 2048, 4096, "2020.05.09");
    let second = assemble("javascript:x", 2048, 4096, "2020.05.09");
    assert_eq!(first, second);
}

#[test]
fn assembled_document_interpolates_all_four_values() {
    let html = assemble("javascript:alert(1)", 3 * 1024, 7 * 1024, "2021.11.30");
    assert!(html.contains(r#"<div class="stat-value">3</div>"#));
    assert!(html.contains(r#"<div class="stat-value">7</div>"#));
    assert!(html.contains(r#"<a href="javascript:alert(1)" class="bookmarklet">"#));
    assert!(html.contains("Generated: 2021.11.30 | Founderstowne Academy"));
    assert!(html.starts_with("<!DOCTYPE html>"));
    assert!(html.ends_with("</html>"));
}

#[test]
fn sizes_are_rounded_down_to_whole_kb() {
    let html = assemble("t", 2047, 1, "1970.01.01");
    assert!(html.contains(r#"<div class="stat-value">1</div>"#));
    assert!(html.contains(r#"<div class="stat-value">0</div>"#));
}

#[test]
fn generated_document_carries_a_date_label() {
    let html = generate_html("javascript:a", 1, 12);
    let marker = "Generated: ";
    let at = html.find(marker).expect("label position") + marker.len();
    let label = &html[at..at + 10];
    let parts: Vec<&str> = label.split('.').collect();
    assert_eq!(parts.len(), 3);
    assert!(parts[0].parse::<u64>().expect("year") >= 1970);
    assert_eq!(parts[1].len(), 2);
    assert_eq!(parts[2].len(), 2);
}

#[test]
fn empty_payload_reports_zero_sizes() {
    let html = build_page("");
    assert!(html.contains(r#"<a href="javascript:" class="bookmarklet">"#));
    assert!(html.contains(r#"<div class="stat-value">0</div>"#));
}

#[test]
fn one_byte_payload_builds_the_plain_link() {
    let html = build_page("a");
    assert!(html.contains(r#"<a href="javascript:a" class="bookmarklet">"#));
}

#[test]
fn reported_encoded_size_matches_the_embedded_token() {
    let payload: String = std::iter::repeat("hello() ").take(400).collect();
    let html = build_page(&payload);
    let start = html.find(r#"<a href=""#).expect("link position") + r#"<a href=""#.len();
    let end = start + html[start..].find('"').expect("link end");
    let link = &html[start..end];
    let expected = format!(r#"<div class="stat-value">{}</div>"#, link.len() / 1024);
    assert!(html.contains(&expected));
    let original = format!(r#"<div class="stat-value">{}</div>"#, payload.len() / 1024);
    assert!(html.contains(&original));
}

#[test]
fn compression_of_empty_original_is_undefined() {
    assert_eq!(compression_percent(0, 17), None);
}

#[test]
fn compression_is_whole_percent_rounded_down() {
    assert_eq!(compression_percent(1000, 2000), Some(200));
    assert_eq!(compression_percent(3, 10), Some(333));
    assert_eq!(compression_percent(4, 1), Some(25));
}

#[test]
fn epoch_start_has_the_baseline_label() {
    assert_eq!(date_label_from_seconds(0), "1970.01.01");
}

#[test]
fn date_label_uses_fixed_year_and_month_lengths() {
    assert_eq!(date_label_from_seconds(400 * 86400), "1971.02.06");
    assert_eq!(date_label_from_seconds(364 * 86400), "1970.13.05");
    assert_eq!(date_label_from_seconds(365 * 86400), "1971.01.01");
}

#[test]
fn present_moment_label_has_the_expected_shape() {
    let label = chrono_free_timestamp();
    let parts: Vec<&str> = label.split('.').collect();
    assert_eq!(parts.len(), 3);
    assert!(parts[0].parse::<u64>().expect("year") >= 1970);
    assert!((1..=13).contains(&parts[1].parse::<u64>().expect("month")));
    assert!((1..=30).contains(&parts[2].parse::<u64>().expect("day")));
}

#[test]
fn decimal_rendering_matches_the_usual_form() {
    assert_eq!(u64_to_decimal(0), "0");
    assert_eq!(u64_to_decimal(7), "7");
    assert_eq!(u64_to_decimal(1024), "1024");
    assert_eq!(u64_to_decimal(18446744073709551615), "18446744073709551615");
}

#[test]
fn two_digit_padding_only_pads_single_digits() {
    assert_eq!(u64_to_decimal2(5), "05");
    assert_eq!(u64_to_decimal2(0), "00");
    assert_eq!(u64_to_decimal2(42), "42");
    assert_eq!(u64_to_decimal2(123), "123");
}
