use lsplus::utils::{get_size_string, get_string_length, pad_string};

#[test]
fn pad_appends_spaces_when_aligned_at_start() {
    assert_eq!(pad_string(String::from("ab"), 5, true), "ab   ");
}

#[test]
fn pad_prepends_spaces_otherwise() {
    assert_eq!(pad_string(String::from("ab"), 5, false), "   ab");
}

#[test]
fn pad_never_truncates() {
    assert_eq!(pad_string(String::from("abcdef"), 3, true), "abcdef");
    assert_eq!(pad_string(String::from("abcdef"), 3, false), "abcdef");
}

#[test]
fn display_width_counts_scalar_values() {
    assert_eq!(get_string_length(""), 0);
    assert_eq!(get_string_length("abc"), 3);
    assert_eq!(get_string_length("\u{f4d4} a"), 3);
    assert_eq!(get_string_length("\u{2502} \u{2570}\u{2500}"), 4);
}

#[test]
fn size_of_zero() {
    assert_eq!(get_size_string(0), "0.00 B ");
}

#[test]
fn size_in_kibibytes() {
    assert_eq!(get_size_string(1536), "1.50 K ");
}

#[test]
fn size_in_gibibytes() {
    assert_eq!(get_size_string(1073741824), "1.00 G ");
}

#[test]
fn size_in_plain_bytes_has_no_decimals() {
    assert_eq!(get_size_string(1), "1 B ");
    assert_eq!(get_size_string(512), "512 B ");
    assert_eq!(get_size_string(1023), "1023 B ");
}

#[test]
fn size_rounds_to_hundredths() {
    assert_eq!(get_size_string(1024), "1.00 K ");
    assert_eq!(get_size_string(1029), "1.00 K ");
    assert_eq!(get_size_string(1030), "1.01 K ");
    assert_eq!(get_size_string(1048575), "1024.00 K ");
    assert_eq!(get_size_string(1048576), "1.00 M ");
}

#[test]
fn size_rounds_ties_to_even() {
    // 1152 bytes are 1.125 K, 1408 bytes are 1.375 K
    assert_eq!(get_size_string(1152), "1.12 K ");
    assert_eq!(get_size_string(1408), "1.38 K ");
}

#[test]
fn size_units_follow_the_table() {
    assert_eq!(get_size_string(1u64 << 40), "1.00 T ");
    assert_eq!(get_size_string(1u64 << 50), "1.00 P ");
    assert_eq!(get_size_string(1u64 << 60), "1.00 Y ");
    assert_eq!(get_size_string(u64::MAX), "16.00 Y ");
}

#[test]
fn padded_text_has_the_width_asked_and_starts_with_the_text() {
    for text in ["", "a", "abc", "\u{f4d4} src/ ", "│ ╰─"] {
        let len = get_string_length(text);
        for width in len..len + 5 {
            let padded = pad_string(String::from(text), width, true);
            assert_eq!(get_string_length(&padded), width);
            assert!(padded.starts_with(text));
            let padded = pad_string(String::from(text), width, false);
            assert_eq!(get_string_length(&padded), width);
            assert!(padded.ends_with(text));
        }
    }
}

#[test]
fn size_text_reads_back_within_the_rounding() {
    let units = ['B', 'K', 'M', 'G', 'T', 'P', 'Y', 'E'];
    for bytes in [1u64, 999, 1023, 1024, 1025, 1536, 5000, 1048575, 1048576, 123456789, u64::MAX] {
        let text = get_size_string(bytes);
        let mut parts = text.split(' ');
        let number = parts.next().unwrap();
        let unit = parts.next().unwrap().chars().next().unwrap();
        let exp = units.iter().position(|u| *u == unit).unwrap() as u32;
        let hundredths: u128 = match number.split_once('.') {
            Some((whole, part)) => whole.parse::<u128>().unwrap() * 100 + part.parse::<u128>().unwrap(),
            None => number.parse::<u128>().unwrap() * 100,
        };
        let unit_size = 1024u128.pow(exp);
        let shown = hundredths * unit_size;
        let exact = bytes as u128 * 100;
        assert!(2 * shown.abs_diff(exact) <= unit_size);
        assert!(text.ends_with(' '));
    }
}
