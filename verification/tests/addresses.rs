use bluetooth::stdimp::normalize_addr_for_dedup;

fn key(raw: &str) -> String {
    normalize_addr_for_dedup(raw)
}

#[test]
fn a_hardware_address_is_written_in_pairs() {
    assert_eq!(key("a4:c1:38:0f:00:9b"), "A4:C1:38:0F:00:9B");
    assert_eq!(key("A4-C1-38-0F-00-9B"), "A4:C1:38:0F:00:9B");
    assert_eq!(key("a4c1380f009b"), "A4:C1:38:0F:00:9B");
    assert_eq!(key("  a4c1.380f.009b\t\n"), "A4:C1:38:0F:00:9B");
}

#[test]
fn the_last_twelve_digits_count() {
    // Letters of the prefix that are digits too come before the twelve that count.
    assert_eq!(
        key("/org/bluez/hci0/dev_A4_C1_38_0F_00_9B"),
        "A4:C1:38:0F:00:9B"
    );
    assert_eq!(
        key("0000fe95-0000-1000-8000-00805f9b34fb"),
        "00:80:5F:9B:34:FB"
    );
    assert_eq!(key("00123456789ABC"), "12:34:56:78:9A:BC");
}

#[test]
fn a_text_with_fewer_digits_is_put_in_upper_case() {
    assert_eq!(key("a4:c1:38:0f:00:9"), "A4:C1:38:0F:00:9");
    assert_eq!(key("  watch 7 "), "WATCH 7");
    assert_eq!(key("x"), "X");
    assert_eq!(key("\u{e9}tage"), "\u{e9}TAGE");
}

#[test]
fn a_blank_address_has_the_empty_key() {
    assert_eq!(key(""), "");
    assert_eq!(key("   "), "");
    assert_eq!(key("\t\r\n\u{a0}\u{3000}"), "");
    assert_eq!(key("\u{200b}"), "\u{200b}");
}

#[test]
fn white_space_is_what_unicode_says() {
    for code in 0..=0x10ffffu32 {
        if let Some(c) = char::from_u32(code) {
            let text: String = c.to_string();
            assert_eq!(key(&text).is_empty(), c.is_whitespace(), "{:x}", code);
        }
    }
}

#[test]
fn every_character_is_put_in_upper_case_as_ascii_is() {
    for code in 0..0x3000u32 {
        if let Some(c) = char::from_u32(code) {
            let text = format!("-{}-", c);
            assert_eq!(key(&text), text.to_ascii_uppercase());
        }
    }
}

#[test]
fn the_key_of_a_key_is_that_key() {
    for raw in ["a4c1380f009b", " watch ", "", "0000fe95-0000-1000-8000-00805f9b34fb", "zz"] {
        assert_eq!(key(&key(raw)), key(raw));
    }
}

#[test]
fn case_makes_no_difference_to_the_key() {
    for raw in ["a4:c1:38:0f:00:9b", "Mi Band", "dEaDbEeF"] {
        assert_eq!(key(&raw.to_ascii_lowercase()), key(&raw.to_ascii_uppercase()));
    }
}

#[test]
fn separators_make_no_difference_to_the_key_of_twelve_digits() {
    assert_eq!(key("12:34:56:78:9a:bc"), key("1-2-3-4-5-6-7-8-9-A-B-C"));
    assert_ne!(key("12:34:56:78:9a:bc"), key("12:34:56:78:9a:bd"));
}

#[test]
fn keys_agree_exactly_where_digits_or_texts_do() {
    // Eleven digits do not count as an address, so separators matter.
    assert_ne!(key("1:2:3:4:5:6:7:8:9:a:b"), key("123456789ab"));
    assert_eq!(key("1:2:3:4:5:6:7:8:9:a:b"), key("1:2:3:4:5:6:7:8:9:A:B"));
    // One that has twelve digits and one that has fewer never agree.
    assert_ne!(key("123456789abc"), key("23456789abc"));
    assert_ne!(key("watch"), key("clock"));
}

#[test]
fn white_space_around_an_address_changes_nothing() {
    for raw in ["watch", "a b", "", "12:34:56:78:9a:bc"] {
        assert_eq!(key(&format!(" \t{}\n\u{3000}", raw)), key(raw));
    }
}
