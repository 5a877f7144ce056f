use butido::util::bytes::{bytes_equal, find_byte, starts_with};
use butido::util::decimal::{decimal_string, parse_decimal, parse_u64};
use butido::util::docker::{ContainerImage, ImageError, ImageNameLookup};
use butido::util::order::{compare_bytes, compare_str, Order};
use butido::util::path::join_path;
use butido::util::text::{find_first, find_last, str_equal, text_after_last, text_split_once};
use butido::util::time::{parse_date, DateError, Timestamp};

#[test]
fn bytes_compare_as_strings_do() {
    let samples: [&str; 8] = ["", "a", "ab", "b", "a-1", "a1", "é", "z"];
    for a in samples {
        for b in samples {
            let expected = match a.cmp(b) {
                std::cmp::Ordering::Less => Order::Less,
                std::cmp::Ordering::Equal => Order::Equal,
                std::cmp::Ordering::Greater => Order::Greater,
            };
            assert_eq!(compare_str(a, b), expected, "{:?} against {:?}", a, b);
            assert_eq!(compare_bytes(a.as_bytes(), b.as_bytes()), expected);
            assert_eq!(str_equal(a, b), a == b);
            assert_eq!(bytes_equal(a.as_bytes(), b.as_bytes()), a == b);
        }
    }
}

#[test]
fn prefixes_and_bytes_are_found() {
    assert!(starts_with(b"#BUTIDO:x", b"#BUTIDO:"));
    assert!(starts_with(b"abc", b""));
    assert!(!starts_with(b"ab", b"abc"));
    assert!(!starts_with(b"abd", b"abc"));
    assert_eq!(find_byte(b"a/b/c", 0, b'/'), 1);
    assert_eq!(find_byte(b"a/b/c", 2, b'/'), 3);
    assert_eq!(find_byte(b"a/b/c", 4, b'/'), 5);
}

#[test]
fn decimal_notation_round_trips() {
    for n in [0u64, 7, 10, 99, 100, 12345, u64::MAX] {
        assert_eq!(decimal_string(n), n.to_string());
        assert_eq!(parse_decimal(n.to_string().as_bytes()), Some(n));
    }
    assert_eq!(parse_decimal(b""), None);
    assert_eq!(parse_decimal(b"-1"), None);
    assert_eq!(parse_decimal(b"1 "), None);
    assert_eq!(parse_decimal(b"18446744073709551616"), None);
    assert_eq!(parse_decimal(b"99999999999999999999999"), None);
}

#[test]
fn numbers_are_read_as_the_standard_library_reads_them() {
    for text in ["0", "5", "+5", "05", "", "+", "-5", " 5", "5 ", "1e3", "18446744073709551615", "18446744073709551616"] {
        assert_eq!(parse_u64(text), text.parse::<u64>().ok(), "{:?}", text);
    }
}

#[test]
fn text_is_split_at_characters() {
    assert_eq!(find_first("a=b=c", '='), Some(1));
    assert_eq!(find_last("a=b=c", '='), Some(3));
    assert_eq!(find_first("abc", '='), None);
    assert_eq!(find_last("", '='), None);
    assert_eq!(find_first("é=x", '='), Some(1));
    assert_eq!(
        text_split_once("name=value=more", '='),
        Some((String::from("name"), String::from("value=more")))
    );
    assert_eq!(text_split_once("=", '='), Some((String::new(), String::new())));
    assert_eq!(text_split_once("none", '='), None);
    assert_eq!(text_after_last("a/b/c.tar.gz", '.'), "gz");
    assert_eq!(text_after_last("noext", '.'), "noext");
    assert_eq!(text_after_last("dot.", '.'), "");
}

#[test]
fn paths_join_as_the_standard_library_joins_them() {
    for (base, part) in [
        ("/srv/releases", "main"),
        ("/srv/releases/", "main"),
        ("", "main"),
        ("/srv", "/abs/path"),
        ("rel", "a/b.tar.gz"),
        ("rel", ""),
    ] {
        let expected = std::path::Path::new(base).join(part);
        assert_eq!(join_path(base, part), expected.to_str().unwrap(), "{:?} {:?}", base, part);
    }
}

fn lookup() -> ImageNameLookup {
    ImageNameLookup::create(vec![
        ContainerImage {
            name: String::from("registry/debian:bullseye"),
            short_name: String::from("deb11"),
        },
        ContainerImage {
            name: String::from("registry/fedora:39"),
            short_name: String::from("f39"),
        },
    ])
}

#[test]
fn image_names_are_shortened_and_expanded() {
    let lookup = lookup();
    assert_eq!(lookup.shorten("registry/debian:bullseye"), "deb11");
    assert_eq!(lookup.shorten("unknown:1"), "unknown:1");
    assert_eq!(lookup.expand("f39").unwrap(), "registry/fedora:39");
    assert_eq!(lookup.expand("registry/fedora:39").unwrap(), "registry/fedora:39");
    match lookup.expand("nope") {
        Err(ImageError::UnknownImage(name)) => assert_eq!(name, "nope"),
        other => panic!("{:?}", other),
    }
}

#[test]
fn dates_are_read_in_the_relaxed_form() {
    assert_eq!(
        parse_date("2018-02-14T00:28:07Z"),
        Ok(Timestamp { secs: 1518568087, nanos: 0 })
    );
    assert_eq!(
        parse_date("2018-02-14 00:28:07.5"),
        Ok(Timestamp { secs: 1518568087, nanos: 500_000_000 })
    );
    assert_eq!(parse_date("1970-01-01T00:00:00"), Ok(Timestamp { secs: 0, nanos: 0 }));
    assert_eq!(parse_date("yesterday"), Err(DateError::InvalidFormat));
    assert_eq!(parse_date("2018-13-14T00:28:07Z"), Err(DateError::OutOfRange));
    assert_eq!(parse_date("1969-12-31T23:59:59Z"), Err(DateError::OutOfRange));
    assert_eq!(parse_date("2018-0x-14T00:28:07Z"), Err(DateError::InvalidDigit));
}

#[test]
fn timestamps_are_ordered_and_shown() {
    let a = Timestamp { secs: 10, nanos: 5 };
    let b = Timestamp { secs: 10, nanos: 6 };
    let c = Timestamp { secs: 11, nanos: 0 };
    assert!(a.is_before(&b));
    assert!(b.is_before(&c));
    assert!(!b.is_before(&a));
    assert!(!a.is_before(&a));
    let t = Timestamp { secs: 1479195564, nanos: 0 };
    assert_eq!(t.to_text().unwrap(), "2016-11-15 07:39:24");
    assert_eq!(t.to_seconds_text().unwrap(), "2016-11-15 07:39:24");
    let fraction = Timestamp { secs: 1479195564, nanos: 500_000_000 };
    assert_eq!(fraction.to_text().unwrap(), "2016-11-15 07:39:24.500");
    assert_eq!(fraction.to_seconds_text().unwrap(), "2016-11-15 07:39:24");
    assert_eq!(Timestamp { secs: i64::MAX, nanos: 0 }.to_text(), None);
    assert_eq!(Timestamp { secs: 0, nanos: 2_000_000_000 }.to_seconds_text(), None);
}
