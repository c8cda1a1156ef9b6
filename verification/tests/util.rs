use outerclaw::daemon::status::{count_seconds, parse_iso_fields};
use outerclaw::util::calendar::{civil_of, is_leap, Civil};
use outerclaw::util::is_valid_session_id;
use outerclaw::util::order::{sort_ascending, sort_newest_first};
use outerclaw::util::path::join_path;
use outerclaw::util::text::{
    align, lines_of, parse, replace, show, show_padded, show_signed, split, trim, words_of,
};
use outerclaw::util::path::{components_of, is_same_path, name_of};
use outerclaw::util::time_fmt::{
    clock_reading, fmt_ago, fmt_ago_at, fmt_uptime, monotonic_now, now_epoch, Timestamp,
};

#[test]
fn test_session_id_validation() {
    assert!(is_valid_session_id("abc-123_def"));
    assert!(!is_valid_session_id(""));
    assert!(!is_valid_session_id("bad;injection"));
    assert!(!is_valid_session_id("bad space"));
}

#[test]
fn test_fmt_uptime() {
    assert_eq!(fmt_uptime(0), "0 mins");
    assert_eq!(fmt_uptime(90061), "1 day 1 hr 1 min");
    assert_eq!(fmt_uptime(7200), "2 hrs");
}

#[test]
fn test_is_leap() {
    assert!(is_leap(2000));
    assert!(is_leap(2024));
    assert!(!is_leap(1900));
    assert!(!is_leap(2023));
}

#[test]
fn uptimes_leave_out_what_is_zero() {
    assert_eq!(fmt_uptime(59), "0 mins");
    assert_eq!(fmt_uptime(60), "1 min");
    assert_eq!(fmt_uptime(172800), "2 days");
    assert_eq!(fmt_uptime(172860), "2 days 1 min");
    assert_eq!(fmt_uptime(3600), "1 hr");
}

#[test]
fn ages_are_rounded_toward_zero() {
    let at = |secs, nanos| Timestamp { secs, nanos };
    assert_eq!(fmt_ago_at(&at(100, 0), &at(100, 0)), "0s ago");
    assert_eq!(fmt_ago_at(&at(100, 500), &at(100, 0)), "0s ago");
    assert_eq!(fmt_ago_at(&at(101, 0), &at(100, 0)), "in the future");
    assert_eq!(fmt_ago_at(&at(100, 0), &at(159, 999_999_999)), "59s ago");
    assert_eq!(fmt_ago_at(&at(100, 0), &at(160, 0)), "1m ago");
    assert_eq!(fmt_ago_at(&at(0, 0), &at(3599, 0)), "59m ago");
    assert_eq!(fmt_ago_at(&at(0, 0), &at(3661, 0)), "1h 1m ago");
    assert_eq!(fmt_ago_at(&at(0, 0), &at(90000, 0)), "1d 1h ago");
    let now = now_epoch();
    assert!(now.secs > 1_700_000_000);
    assert_eq!(fmt_ago(&Timestamp::from_secs(now.secs + 1000)), "in the future");
}

#[test]
fn no_two_dates_share_their_seconds() {
    let mut last = civil_of(0);
    for day in 1..2000u64 {
        let c = civil_of(day * 86400);
        assert_ne!(c, last);
        assert_eq!(count_seconds(&c), Some((day * 86400) as i64));
        last = c;
    }
    assert_eq!(
        civil_of(1704067199),
        Civil { year: 2023, month: 12, day: 31, hour: 23, minute: 59, second: 59 }
    );
}

#[test]
fn timestamps_are_read_back() {
    for secs in [0u64, 59, 86399, 951782400, 1704067200, 4107542400, 253402300800] {
        let iso = outerclaw::alert::epoch_to_iso(secs);
        assert_eq!(parse_iso_fields(&iso), Some(civil_of(secs)));
    }
}

#[test]
fn lines_follow_line_feeds() {
    assert_eq!(lines_of(""), Vec::<String>::new());
    assert_eq!(lines_of("\n"), vec![""]);
    assert_eq!(lines_of("a\r\nb\rc\n\nd\r"), vec!["a", "b\rc", "", "d\r"]);
    for s in ["x\ny", "x\n", "\r\n\r\n", "a\n\nb\r\n", "ä\u{2028}b\n"] {
        assert_eq!(lines_of(s), s.lines().collect::<Vec<_>>());
    }
}

#[test]
fn words_and_trimming_know_unicode_white_space() {
    for s in ["", "  ", " a  b ", "\u{a0}x\u{3000}y\u{2009}", "\u{200b}z", "a\u{85}b\tc"] {
        assert_eq!(words_of(s), s.split_whitespace().collect::<Vec<_>>());
        assert_eq!(trim(s), s.trim());
    }
}

#[test]
fn splitting_and_replacing() {
    assert_eq!(split("", ':'), vec![""]);
    assert_eq!(split("a:b::c:", ':'), vec!["a", "b", "", "c", ""]);
    assert_eq!(replace("aXXXa", "XX", "-"), "a-Xa");
    assert_eq!(replace("none", "XX", "-"), "none");
}

#[test]
fn numbers_are_written_and_read_like_those_of_std() {
    for n in [0u64, 7, 10, 99, 12345, u64::MAX] {
        assert_eq!(show(n), n.to_string());
        assert_eq!(show_padded(n, 4), format!("{n:04}"));
        assert_eq!(align(&show(n), 6), format!("{n:>6}"));
    }
    for n in [i64::MIN, -1, 0, 5, i64::MAX] {
        assert_eq!(show_signed(n), n.to_string());
    }
    for s in ["", "+", "-1", "+7", "007", "18446744073709551615", "18446744073709551616", "1 ", "٣"] {
        assert_eq!(parse(s, u64::MAX), s.parse::<u64>().ok());
        assert_eq!(parse(s, 65535).map(|n| n as u16), s.parse::<u16>().ok());
    }
}

#[test]
fn paths_are_joined_like_those_of_std() {
    for (a, b) in [("/a", "b"), ("/a/", "b"), ("", "b"), ("/a", "/b"), ("/a", ""), ("a", "b/c")] {
        assert_eq!(
            join_path(a, b),
            std::path::Path::new(a).join(b).to_str().unwrap()
        );
    }
}

#[test]
fn names_are_ordered_like_strings() {
    let names = ["b", "a", "ab", "", "é", "z", "a-2", "a-10", "Z"];
    let mut want: Vec<String> = names.iter().map(|s| s.to_string()).collect();
    want.sort();
    assert_eq!(sort_ascending(names.iter().map(|s| s.to_string()).collect()), want);
    want.reverse();
    let pairs = names.iter().map(|s| (s.to_string(), ())).collect();
    let got: Vec<String> = sort_newest_first(pairs).into_iter().map(|p| p.0).collect();
    assert_eq!(got, want);
}

#[test]
fn readings_of_the_monotonic_clock() {
    let zero = Timestamp { secs: 0, nanos: 0 };
    let most = Timestamp { secs: i64::MAX as u64, nanos: 999_999_999 };
    assert_eq!(clock_reading(Some((7, 5))), Timestamp { secs: 7, nanos: 5 });
    assert_eq!(clock_reading(Some((i64::MAX, 999_999_999))), most);
    assert_eq!(clock_reading(Some((7, 1_000_000_000))), zero);
    assert_eq!(clock_reading(Some((7, -1))), zero);
    assert_eq!(clock_reading(Some((-1, 5))), zero);
    assert_eq!(clock_reading(None), zero);
    let first = monotonic_now();
    let second = monotonic_now();
    assert_ne!(first, zero);
    assert!(second.nanos_since(&first) >= 0);
    assert!(second.nanos < 1_000_000_000);
}

#[test]
fn components_and_names_of_paths() {
    for path in ["a/b", "a//b", "a/./b", "a/b/", "a/b/.", "./a/b", "/a/b", "/./a/b", "..", ".",
        "./", "", "/", "//", "a/..", "a/../b", "/a/b//", "....", ".a"]
    {
        let std_path = std::path::Path::new(path);
        let name = std_path.file_name().map(|n| n.to_str().unwrap().to_string());
        assert_eq!(name_of(path), name, "{path}");
        for other in ["a/b", "./a/b", "/a/b", ".", "", "/", "..", "a/.."] {
            assert_eq!(
                is_same_path(path, other),
                std_path == std::path::Path::new(other),
                "{path} {other}"
            );
        }
    }
    assert_eq!(components_of("/a//./b/"), vec!["a", "b"]);
}

#[test]
fn uptimes_differ_where_their_minutes_do() {
    let seconds: Vec<u64> = vec![0, 59, 60, 119, 3540, 3600, 3660, 86400, 86460, 90000, 90060];
    for s in &seconds {
        for t in &seconds {
            assert_eq!(fmt_uptime(*s) == fmt_uptime(*t), s / 60 == t / 60);
        }
    }
}
