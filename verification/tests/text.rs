use c2s_setup::number::{decimal_text, parse_number, signed_text};
use c2s_setup::order::{among, not_after, sort, sort_distinct};
use c2s_setup::path::join_path;
use c2s_setup::text::{
    before, contains, ends_with, join, lines, same, slice, split, split_once, starts_with,
    strip_or_keep, strip_suffix, trim, trim_start, trim_start_matches, white, words,
};
use c2s_setup::tool_names::lower;
use std::path::PathBuf;

fn samples() -> Vec<&'static str> {
    vec![
        "",
        " ",
        "a",
        "abc",
        "  abc  ",
        "\t\u{a0}abc\u{3000}\n",
        "a=b=c",
        "=",
        "a,b,,c",
        ",",
        "one\ntwo\r\nthree",
        "one\n\n\ntwo\n",
        "\n",
        "\r\n",
        "x\r",
        "./././a/b",
        ".//a",
        "/a/b/",
        "name.tar.gz",
        ".tar.gz",
        "ärger Ünit",
        "  two  words ",
        ":12",
        ":1=alice",
        "a/b",
    ]
}

fn owned(v: Vec<&str>) -> Vec<String> {
    v.into_iter().map(|s| s.to_string()).collect()
}

#[test]
fn white_space_is_that_of_unicode() {
    for n in 0u32..0x110000 {
        if let Some(c) = char::from_u32(n) {
            assert_eq!(white(c), c.is_whitespace(), "{:?}", c);
        }
    }
}

#[test]
fn trimming_agrees_with_std() {
    for s in samples() {
        assert_eq!(trim(s), s.trim());
        assert_eq!(trim_start(s), s.trim_start());
        for p in ["./", "a", "", " "] {
            if !p.is_empty() {
                assert_eq!(trim_start_matches(s, p), s.trim_start_matches(p));
            }
        }
    }
}

#[test]
fn splitting_agrees_with_std() {
    for s in samples() {
        assert_eq!(lines(s), s.lines().map(|l| l.to_string()).collect::<Vec<_>>(), "{:?}", s);
        assert_eq!(words(s), s.split_whitespace().map(|l| l.to_string()).collect::<Vec<_>>());
        for c in ['=', ',', '/', '\n', ' '] {
            assert_eq!(split(s, c), s.split(c).map(|l| l.to_string()).collect::<Vec<_>>());
            assert_eq!(before(s, c), s.split(c).next().unwrap());
            assert_eq!(
                split_once(s, c),
                s.split_once(c).map(|(a, b)| (a.to_string(), b.to_string()))
            );
        }
    }
}

#[test]
fn searching_agrees_with_std() {
    for s in samples() {
        for p in samples() {
            assert_eq!(contains(s, p), s.contains(p), "{:?} {:?}", s, p);
            assert_eq!(starts_with(s, p), s.starts_with(p));
            assert_eq!(ends_with(s, p), s.ends_with(p));
            assert_eq!(strip_suffix(s, p), s.strip_suffix(p).map(|t| t.to_string()));
            assert_eq!(strip_or_keep(s, p), s.strip_suffix(p).unwrap_or(s));
            assert_eq!(same(s, p), s == p);
        }
    }
}

#[test]
fn slices_count_characters() {
    assert_eq!(slice("ärger", 1, 3), "rg");
    assert_eq!(slice("abc", 0, 0), "");
    assert_eq!(slice("abc", 0, 3), "abc");
}

#[test]
fn joining_agrees_with_std() {
    for v in [vec![], vec!["a"], vec!["a", "b"], vec!["", "", ""], vec!["x", "", "y"]] {
        assert_eq!(join(&owned(v.clone()), ", "), v.join(", "));
        assert_eq!(join(&owned(v.clone()), ""), v.join(""));
    }
}

#[test]
fn numbers_are_written_as_std_writes_them() {
    for n in [0u64, 1, 9, 10, 11, 99, 100, 5901, 65536, 4294967295, u64::MAX] {
        assert_eq!(decimal_text(n), n.to_string());
    }
    for n in [0i32, 1, -1, 127, -127, i32::MAX, i32::MIN] {
        assert_eq!(signed_text(n), n.to_string());
    }
}

#[test]
fn numbers_are_read_as_std_reads_them() {
    for s in [
        "", "0", "1", "+1", "-1", "+", "-", "007", " 1", "1 ", "1a", "4294967295", "4294967296",
        "99999999999999999999999", "+4294967295", "++1", "\u{0661}", "1_000", "0x10",
    ] {
        assert_eq!(parse_number(s), s.parse::<u32>().ok(), "{:?}", s);
    }
}

#[test]
fn decimals_read_back() {
    for n in [0u32, 7, 10, 5900, u32::MAX] {
        assert_eq!(parse_number(&decimal_text(n as u64)), Some(n));
    }
}

#[test]
fn order_is_that_of_std() {
    for a in samples() {
        for b in samples() {
            assert_eq!(not_after(a, b), a <= b, "{:?} {:?}", a, b);
        }
    }
    let mut v = owned(samples());
    v.push("abc".to_string());
    let mut expected = v.clone();
    expected.sort();
    assert_eq!(sort(&v), expected);
    expected.dedup();
    assert_eq!(sort_distinct(&v), expected);
    assert!(among(&v, "abc"));
    assert!(!among(&v, "abcd"));
}

#[test]
fn paths_join_as_std_joins_them() {
    for base in ["", "/", "/opt/cadence", "/opt/cadence/", "rel", "rel/"] {
        for p in ["", "a", "/abs", "a/b", ".hidden", "a/"] {
            let expected: PathBuf = PathBuf::from(base).join(p);
            assert_eq!(join_path(base, p), expected.display().to_string(), "{:?} {:?}", base, p);
        }
    }
}

#[test]
fn lower_case_is_that_of_std() {
    for s in samples() {
        assert_eq!(lower(s), s.to_lowercase());
    }
    for s in ["CADENCE", "Xilinx", "ΑΣ ΑΣΑ", "İ", "ÄÖÜ", "ﬀ", "@[`{AZaz09"] {
        assert_eq!(lower(s), s.to_lowercase());
    }
}
