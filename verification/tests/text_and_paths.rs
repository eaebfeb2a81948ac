use dko_launcher::paths;
use dko_launcher::text;
use std::path::Path;

fn chars(s: &str) -> Vec<char> {
    s.chars().collect()
}

fn raw(path: &Path) -> Vec<u8> {
    path.to_str().unwrap().as_bytes().to_vec()
}

fn strings(parts: Vec<Vec<char>>) -> Vec<String> {
    parts.into_iter().map(|p| p.into_iter().collect()).collect()
}

const SAMPLES: [&str; 29] = [
    "", "/", "//", ".", "./", "./.", "..", "../", "a", "a/", "a//", "a/b", "/a", "/a/", "//a",
    "a/.", "a/./b", "./a", "./a/b/", "/a/b/c.d", "/a/b/c.d.e", "/a/.hidden", "a/..", "/..", "a/b/..",
    "a.", "/x/a..", "./..", ".//a",
];

#[test]
fn paths_agree_with_the_standard_library() {
    for sample in SAMPLES {
        let path = Path::new(sample);
        let parent = path.parent().map(raw);
        assert_eq!(paths::parent(sample.as_bytes()), parent, "parent of {sample:?}");
        let name = path.file_name().map(|n| raw(Path::new(n)));
        assert_eq!(paths::file_name(sample.as_bytes()), name, "name of {sample:?}");
        let extension = path.extension().map(|n| raw(Path::new(n)));
        assert_eq!(paths::extension(sample.as_bytes()), extension, "extension of {sample:?}");
        assert_eq!(paths::is_absolute(sample.as_bytes()), path.is_absolute());
        assert_eq!(
            paths::with_extension(sample.as_bytes(), b"new"),
            raw(&path.with_extension("new")),
            "extended {sample:?}"
        );
        assert_eq!(
            paths::with_file_name(sample.as_bytes(), b"other"),
            raw(&path.with_file_name("other")),
            "renamed {sample:?}"
        );
        for other in SAMPLES {
            assert_eq!(
                paths::join(sample.as_bytes(), other.as_bytes()),
                raw(&path.join(other)),
                "{sample:?} joined with {other:?}"
            );
            assert_eq!(
                paths::equal(sample.as_bytes(), other.as_bytes()),
                path == Path::new(other),
                "{sample:?} against {other:?}"
            );
        }
    }
}

#[test]
fn paths_may_hold_any_bytes() {
    let odd = b"/a/\xff\xfe.x";
    assert_eq!(paths::file_name(odd), Some(b"\xff\xfe.x".to_vec()));
    assert_eq!(paths::parent(odd), Some(b"/a".to_vec()));
    assert_eq!(paths::extension(odd), Some(b"x".to_vec()));
}

#[test]
fn nearest_named_directory_matches_ancestors() {
    let path = "/data/steamapps/x/steamapps/common/game.exe";
    let expected = Path::new(path)
        .ancestors()
        .find(|p| p.file_name().is_some_and(|n| n == "steamapps"))
        .map(raw);
    assert_eq!(paths::find_named_above(path.as_bytes(), b"steamapps"), expected);
    assert_eq!(paths::find_named_above(b"/a/b", b"steamapps"), None);
}

#[test]
fn lines_and_words_agree_with_the_standard_library() {
    for sample in ["", "\n", "a", "a\n", "a\r\n", "a\r", "a\n\nb", "a\r\r\nb\r", "x y\tz \u{a0}w\n  "] {
        let lines: Vec<String> = sample.lines().map(str::to_owned).collect();
        assert_eq!(strings(text::lines(&chars(sample))), lines, "lines of {sample:?}");
        let words: Vec<String> = sample.split_whitespace().map(str::to_owned).collect();
        assert_eq!(strings(text::words(&chars(sample))), words, "words of {sample:?}");
        let trimmed: String = text::trim(&chars(sample)).into_iter().collect();
        assert_eq!(trimmed, sample.trim());
    }
}

#[test]
fn splitting_and_joining() {
    for sample in ["", ";", "a", "a;b", ";a;;b;"] {
        let parts: Vec<String> = sample.split(';').map(str::to_owned).collect();
        assert_eq!(strings(text::split(&chars(sample), ';')), parts);
        let joined: String = text::join(&text::split(&chars(sample), ';'), &[';']).into_iter().collect();
        assert_eq!(joined, sample);
    }
    let (before, after) = text::divide(&chars("a=b=c"), '=').unwrap();
    assert_eq!((before, after), (chars("a"), chars("b=c")));
    assert!(text::divide(&chars("abc"), '=').is_none());
}

#[test]
fn replacing_goes_from_left_to_right() {
    for (s, from, to) in [("aaa", "aa", "b"), ("a.b.c", ".", "::"), ("", "x", "y"), ("xx", "x", "")] {
        let replaced: String = text::replace(&chars(s), &chars(from), &chars(to)).into_iter().collect();
        assert_eq!(replaced, s.replace(from, to));
    }
}

#[test]
fn numbers_are_read_as_the_standard_library_reads_them() {
    for s in ["", "0", "7", "007", "+7", "+", "-1", "4294967295", "4294967296", "1a", " 1"] {
        assert_eq!(text::parse_number(&chars(s)), s.parse::<u32>().ok(), "{s:?}");
    }
    assert_eq!(text::parse_decimal(&chars("65535"), 65535), Some(65535));
    assert_eq!(text::parse_decimal(&chars("65536"), 65535), None);
    assert_eq!(text::parse_decimal(&chars("18446744073709551615"), u64::MAX), Some(u64::MAX));
    assert_eq!(text::parse_decimal(&chars("18446744073709551616"), u64::MAX), None);
}

#[test]
fn written_numbers_are_read_back() {
    for n in [0u64, 9, 10, 1234567890, u64::MAX] {
        let digits = text::write_decimal(n);
        assert_eq!(digits.iter().collect::<String>(), n.to_string());
        assert_eq!(text::parse_decimal(&digits, u64::MAX), Some(n));
    }
}

#[test]
fn sorting_is_by_bytes() {
    let list: Vec<Vec<u8>> = ["b", "", "ab", "a", "b", "\u{e9}"].iter().map(|s| s.as_bytes().to_vec()).collect();
    let mut expected = list.clone();
    expected.sort();
    assert_eq!(text::sort(list), expected);
    assert!(text::comes_before(b"a", b"ab"));
    assert!(!text::comes_before(b"ab", b"ab"));
}

#[test]
fn searching() {
    assert_eq!(text::find(&chars("abcabc"), &chars("ca"), 0), Some(2));
    assert_eq!(text::find(&chars("abcabc"), &chars("abc"), 1), Some(3));
    assert_eq!(text::find(&chars("abc"), &chars("d"), 0), None);
    assert!(text::contains(&chars("abc"), &chars("")));
    assert!(text::ends(&chars("file.exe"), &chars(".exe")));
    assert!(text::begins(&chars("file.exe"), &chars("file")));
    assert!(text::same_ignoring_case(&chars("AbC"), &chars("aBc")));
    assert!(!text::same_ignoring_case(&chars("\u{c4}"), &chars("\u{e4}")));
}

#[test]
fn joined_paths_come_apart() {
    for directory in ["", "/", ".", "..", "a", "/a/b", "./a", "/a/../b"] {
        let whole = paths::join(directory.as_bytes(), b"x.y");
        assert_eq!(paths::file_name(&whole), Some(b"x.y".to_vec()));
        assert_eq!(paths::parent(&whole), Some(directory.as_bytes().to_vec()));
    }
}
