use vsh::text::{
    blank, chars_of, contains, copy_range, digit_of, find_after_delimiter, matches_at,
    split_words,
};

fn chars(s: &str) -> Vec<char> {
    s.chars().collect()
}

fn words(s: &str) -> Vec<String> {
    split_words(&chars(s)).into_iter().map(|w| w.into_iter().collect()).collect()
}

#[test]
fn chars_of_gives_every_character() {
    assert_eq!(chars_of(""), Vec::<char>::new());
    assert_eq!(chars_of("a:b"), vec!['a', ':', 'b']);
    assert_eq!(chars_of("é✓"), vec!['é', '✓']);
}

#[test]
fn copy_range_copies_the_range() {
    let v = chars("abcdef");
    assert_eq!(copy_range(&v, 2, 5), vec!['c', 'd', 'e']);
    assert_eq!(copy_range(&v, 3, 3), Vec::<char>::new());
    assert_eq!(copy_range(&v, 0, 6), v);
}

#[test]
fn blanks_are_space_tab_and_line_ends() {
    assert!(blank(' ') && blank('\t') && blank('\n') && blank('\r'));
    assert!(!blank('a') && !blank(':') && !blank('\u{a0}'));
}

#[test]
fn words_are_the_runs_between_blanks() {
    assert_eq!(words(""), Vec::<String>::new());
    assert_eq!(words("   \t\n"), Vec::<String>::new());
    assert_eq!(words("one"), vec!["one"]);
    assert_eq!(words(" one  two\tthree\r\n"), vec!["one", "two", "three"]);
    assert_eq!(words("a b"), vec!["a", "b"]);
}

#[test]
fn contains_finds_a_substring_anywhere() {
    assert!(contains(&chars("hello world"), &chars("lo w")));
    assert!(contains(&chars("hello world"), &chars("hello")));
    assert!(contains(&chars("hello world"), &chars("world")));
    assert!(contains(&chars("hello"), &chars("")));
    assert!(contains(&chars(""), &chars("")));
    assert!(!contains(&chars("hello world"), &chars("worlds")));
    assert!(!contains(&chars(""), &chars("a")));
    assert!(!contains(&chars("aab"), &chars("aba")));
    assert!(contains(&chars("aaab"), &chars("aab")));
}

#[test]
fn matches_at_compares_in_place() {
    assert!(matches_at(&chars("abcd"), &chars("bc"), 1));
    assert!(!matches_at(&chars("abcd"), &chars("bc"), 0));
    assert!(matches_at(&chars("abcd"), &chars(""), 4));
}

#[test]
fn the_delimiter_is_the_first_colon_with_a_space_behind_it() {
    assert_eq!(find_after_delimiter(&chars("!Time: Mon")), Some(7));
    assert_eq!(find_after_delimiter(&chars("a:b: c: d")), Some(5));
    assert_eq!(find_after_delimiter(&chars(": ")), Some(2));
    assert_eq!(find_after_delimiter(&chars("13:22:05")), None);
    assert_eq!(find_after_delimiter(&chars("x:")), None);
    assert_eq!(find_after_delimiter(&chars("")), None);
    assert_eq!(find_after_delimiter(&chars(":")), None);
}

#[test]
fn digits_have_their_values() {
    for (i, c) in "0123456789".chars().enumerate() {
        assert_eq!(digit_of(c), Some(i as u8));
    }
    assert_eq!(digit_of('a'), None);
    assert_eq!(digit_of('/'), None);
    assert_eq!(digit_of(':'), None);
    assert_eq!(digit_of('٣'), None);
}
