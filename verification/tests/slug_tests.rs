use realworld::slugs::slugify;

#[test]
fn slug_of_simple_title() {
    assert_eq!(slugify("My First Post"), "my-first-post");
}

#[test]
fn slug_is_deterministic() {
    let a = slugify("Some Title Here");
    let b = slugify("Some Title Here");
    assert_eq!(a, b);
}

#[test]
fn slug_collapses_runs_and_trims() {
    assert_eq!(slugify("  Hello,  World!! 123  "), "hello-world-123");
}

#[test]
fn slug_lowers_ascii() {
    assert_eq!(slugify("ABCdefGHI"), "abcdefghi");
}

#[test]
fn slug_of_empty_title_is_empty() {
    assert_eq!(slugify(""), "");
}

#[test]
fn slug_of_only_punctuation_is_empty() {
    assert_eq!(slugify("!!! ??? ..."), "");
}

#[test]
fn slug_treats_non_ascii_as_separators() {
    assert_eq!(slugify("Crème Brûlée"), "cr-me-br-l-e");
}

#[test]
fn slug_has_no_leading_or_doubled_hyphen() {
    let s = slugify("--A--B--");
    assert_eq!(s, "a-b");
    let chars: Vec<char> = s.chars().collect();
    for w in chars.windows(2) {
        assert!(!(w[0] == '-' && w[1] == '-'));
    }
}
