use checkmate::text::{chars_of, contains_text, copy_texts, split};

fn strings(items: &[&str]) -> Vec<String> {
    items.iter().map(|s| s.to_string()).collect()
}

#[test]
fn split_cuts_at_every_delimiter() {
    assert_eq!(split("-a --b=c", ' '), strings(&["-a", "--b=c"]));
    assert_eq!(split("js,ts,tsx", ','), strings(&["js", "ts", "tsx"]));
    assert_eq!(split("js", ','), strings(&["js"]));
}

#[test]
fn split_keeps_empty_pieces() {
    assert_eq!(split("", ' '), strings(&[""]));
    assert_eq!(split(",", ','), strings(&["", ""]));
    assert_eq!(split("a,,b", ','), strings(&["a", "", "b"]));
    assert_eq!(split("a,", ','), strings(&["a", ""]));
    assert_eq!(split(" a", ' '), strings(&["", "a"]));
}

#[test]
fn split_counts_characters_not_bytes() {
    assert_eq!(split("é,ü,日本", ','), strings(&["é", "ü", "日本"]));
}

#[test]
fn split_then_join_gives_the_text_back() {
    for text in ["", "a", "a b", " a  b ", "--foo --bar=1 x"] {
        assert_eq!(split(text, ' ').join(" "), text);
    }
}

#[test]
fn split_agrees_with_plain_splitting() {
    for text in ["", " ", "a", "-a -b", "js,ts", ",,", "a, b ,c"] {
        for delim in [' ', ','] {
            let plain: Vec<String> = text.split(delim).map(|t| t.to_string()).collect();
            assert_eq!(split(text, delim), plain);
        }
    }
}

#[test]
fn chars_of_lists_the_characters() {
    assert_eq!(chars_of("a é"), vec!['a', ' ', 'é']);
    assert_eq!(chars_of(""), Vec::<char>::new());
}

#[test]
fn contains_text_finds_whole_items_only() {
    let list = strings(&["js", "tsx"]);
    assert!(contains_text(&list, &"js".to_string()));
    assert!(contains_text(&list, &"tsx".to_string()));
    assert!(!contains_text(&list, &"ts".to_string()));
    assert!(!contains_text(&list, &"".to_string()));
    assert!(!contains_text(&Vec::new(), &"js".to_string()));
}

#[test]
fn copy_texts_copies() {
    let list = strings(&["a", "", "b c"]);
    assert_eq!(copy_texts(&list), list);
}
