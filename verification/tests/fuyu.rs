use smexybot::fuyu::{create_chain, split_paragraphs};

#[test]
fn paragraphs_are_parted_by_empty_lines() {
    assert_eq!(split_paragraphs(""), vec![""]);
    assert_eq!(split_paragraphs("a"), vec!["a"]);
    assert_eq!(split_paragraphs("a\nb"), vec!["a\nb"]);
    assert_eq!(split_paragraphs("a\n\nb"), vec!["a", "b"]);
    assert_eq!(split_paragraphs("a\n\n\nb"), vec!["a", "\nb"]);
    assert_eq!(split_paragraphs("a\n\n\n\nb"), vec!["a", "", "b"]);
    assert_eq!(split_paragraphs("\n\n"), vec!["", ""]);
    assert_eq!(split_paragraphs("\n"), vec!["\n"]);
    assert_eq!(split_paragraphs("a\n\n"), vec!["a", ""]);
    assert_eq!(split_paragraphs("a\n"), vec!["a\n"]);
    assert_eq!(split_paragraphs("\n\na"), vec!["", "a"]);
}

#[test]
fn paragraphs_are_those_of_the_standard_library() {
    for text in ["", "\n", "\n\n", "\n\n\n", "\n\n\n\n", "one two\n\nthree\nfour\n\n\nfive\n", "é\n\n✓\n\n", "x\r\n\r\ny"] {
        let expected: Vec<String> = text.split("\n\n").map(|p| p.to_owned()).collect();
        assert_eq!(split_paragraphs(text), expected, "{:?}", text);
    }
}

#[test]
fn chain_of_one_sentence_says_it_again() {
    let chain = create_chain("hello there world");
    assert_eq!(chain.generate(), Some("hello there world".to_owned()));
}

#[test]
fn chain_of_an_empty_log_still_answers() {
    let chain = create_chain("");
    assert_eq!(chain.generate(), Some("".to_owned()));
}

#[test]
fn chain_makes_sentences_of_the_words_it_was_fed() {
    let chain = create_chain("the cat sat\n\nthe dog ran\n\na bird flew");
    for _ in 0..50 {
        let text = chain.generate().unwrap();
        for word in text.split(' ') {
            assert!(["the", "cat", "sat", "dog", "ran", "a", "bird", "flew"].contains(&word), "{:?}", text);
        }
        let first = text.split(' ').next().unwrap();
        assert!(first == "the" || first == "a");
    }
}

#[test]
fn fuyu_walks_through_the_paragraphs() {
    let log = "the cat sat\n\nthe dog  ran\n\na cat ran off\n\nsat";
    let texts: Vec<Vec<&str>> = log.split("\n\n").map(|p| p.split(' ').collect()).collect();
    for _ in 0..200 {
        let response = smexybot::fuyu::handler(log);
        let said: Vec<&str> = response.split(' ').collect();
        assert!(texts.iter().any(|t| t.first() == said.first()), "{:?}", response);
        assert!(texts.iter().any(|t| t.last() == said.last()), "{:?}", response);
        for pair in said.windows(2) {
            assert!(texts.iter().any(|t| t.windows(2).any(|w| w == pair)), "{:?}", response);
        }
    }
}
