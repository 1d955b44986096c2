use tfidf::tokenizer::SimpleTokenizer;
use tfidf::tokenizer::Tokenizer;

#[test]
fn test_tokenize() {
    let tokenizer = SimpleTokenizer::new();

    // Test basic tokenization
    let tokens = tokenizer.tokenize("Hello, world!");
    assert_eq!(tokens, vec!["hello", "world"]);

    // Test with multiple spaces and punctuation
    let tokens = tokenizer.tokenize("This is a   test, with some punctuation!");
    assert_eq!(tokens, vec!["this", "is", "a", "test", "with", "some", "punctuation"]);

    // Test with numbers
    let tokens = tokenizer.tokenize("TF-IDF is calculated as tf * idf for term t in doc d.");
    assert_eq!(
        tokens,
        vec!["tf", "idf", "is", "calculated", "as", "tf", "idf", "for", "term", "t", "in", "doc", "d"]
    );
}

#[test]
fn simple_tokenizer_test_stopwords() {
    let mut tokenizer = SimpleTokenizer::new();

    // Test default stopwords
    assert!(tokenizer.is_stopword("the"));
    assert!(tokenizer.is_stopword("and"));
    assert!(!tokenizer.is_stopword("hello"));

    // Test case insensitivity
    assert!(tokenizer.is_stopword("The"));

    // Add custom stopword
    tokenizer.add_stopword("hello");
    assert!(tokenizer.is_stopword("hello"));

    // Remove stopword
    assert!(tokenizer.remove_stopword("hello"));
    assert!(!tokenizer.is_stopword("hello"));

    // Get all stopwords
    let stopwords = tokenizer.stopwords();
    assert!(stopwords.contains(&"the".to_string()));
    assert!(stopwords.len() > 0);
}

#[test]
fn test_custom_stopwords() {
    let tokenizer = SimpleTokenizer::with_stopwords(vec!["custom", "words"]);

    // Should only have our custom stopwords
    assert!(tokenizer.is_stopword("custom"));
    assert!(tokenizer.is_stopword("words"));
    assert!(!tokenizer.is_stopword("the")); // Default stopword, not included
}

#[test]
fn tokenize_edge_cases() {
    let tokenizer = SimpleTokenizer::new();
    let empty: Vec<String> = Vec::new();
    assert_eq!(tokenizer.tokenize(""), empty);
    assert_eq!(tokenizer.tokenize("... !!! ,,,"), empty);
    assert_eq!(tokenizer.tokenize("one"), vec!["one"]);
    assert_eq!(tokenizer.tokenize("3rd item2"), vec!["3rd", "item2"]);
}

#[test]
fn custom_stopwords_are_lowercased() {
    let tokenizer = SimpleTokenizer::with_stopwords(vec!["LOUD"]);
    assert!(tokenizer.is_stopword("loud"));
    assert!(tokenizer.is_stopword("Loud"));
    assert!(!tokenizer.is_stopword("quiet"));
}
