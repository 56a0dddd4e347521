use ai_context_gen::token_counter::{
    admission, char_prefix, sort_by_priority, Admission, ContentPrioritizer, ContentSection,
    TokenCounter,
};

fn count(counter: &TokenCounter, text: &str) -> usize {
    match counter.count_tokens(text) {
        Some(n) => n,
        None => panic!("no count"),
    }
}

fn truncated(counter: &TokenCounter, text: &str, max_tokens: usize) -> String {
    match counter.truncate_to_token_limit(text, max_tokens) {
        Some(t) => t,
        None => panic!("no text"),
    }
}

fn section(title: &str, body: &str, priority: u8) -> ContentSection {
    ContentSection::new(title.to_string(), body.to_string(), priority)
}

fn long_text(words: usize) -> String {
    let mut s = String::new();
    for i in 0..words {
        s.push_str("word");
        s.push_str(&i.to_string());
        s.push(' ');
    }
    s
}

#[test]
fn counts_tokens_of_a_short_text() {
    let counter = TokenCounter::new().ok().unwrap();
    assert_eq!(count(&counter, ""), 0);
    assert_eq!(count(&counter, "Hello, world!"), 4);
    assert_eq!(count(&counter, "hello world"), 2);
}

#[test]
fn truncation_to_own_count_is_identity() {
    let counter = TokenCounter::new().ok().unwrap();
    let text = "fn main() { println!(\"hi\"); }\n// done";
    let n = count(&counter, text);
    assert_eq!(truncated(&counter, text, n), text);
    assert_eq!(truncated(&counter, text, n + 7), text);
}

#[test]
fn truncation_keeps_a_token_prefix() {
    let counter = TokenCounter::new().ok().unwrap();
    let text = "hello world and more words follow here";
    let cut = truncated(&counter, text, 2);
    assert_eq!(cut, "hello world");
    assert!(count(&counter, &cut) <= 2);
    assert_eq!(truncated(&counter, text, 0), "");
}

#[test]
fn char_prefix_scales_by_tokens() {
    assert_eq!(char_prefix("abcdefghij", 1, 2), "abcde");
    assert_eq!(char_prefix("abcdefghij", 3, 4), "abcdefg");
    assert_eq!(char_prefix("abcdefghij", 0, 4), "");
    assert_eq!(char_prefix("abc", 9, 3), "abc");
    // two bytes per character: the limit counts bytes, the prefix characters
    assert_eq!(char_prefix("éééé", 1, 2), "éééé");
    assert_eq!(char_prefix("éééé", 1, 4), "éé");
}

#[test]
fn admission_thresholds() {
    assert_eq!(admission(10, 10), Admission::Whole);
    assert_eq!(admission(0, 0), Admission::Whole);
    assert_eq!(admission(11, 10), Admission::Stop);
    assert_eq!(admission(101, 100), Admission::Cut);
    assert_eq!(admission(101, 99), Admission::Stop);
    assert_eq!(admission(5000, 4999), Admission::Cut);
}

#[test]
fn section_constructors_set_priorities() {
    let s = ContentSection::new("t".to_string(), "c".to_string(), 7);
    assert_eq!((s.title.as_str(), s.content.as_str(), s.priority, s.truncated), ("t", "c", 7, false));
    assert_eq!(ContentSection::high_priority("a".to_string(), "b".to_string()).priority, 9);
    assert_eq!(ContentSection::medium_priority("a".to_string(), "b".to_string()).priority, 5);
    assert_eq!(ContentSection::low_priority("a".to_string(), "b".to_string()).priority, 1);
    assert!(!ContentSection::low_priority("a".to_string(), "b".to_string()).truncated);
}

#[test]
fn sorting_is_descending_and_stable() {
    let sorted = sort_by_priority(vec![
        section("a", "", 3),
        section("b", "", 10),
        section("c", "", 3),
        section("d", "", 0),
        section("e", "", 255),
        section("f", "", 10),
    ]);
    let titles: Vec<&str> = sorted.iter().map(|s| s.title.as_str()).collect();
    assert_eq!(titles, vec!["e", "b", "f", "a", "c", "d"]);
}

#[test]
fn everything_fits_in_a_large_budget() {
    let p = ContentPrioritizer::new().ok().unwrap();
    let out = p.prioritize_content(
        vec![section("low", "some text", 1), section("high", "other text", 10)],
        1000,
    );
    assert_eq!(out.len(), 2);
    assert_eq!(out[0].title, "high");
    assert_eq!(out[1].title, "low");
    assert!(!out[0].truncated && !out[1].truncated);
    assert_eq!(out[1].content, "some text");
}

#[test]
fn empty_input_gives_empty_output() {
    let p = ContentPrioritizer::new().ok().unwrap();
    assert!(p.prioritize_content(Vec::new(), 1000).is_empty());
}

#[test]
fn zero_budget_admits_nothing() {
    let p = ContentPrioritizer::new().ok().unwrap();
    let out = p.prioritize_content(vec![section("a", "text", 10), section("b", "more", 3)], 0);
    assert!(out.is_empty());
}

#[test]
fn single_oversized_section_is_cut_when_budget_allows() {
    let p = ContentPrioritizer::new().ok().unwrap();
    let counter = TokenCounter::new().ok().unwrap();
    let body = long_text(400);
    assert!(count(&counter, &body) > 150);
    let out = p.prioritize_content(vec![section("big", &body, 3)], 150);
    assert_eq!(out.len(), 1);
    assert!(out[0].truncated);
    assert_eq!(out[0].title, "big");
    assert_eq!(out[0].content, truncated(&counter, &body, 150));
    assert!(count(&counter, &out[0].content) <= 150);
    assert!(body.starts_with(&out[0].content));
}

#[test]
fn single_oversized_section_is_left_out_under_100_tokens() {
    let p = ContentPrioritizer::new().ok().unwrap();
    let body = long_text(400);
    assert!(p.prioritize_content(vec![section("big", &body, 3)], 99).is_empty());
    let at_threshold = p.prioritize_content(vec![section("big", &body, 3)], 100);
    assert_eq!(at_threshold.len(), 1);
    assert!(at_threshold[0].truncated);
}

#[test]
fn admission_stops_at_the_first_section_that_does_not_fit() {
    let p = ContentPrioritizer::new().ok().unwrap();
    let counter = TokenCounter::new().ok().unwrap();
    let big = long_text(300);
    let small = "tiny";
    let first = "first body";
    let budget = count(&counter, first) + 20;
    let out = p.prioritize_content(
        vec![section("small", small, 1), section("big", &big, 5), section("first", first, 9)],
        budget,
    );
    // the big section neither fits nor leaves 100 tokens: nothing after it is admitted
    assert_eq!(out.len(), 1);
    assert_eq!(out[0].title, "first");
    assert!(!out[0].truncated);
}

#[test]
fn admitted_tokens_stay_within_budget() {
    let p = ContentPrioritizer::new().ok().unwrap();
    let counter = TokenCounter::new().ok().unwrap();
    let a = long_text(60);
    let b = long_text(200);
    let c = long_text(500);
    let budget = 700;
    let out = p.prioritize_content(
        vec![section("c", &c, 3), section("a", &a, 10), section("b", &b, 8)],
        budget,
    );
    let titles: Vec<&str> = out.iter().map(|s| s.title.as_str()).collect();
    assert_eq!(titles, vec!["a", "b", "c"]);
    assert!(out[2].truncated);
    let total: usize = out.iter().map(|s| count(&counter, &s.content)).sum();
    assert!(total <= budget);
}

#[test]
fn truncation_falls_back_to_a_proportional_prefix() {
    let counter = TokenCounter::new().ok().unwrap();
    // each of these characters takes four bytes and two tokens
    let text = "😀".repeat(200);
    assert_eq!(count(&counter, &text), 400);
    assert_eq!(truncated(&counter, &text, 2), "😀");
    assert_eq!(truncated(&counter, &text, 100), "😀".repeat(50));
    // three tokens end inside a character: 800 bytes * 3 / 400 tokens give 6 characters
    assert_eq!(truncated(&counter, &text, 3), "😀".repeat(6));
    assert_eq!(truncated(&counter, &text, 3), char_prefix(&text, 3, 400));
}

#[test]
fn cutting_with_given_ids() {
    let counter = TokenCounter::new().ok().unwrap();
    let text = "hello world and more words follow here";
    let ids = match counter.encode_text(text) {
        Some(ids) => ids,
        None => panic!("no ids"),
    };
    assert_eq!(ids.len(), count(&counter, text));
    assert_eq!(ids[0], 15339);
    assert_eq!(counter.cut_to_tokens(text, ids.clone(), 2), "hello world");
    assert_eq!(counter.cut_to_tokens(text, ids.clone(), ids.len()), text);
    assert_eq!(counter.cut_to_tokens(text, ids, 0), "");
}

#[test]
fn a_text_that_the_tokenizer_gives_up_on_has_no_count() {
    let counter = TokenCounter::new().ok().unwrap();
    // a run of blanks before a visible character, longer than the pattern engine follows
    let mut hard = " ".repeat(1_200_000);
    hard.push('x');
    assert_eq!(counter.count_tokens(&hard), None);
    assert_eq!(counter.truncate_to_token_limit(&hard, 5), None);
    assert!(counter.encode_text(&hard).is_none());
    let mut easier = " ".repeat(900_000);
    easier.push('x');
    assert!(counter.count_tokens(&easier).is_some());
}

#[test]
fn a_section_that_cannot_be_counted_ends_admission() {
    let p = ContentPrioritizer::new().ok().unwrap();
    let mut hard = " ".repeat(1_200_000);
    hard.push('x');
    let sections = vec![
        section("last", "last body", 1),
        section("hard", &hard, 5),
        section("first", "first body", 9),
    ];
    let out = p.prioritize_content(sections, 10_000_000);
    let titles: Vec<&str> = out.iter().map(|s| s.title.as_str()).collect();
    assert_eq!(titles, vec!["first"]);
    assert!(!out[0].truncated);
}
