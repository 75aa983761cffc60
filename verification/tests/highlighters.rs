use rhesis::bridge::CustomHighlighter as WordHighlighter;
use rhesis::interop::bridge::{AsyncHelper, CustomHighlighter, Range, Recommendation};
use rhesis::languatool::service::{Message, Suggestion};
use rhesis::ui::bridge::{CustomHighlighter as SpanHighlighter, Recomendation};

fn rec(start: i32, length: i32, value: &str) -> Recommendation {
    Recommendation {
        range: Range { start, length },
        value: value.to_string(),
        color: "#00FF00".to_string(),
    }
}

fn highlighter(recs: Vec<Recommendation>) -> CustomHighlighter {
    let mut h = CustomHighlighter::new();
    h.apply_suggestion(Suggestion(recs));
    h
}

#[test]
fn words_starting_with_a_are_underlined() {
    let h = WordHighlighter::new();
    assert_eq!(
        h.highlight_block("apple banana Avocado a1b x1abc 1abc"),
        vec![(0, 5), (13, 7), (21, 3), (32, 3)]
    );
    assert_eq!(h.highlight_block(""), vec![]);
    assert_eq!(h.highlight_block("--a--"), vec![(2, 1)]);
    assert_eq!(h.highlight_block("ba aé"), vec![(3, 1)]);
}

#[test]
fn made_up_suggestions() {
    let h = WordHighlighter::new();
    assert_eq!(h.get_suggestions("word"), "super_word;mega_word;ultra_word");
    assert_eq!(h.get_suggestions(""), "super_;mega_;ultra_");
}

#[test]
fn one_underline_per_recommendation() {
    let h = highlighter(vec![rec(3, 4, "x"), rec(10, 2, "y")]);
    let u = h.highlight_block("ignored");
    assert_eq!(u.len(), 2);
    assert_eq!((u[0].start, u[0].length, u[0].color.as_str()), (3, 4, "#00FF00"));
    assert_eq!((u[1].start, u[1].length), (10, 2));
}

#[test]
fn at_most_five_offered_suggestions() {
    let recs = (0..8).map(|i| rec(10 + i, 3, &format!("v{}", i))).collect();
    let h = highlighter(recs);
    assert_eq!(h.get_suggestions(10, 3), vec!["v0", "v1", "v2", "v3", "v4"]);
    assert_eq!(h.get_suggestions(16, 3), vec!["v6", "v7"]);
    assert_eq!(h.get_suggestions(0, 2), Vec::<String>::new());
}

#[test]
fn suggestions_filter_by_start_and_length() {
    let h = highlighter(vec![rec(5, 10, "long"), rec(4, 1, "early"), rec(6, 2, "fits")]);
    assert_eq!(h.get_suggestions(5, 3), vec!["fits"]);
}

#[test]
fn find_recommendation_gives_first_covering_span() {
    let h = highlighter(vec![rec(3, 4, "x"), rec(5, 10, "y")]);
    assert_eq!(h.find_recommendation(3), "3;7");
    assert_eq!(h.find_recommendation(6), "3;7");
    assert_eq!(h.find_recommendation(7), "5;15");
    assert_eq!(h.find_recommendation(15), "");
    assert_eq!(h.find_recommendation(2), "");
    let neg = highlighter(vec![rec(-5, 3, "n")]);
    assert_eq!(neg.find_recommendation(-4), "-5;-2");
}

#[test]
fn replace_word_clears_recommendations() {
    let mut h = highlighter(vec![rec(3, 4, "x")]);
    let edit = h.replace_word(3, 7, "word");
    assert_eq!((edit.start, edit.end, edit.replacement.as_str()), (3, 7, "word"));
    assert!(h.rust.recommendations.is_empty());
    assert_eq!(h.find_recommendation(4), "");
}

#[test]
fn suppressed_change_is_passed_over_once() {
    let mut helper = AsyncHelper::new();
    let m: Option<Message> = helper.text_area_changed("a".to_string());
    assert_eq!(m.unwrap().0, "a");
    helper.rust.suppress_next = true;
    assert!(helper.text_area_changed("b".to_string()).is_none());
    assert_eq!(helper.text_area_changed("c".to_string()).unwrap().0, "c");
}

#[test]
fn default_message_and_suggestion_are_empty() {
    assert_eq!(Message::default().0, "");
    assert!(Suggestion::default().0.is_empty());
}

fn span(start: i32, end: i32, value: &str) -> Recomendation {
    Recomendation { start, end, value: value.to_string(), color: "red".to_string() }
}

#[test]
fn span_highlighter_underlines_start_to_end() {
    let mut h = SpanHighlighter::new();
    let u = h.highlight_block(vec![span(2, 6, "a"), span(8, 9, "b")]);
    assert_eq!((u[0].start, u[0].length), (2, 4));
    assert_eq!((u[1].start, u[1].length, u[1].color.as_str()), (8, 1, "red"));
    assert_eq!(h.rust.recommendation.len(), 2);
}

#[test]
fn span_highlighter_joins_suggestions_within() {
    let mut h = SpanHighlighter::new();
    h.highlight_block(vec![span(2, 6, "a"), span(1, 3, "b"), span(3, 5, "c")]);
    assert_eq!(h.get_suggestions(2, 6), "a;c");
    assert_eq!(h.get_suggestions(0, 1), "");
}

#[test]
fn span_highlighter_replace_word_gives_the_edit() {
    let mut h = SpanHighlighter::new();
    h.highlight_block(vec![span(2, 6, "a")]);
    let edit = h.replace_word(2, 6, "word");
    assert_eq!((edit.start, edit.end, edit.replacement.as_str()), (2, 6, "word"));
    assert_eq!(h.rust.recommendation.len(), 1);
}

#[test]
fn a_new_helper_passes_every_change_on() {
    let mut helper = AsyncHelper::new();
    for text in ["", "a", "a", " b "] {
        assert_eq!(helper.text_area_changed(text.to_string()).unwrap().0, text);
        assert!(!helper.rust.suppress_next);
    }
}
