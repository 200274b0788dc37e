use line_cleanser::DataCleanser;
use line_cleanser::DEFAULT_MIN_LENGTH;

fn make(min_length: usize, keywords: Option<Vec<&str>>) -> DataCleanser {
    let owned = keywords.map(|ws| ws.iter().map(|w| w.to_string()).collect::<Vec<String>>());
    DataCleanser::new(min_length, owned).expect("matcher should compile")
}

fn lines(ls: &[&str]) -> Vec<String> {
    ls.iter().map(|l| l.to_string()).collect()
}

#[test]
fn default_min_length_is_twenty() {
    assert_eq!(DEFAULT_MIN_LENGTH, 20);
}

#[test]
fn identical_input_twice_accepts_nothing_new() {
    let mut c = make(5, None);
    let batch = lines(&["first unique line", "second unique line", "third unique line"]);
    let n1 = c.process_lines(&batch);
    assert_eq!(n1, 3);
    assert_eq!(c.count(), 3);
    let n2 = c.process_lines(&batch);
    assert_eq!(n2, 0);
    assert_eq!(c.count(), n1);
}

#[test]
fn order_of_distinct_accepted_lines_is_preserved() {
    let mut c = make(5, None);
    let batch = lines(&["alpha line one", "bravo line two", "charlie line three"]);
    let n = c.process_lines(&batch);
    assert_eq!(n, 3);
    let stored = c.cleaned_lines();
    assert_eq!(stored.len(), 3);
    assert_eq!(stored[0], "alpha line one");
    assert_eq!(stored[1], "bravo line two");
    assert_eq!(stored[2], "charlie line three");
}

#[test]
fn length_boundary_is_inclusive() {
    let mut c = make(20, None);
    // exactly 20 characters: kept
    assert!(c.process_line("abcdefghijklmnopqrst"));
    // 19 characters: dropped
    assert!(!c.process_line("abcdefghijklmnopqrs"));
    assert_eq!(c.count(), 1);
}

#[test]
fn length_filter_counts_characters_not_bytes() {
    let mut c = make(5, None);
    // five characters, ten bytes
    assert!(c.process_line("ééééé"));
    // four characters
    assert!(!c.process_line("éééé"));
    assert_eq!(c.count(), 1);
}

#[test]
fn comment_suffix_is_stripped_before_everything() {
    let mut c = make(20, None);
    assert!(c.process_line("hello world this is fine # secret suffix"));
    assert_eq!(c.cleaned_lines()[0], "hello world this is fine");
    // same content before the '#': a duplicate, though the comment differs
    assert!(!c.process_line("hello world this is fine # another comment"));
    assert_eq!(c.count(), 1);
}

#[test]
fn comment_only_line_normalizes_to_empty() {
    let mut c = make(0, None);
    assert!(c.process_line("# nothing but comment"));
    assert_eq!(c.cleaned_lines()[0], "");
    // the empty candidate is now a duplicate of itself
    assert!(!c.process_line(""));
    assert!(!c.process_line("   # also empties out"));
    assert_eq!(c.count(), 1);
}

#[test]
fn keyword_substring_rejects_the_line() {
    let mut c = make(10, Some(vec!["badword"]));
    assert!(!c.process_line("this line has a badword embedded"));
    assert!(c.process_line("this line has nothing wrong here"));
    assert_eq!(c.count(), 1);
}

#[test]
fn keyword_matching_is_case_insensitive_via_the_key() {
    let mut c = make(10, Some(vec!["badword"]));
    assert!(!c.process_line("Contains BADWORD in upper case"));
    assert!(!c.process_line("also BadWord mixed in lower case"));
    assert_eq!(c.count(), 0);
}

#[test]
fn keyword_inside_larger_word_still_matches() {
    let mut c = make(5, Some(vec!["bad"]));
    assert!(!c.process_line("sinbad the sailor arrives"));
    assert_eq!(c.count(), 0);
}

#[test]
fn no_keywords_means_no_keyword_filtering() {
    let mut c = make(5, None);
    assert!(c.process_line("any words at all pass here"));
    let mut d = make(5, Some(vec![]));
    assert!(d.process_line("any words at all pass here"));
    assert_eq!(c.count(), 1);
    assert_eq!(d.count(), 1);
}

#[test]
fn cross_call_duplicate_is_attributed_to_the_first_source() {
    let mut c = make(5, None);
    let file_a = lines(&["Shared Normalized Line", "only in the first file"]);
    let file_b = lines(&["shared normalized line # same key", "only in the second file"]);
    let n_a = c.process_lines(&file_a);
    assert_eq!(n_a, 2);
    let n_b = c.process_lines(&file_b);
    assert_eq!(n_b, 1);
    let stored = c.cleaned_lines();
    assert_eq!(stored.len(), 3);
    // the shared line keeps the first file's casing and position
    assert_eq!(stored[0], "Shared Normalized Line");
    assert_eq!(stored[1], "only in the first file");
    assert_eq!(stored[2], "only in the second file");
}

#[test]
fn case_insensitive_dedup_keeps_the_first_casing() {
    let mut c = make(20, None);
    assert!(c.process_line("Hello World Hello World"));
    assert!(!c.process_line("hello world hello world"));
    assert_eq!(c.count(), 1);
    assert_eq!(c.cleaned_lines()[0], "Hello World Hello World");
}

#[test]
fn leading_and_trailing_whitespace_is_trimmed() {
    let mut c = make(5, None);
    assert!(c.process_line("   padded content line here   "));
    assert_eq!(c.cleaned_lines()[0], "padded content line here");
    assert!(c.process_line("\tTabbed content stays intact\t"));
    assert_eq!(c.cleaned_lines()[1], "Tabbed content stays intact");
}

#[test]
fn internal_whitespace_is_not_collapsed() {
    let mut c = make(5, None);
    assert!(c.process_line("double  spaces  stay  intact"));
    assert_eq!(c.cleaned_lines()[0], "double  spaces  stay  intact");
    assert!(c.process_line("tabs\tstay\ttabs inside"));
    assert_eq!(c.cleaned_lines()[1], "tabs\tstay\ttabs inside");
}

#[test]
fn batch_count_is_per_call_and_count_is_cumulative() {
    let mut c = make(5, None);
    let first = lines(&["one shared entry line", "a first-only entry"]);
    let second = lines(&["one shared entry line", "a second-only entry", "yet another new one"]);
    assert_eq!(c.process_lines(&first), 2);
    assert_eq!(c.process_lines(&second), 2);
    assert_eq!(c.count(), 4);
}

#[test]
fn non_breaking_space_and_plain_space_make_duplicates() {
    let mut c = make(5, None);
    assert!(c.process_line("alpha\u{00A0}beta gamma line"));
    // stored with the substitution already applied
    assert_eq!(c.cleaned_lines()[0], "alpha beta gamma line");
    // the plain-space twin is a duplicate
    assert!(!c.process_line("alpha beta gamma line"));
    assert_eq!(c.count(), 1);
}

#[test]
fn keyword_with_a_space_matches_across_a_non_breaking_space() {
    let mut c = make(5, Some(vec!["bad word"]));
    assert!(!c.process_line("contains bad\u{00A0}word inside here"));
    assert_eq!(c.count(), 0);
}

#[test]
fn empty_batch_accepts_nothing() {
    let mut c = make(5, None);
    assert_eq!(c.process_lines(&Vec::new()), 0);
    assert_eq!(c.count(), 0);
}

#[test]
fn keyword_only_in_the_comment_does_not_reject() {
    let mut c = make(5, Some(vec!["badword"]));
    assert!(c.process_line("clean content line here # badword"));
    assert_eq!(c.cleaned_lines()[0], "clean content line here");
}

#[test]
fn min_length_getter_reports_the_configuration() {
    let c = make(7, None);
    assert_eq!(c.min_length(), 7);
}

#[test]
fn rejected_lines_are_dropped_silently_without_state_change() {
    let mut c = make(30, Some(vec!["toxic"]));
    assert!(!c.process_line("too short"));
    assert!(!c.process_line("long enough but sadly toxic somewhere inside"));
    assert_eq!(c.count(), 0);
    assert_eq!(c.cleaned_lines().len(), 0);
}
