use flow::wer::{edit_distance, normalise};

fn words(s: &str) -> Vec<String> {
    normalise(s)
}

#[test]
fn identical_text_scores_zero() {
    let a = words("the quick brown fox");
    assert_eq!(edit_distance(&a, &a).0, 0);
}

#[test]
fn counts_each_kind_of_error() {
    let r = words("the quick brown fox jumps");
    let h = words("the quick red fox leaps over");
    let (dist, subs, del, ins) = edit_distance(&r, &h);
    assert_eq!(subs, 2, "brown->red and jumps->leaps");
    assert_eq!(ins, 1, "over");
    assert_eq!(del, 0);
    assert_eq!(dist, 3);
}

#[test]
fn normalisation_ignores_case_and_punctuation() {
    assert_eq!(words("It was, the BEST!"), words("it was the best"));
}

#[test]
fn keeps_apostrophes_because_they_change_the_word() {
    assert_ne!(words("were"), words("we're"));
}

#[test]
fn distance_is_the_same_both_ways_and_adds_up() {
    let r = words("a b c d e");
    let h = words("a x c e f g");
    let (dist, subs, del, ins) = edit_distance(&r, &h);
    assert_eq!(dist, edit_distance(&h, &r).0);
    assert_eq!(dist, subs + del + ins);
    assert_eq!(dist, 4);
}

#[test]
fn an_empty_side_costs_the_other() {
    let r = words("one two three");
    assert_eq!(edit_distance(&r, &[]), (3, 0, 3, 0));
    assert_eq!(edit_distance(&[], &r), (3, 0, 0, 3));
    assert_eq!(edit_distance(&[], &[]), (0, 0, 0, 0));
}

#[test]
fn the_distance_is_a_metric() {
    let texts = ["", "a", "a b c", "c b a", "a x c d", "the quick brown fox"];
    for a in texts {
        assert_eq!(edit_distance(&words(a), &words(a)), (0, 0, 0, 0));
        for b in texts {
            let ab = edit_distance(&words(a), &words(b)).0;
            assert_eq!(ab == 0, a == b);
            assert_eq!(ab, edit_distance(&words(b), &words(a)).0);
            for c in texts {
                let bc = edit_distance(&words(b), &words(c)).0;
                assert!(edit_distance(&words(a), &words(c)).0 <= ab + bc);
            }
        }
    }
}
