use swaydot::text::{length_in_clusters, limit_clusters, limit_text_size, try_limit_text_size};

#[test]
fn limits_the_size_to_the_given_length() {
    assert_eq!(limit_text_size(5, "123456".to_string()).len(), 5);
}

#[test]
fn inserts_dots_in_the_middle() {
    assert_eq!(limit_text_size(7, "1234567890".to_string()), "12...90");
}

#[test]
fn works_for_even_limits() {
    assert_eq!(limit_text_size(8, "1234567890".to_string()), "123...90");
}

#[test]
fn does_not_modify_short_enough_strings() {
    assert_eq!(limit_text_size(8, "12345678".to_string()), "12345678");
    assert_eq!(limit_text_size(8, "1234567".to_string()), "1234567");
}

#[test]
fn when_limit_too_small_returns_prefix() {
    assert_eq!(limit_text_size(4, "12345678".to_string()), "1...");
    assert_eq!(limit_text_size(3, "12345678".to_string()), "123");
    assert_eq!(limit_text_size(2, "12345678".to_string()), "12");
}

#[test]
fn handles_unicode_characters_gracefully() {
    let unicode_string = "â€”3456";
    limit_text_size(5, unicode_string.to_string());
}

#[test]
fn limit_of_five_keeps_one_cluster_on_each_side() {
    assert_eq!(limit_text_size(5, "123456".to_string()), "1...6");
}

#[test]
fn limit_of_zero_and_one() {
    assert_eq!(limit_text_size(0, "12345678".to_string()), "");
    assert_eq!(limit_text_size(0, "".to_string()), "");
    assert_eq!(limit_text_size(1, "12345678".to_string()), "1");
}

#[test]
fn empty_text_stays_empty_above_three() {
    assert_eq!(limit_text_size(4, "".to_string()), "");
    assert_eq!(limit_text_size(18, "".to_string()), "");
}

#[test]
fn clusters_are_never_cut_apart() {
    // e + combining acute accent is one cluster, as is a flag of two regional indicators.
    let text = "e\u{301}bcdefgh\u{1f1e9}\u{1f1ea}".to_string();
    assert_eq!(length_in_clusters(&text), 9);
    assert_eq!(limit_text_size(5, text.clone()), "e\u{301}...\u{1f1e9}\u{1f1ea}");
    assert_eq!(limit_text_size(1, text.clone()), "e\u{301}");
    assert_eq!(limit_text_size(9, text.clone()), text);
}

#[test]
fn counts_clusters_not_characters() {
    assert_eq!(length_in_clusters(""), 0);
    assert_eq!(length_in_clusters("abc"), 3);
    assert_eq!(length_in_clusters("a\u{310}e\u{301}o\u{308}\u{332}"), 3);
    assert_eq!(length_in_clusters("a\r\nb"), 3);
}

#[test]
fn shortened_text_has_the_smaller_count() {
    let texts = ["", "a", "1234", "12345", "1234567890", "e\u{301}bcdefgh\u{1f1e9}\u{1f1ea}xyz"];
    for text in texts {
        for limit in 4..14usize {
            let shortened = limit_text_size(limit, text.to_string());
            let expected = std::cmp::min(limit, length_in_clusters(text));
            assert_eq!(length_in_clusters(&shortened), expected);
        }
    }
}

#[test]
fn a_mark_behind_the_ellipsis_joins_the_full_stop() {
    // The clusters are a, b, c, d, e, the line feed, and the lone accent.
    let text = "abcde\n\u{301}".to_string();
    assert_eq!(length_in_clusters(&text), 7);
    let shortened = limit_text_size(5, text);
    assert_eq!(shortened, "a...\u{301}");
    assert_eq!(length_in_clusters(&shortened), 4);
}

#[test]
fn shortens_given_clusters() {
    let clusters = vec!["1", "2", "3", "4", "5", "6", "7", "8", "9", "0"];
    assert_eq!(limit_clusters(7, &clusters), "12...90");
    assert_eq!(limit_clusters(8, &clusters), "123...90");
    assert_eq!(limit_clusters(10, &clusters), "1234567890");
    assert_eq!(limit_clusters(11, &clusters), "1234567890");
    assert_eq!(limit_clusters(3, &clusters), "123");
    assert_eq!(limit_clusters(4, &clusters), "1...");
    assert_eq!(limit_clusters(6, &clusters), "12...0");
    let pieces = vec!["ab", "cd", "ef", "gh", "ij"];
    assert_eq!(limit_clusters(4, &pieces), "ab...");
    assert_eq!(limit_clusters(2, &pieces), "abcd");
}

#[test]
fn try_variant_refuses_what_the_text_cannot_give() {
    assert_eq!(try_limit_text_size(3, "12".to_string()), None);
    assert_eq!(try_limit_text_size(1, "".to_string()), None);
    assert_eq!(try_limit_text_size(3, "123".to_string()), Some("123".to_string()));
    assert_eq!(try_limit_text_size(2, "12345678".to_string()), Some("12".to_string()));
    assert_eq!(try_limit_text_size(0, "".to_string()), Some("".to_string()));
    assert_eq!(try_limit_text_size(7, "1234567890".to_string()), Some("12...90".to_string()));
    assert_eq!(try_limit_text_size(4, "12".to_string()), Some("12".to_string()));
}
