use review::views::{id_named, index_label, qualifier_name, rules_saved_message, stamped_file_path, trim_trailing_slashes};

#[test]
fn index_labels_are_right_aligned() {
    assert_eq!(index_label(0, 3, "a"), "1 a");
    assert_eq!(index_label(0, 9, "x"), " 1 x");
    assert_eq!(index_label(8, 9, "x"), " 9 x");
    assert_eq!(index_label(9, 10, "y"), "10 y");
    assert_eq!(index_label(0, 99, ""), "  1 ");
    assert_eq!(index_label(98, 99, "z"), " 99 z");
}

#[test]
fn index_label_width_matches_the_float_formula() {
    for count in [1usize, 8, 9, 10, 98, 99, 100, 998, 999, 1000, 12345] {
        let width = ((count + 1) as f64).log10() as usize + 1;
        for i in [0, count / 2, count - 1] {
            let index_str = (i + 1).to_string();
            let expected = " ".repeat(width - index_str.len()) + &index_str + " " + "s";
            assert_eq!(index_label(i, count, "s"), expected);
        }
    }
}

#[test]
fn trailing_slashes_are_trimmed() {
    assert_eq!(trim_trailing_slashes("http://h:1///"), "http://h:1");
    assert_eq!(trim_trailing_slashes("http://h:1"), "http://h:1");
    assert_eq!(trim_trailing_slashes("///"), "");
    assert_eq!(trim_trailing_slashes(""), "");
}

#[test]
fn qualifier_names() {
    assert_eq!(qualifier_name(1), "Suspicious");
    assert_eq!(qualifier_name(2), "Benign");
    assert_eq!(qualifier_name(3), "None");
    assert_eq!(qualifier_name(-7), "None");
}

#[test]
fn stamped_paths() {
    assert_eq!(stamped_file_path("/tmp", "20200101", "_benign_rules.txt"), "/tmp/20200101_benign_rules.txt");
    assert_eq!(stamped_file_path("/tmp/", "20200101", "_clusters"), "/tmp/20200101_clusters");
    assert_eq!(stamped_file_path("", "T", "_x"), "/T_x");
}

#[test]
fn rules_saved_messages() {
    assert_eq!(rules_saved_message("/a b", None), "The benign rules have been saved to \n\n\"/a b\".");
    assert_eq!(
        rules_saved_message("/p", Some("denied")),
        "An error occurs while writing benign rules to \"/p\".\nError: denied"
    );
}

#[test]
fn ids_by_lowercase_name() {
    let entries = vec![(1, "Active".to_string()), (2, "REVIEW".to_string()), (3, "review".to_string())];
    assert_eq!(id_named(&entries, "review"), Some(2));
    assert_eq!(id_named(&entries, "active"), Some(1));
    assert_eq!(id_named(&entries, "done"), None);
}
