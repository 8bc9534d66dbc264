use tvmenu::menu::{hidden_indices, match_lowered, match_strings, move_selection, text_contains, Step};

fn chars(text: &str) -> Vec<char> {
    text.chars().collect()
}

#[test]
fn a_step_down_moves_by_a_row() {
    assert_eq!(move_selection(0, 3, 10, Step::Down), 3);
    assert_eq!(move_selection(5, 3, 10, Step::Down), 8);
    assert_eq!(move_selection(6, 3, 10, Step::Down), 9);
    assert_eq!(move_selection(7, 3, 10, Step::Down), 9);
    assert_eq!(move_selection(9, 3, 10, Step::Down), 9);
    assert_eq!(move_selection(2, 0, 10, Step::Down), 2);
    assert_eq!(move_selection(9, 0, 10, Step::Down), 9);
    assert_eq!(move_selection(0, 1, 1, Step::Down), 0);
    assert_eq!(move_selection(0, 3, 0, Step::Down), 0);
    assert_eq!(move_selection(4, usize::MAX, 10, Step::Down), 9);
    assert_eq!(move_selection(usize::MAX, usize::MAX, usize::MAX, Step::Down), usize::MAX - 1);
}

#[test]
fn a_step_up_moves_by_a_row() {
    assert_eq!(move_selection(9, 3, 10, Step::Up), 6);
    assert_eq!(move_selection(3, 3, 10, Step::Up), 0);
    assert_eq!(move_selection(2, 3, 10, Step::Up), 0);
    assert_eq!(move_selection(0, 3, 10, Step::Up), 0);
    assert_eq!(move_selection(4, 0, 10, Step::Up), 4);
}

#[test]
fn a_step_sideways_moves_by_one() {
    assert_eq!(move_selection(4, 3, 10, Step::Left), 3);
    assert_eq!(move_selection(0, 3, 10, Step::Left), 0);
    assert_eq!(move_selection(4, 3, 10, Step::Right), 5);
    assert_eq!(move_selection(8, 3, 10, Step::Right), 9);
    assert_eq!(move_selection(9, 3, 10, Step::Right), 9);
    assert_eq!(move_selection(0, 3, 0, Step::Right), 0);
    assert_eq!(move_selection(0, 3, 0, Step::Left), 0);
}

#[test]
fn containment_is_what_the_standard_library_says() {
    let texts = ["", "a", "b", "ab", "ba", "aab", "aba", "abab", "bbb", "abc", "cab"];
    for hay in texts {
        for needle in texts {
            assert_eq!(
                text_contains(&chars(hay), &chars(needle)),
                hay.contains(needle),
                "{:?} in {:?}",
                needle,
                hay
            );
        }
    }
}

#[test]
fn a_filter_fits_whatever_the_case_and_the_space_around() {
    assert!(match_strings("Firefox", "fire"));
    assert!(match_strings("Firefox", " FOX "));
    assert!(match_strings("  Files  ", "files"));
    assert!(match_strings("Firefox", ""));
    assert!(match_strings("", ""));
    assert!(match_strings("ÄRGER", "ärg"));
    assert!(!match_strings("Firefox", "files"));
    assert!(!match_strings("Fire fox", "firefox"));
    assert!(!match_strings("", "x"));
    assert!(match_lowered(" firefox ", "fox"));
    assert!(!match_lowered("firefox", "Fox"));
}

#[test]
fn a_filter_hides_what_does_not_fit() {
    let titles: Vec<String> =
        ["Firefox", "Files", "Terminal", "Fire TV"].iter().map(|t| (*t).to_owned()).collect();
    assert_eq!(hidden_indices(&titles, "fi"), vec![2]);
    assert_eq!(hidden_indices(&titles, "FIRE"), vec![1, 2]);
    assert_eq!(hidden_indices(&titles, ""), Vec::<usize>::new());
    assert_eq!(hidden_indices(&titles, "zzz"), vec![0, 1, 2, 3]);
    assert_eq!(hidden_indices(&Vec::new(), "x"), Vec::<usize>::new());
}
