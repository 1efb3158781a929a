use torus_life::size::{choose_size, parse_args, DEFAULT_SIZE};

fn args(words: &[&str]) -> Vec<String> {
    words.iter().map(|w| w.to_string()).collect()
}

#[test]
fn the_default_size_is_23_by_40() {
    assert_eq!(DEFAULT_SIZE, (23, 40));
}

#[test]
fn two_positive_numbers_are_taken_as_they_are() {
    assert_eq!(choose_size(Some(5), Some(7)), (5, 7));
    assert_eq!(choose_size(Some(1), Some(1)), (1, 1));
    assert_eq!(choose_size(Some(usize::MAX), Some(2)), (usize::MAX, 2));
}

#[test]
fn a_missing_number_gives_the_whole_default() {
    assert_eq!(choose_size(None, None), (23, 40));
    assert_eq!(choose_size(Some(5), None), (23, 40));
    assert_eq!(choose_size(None, Some(7)), (23, 40));
}

#[test]
fn a_zero_gives_the_whole_default() {
    assert_eq!(choose_size(Some(0), Some(7)), (23, 40));
    assert_eq!(choose_size(Some(5), Some(0)), (23, 40));
    assert_eq!(choose_size(Some(0), Some(0)), (23, 40));
}

#[test]
fn without_two_size_arguments_the_default_is_used() {
    assert_eq!(parse_args(&args(&[])), (23, 40));
    assert_eq!(parse_args(&args(&["life"])), (23, 40));
    assert_eq!(parse_args(&args(&["life", "10"])), (23, 40));
    assert_eq!(parse_args(&args(&["life", "10", "20", "30"])), (23, 40));
}

#[test]
fn two_numbers_on_the_command_line_give_the_size() {
    assert_eq!(parse_args(&args(&["life", "10", "20"])), (10, 20));
    assert_eq!(parse_args(&args(&["life", "1", "2"])), (1, 2));
    assert_eq!(parse_args(&args(&["life", "+3", "004"])), (3, 4));
}

#[test]
fn white_space_around_a_number_is_ignored() {
    assert_eq!(parse_args(&args(&["life", " 12 ", "7"])), (12, 7));
    assert_eq!(parse_args(&args(&["life", "12", "\t7\n"])), (12, 7));
    assert_eq!(parse_args(&args(&["life", "1 2", "7"])), (23, 40));
}

#[test]
fn text_that_is_no_number_gives_the_whole_default() {
    assert_eq!(parse_args(&args(&["life", "ten", "20"])), (23, 40));
    assert_eq!(parse_args(&args(&["life", "10", "twenty"])), (23, 40));
    assert_eq!(parse_args(&args(&["life", "", ""])), (23, 40));
    assert_eq!(parse_args(&args(&["life", "-5", "20"])), (23, 40));
    assert_eq!(parse_args(&args(&["life", "10", "2.5"])), (23, 40));
    assert_eq!(parse_args(&args(&["life", "99999999999999999999999999", "20"])), (23, 40));
}

#[test]
fn a_zero_on_the_command_line_gives_the_whole_default() {
    assert_eq!(parse_args(&args(&["life", "0", "20"])), (23, 40));
    assert_eq!(parse_args(&args(&["life", "10", "0"])), (23, 40));
}
