use tictactoe::input::{input_coords, parse_list};
use tictactoe::state::GameError;

#[test]
fn parse_list_plain() {
    assert_eq!(parse_list("1,2"), Ok(vec![1, 2]));
}

#[test]
fn parse_list_with_whitespace() {
    assert_eq!(parse_list(" 1 ,\t2 \n"), Ok(vec![1, 2]));
}

#[test]
fn parse_list_single_item() {
    assert_eq!(parse_list("7"), Ok(vec![7]));
}

#[test]
fn parse_list_many_items() {
    assert_eq!(parse_list("0, 10, 200"), Ok(vec![0, 10, 200]));
}

#[test]
fn parse_list_rejects_empty_line() {
    assert_eq!(parse_list(""), Err(GameError::InputParseError));
}

#[test]
fn parse_list_rejects_empty_item() {
    assert_eq!(parse_list("1,"), Err(GameError::InputParseError));
    assert_eq!(parse_list(",2"), Err(GameError::InputParseError));
    assert_eq!(parse_list("1,,2"), Err(GameError::InputParseError));
}

#[test]
fn parse_list_rejects_non_digits() {
    assert_eq!(parse_list("a,2"), Err(GameError::InputParseError));
    assert_eq!(parse_list("1, -2"), Err(GameError::InputParseError));
    assert_eq!(parse_list("1 2"), Err(GameError::InputParseError));
}

#[test]
fn parse_list_rejects_overflow() {
    assert_eq!(
        parse_list("99999999999999999999999999"),
        Err(GameError::InputParseError)
    );
}

#[test]
fn input_coords_accepts_two_numbers() {
    assert_eq!(input_coords("1, 2"), Ok((1, 2)));
    assert_eq!(input_coords("1, 2\n"), Ok((1, 2)));
    assert_eq!(input_coords("0,0"), Ok((0, 0)));
}

#[test]
fn input_coords_rejects_wrong_count() {
    assert_eq!(input_coords("1"), Err(GameError::InputParseError));
    assert_eq!(input_coords("1, 2, 3"), Err(GameError::InputParseError));
}

#[test]
fn input_coords_rejects_malformed() {
    assert_eq!(input_coords("one, two"), Err(GameError::InputParseError));
    assert_eq!(input_coords(""), Err(GameError::InputParseError));
}
