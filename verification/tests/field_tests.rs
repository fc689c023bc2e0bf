use quarto::field::Field;
use quarto::piece::Piece;
use quarto::piece::Property;

fn light_tall() -> Piece {
    Piece::with_props_props(Property::Tall.mask() | Property::Light.mask())
}

fn dark_short() -> Piece {
    Piece { properties: 0 }
}

#[test]
fn test_squares() {
    let mut field = Field::new();
    field.square_mode = true;

    field.put((0, 0), light_tall()).unwrap();
    field.put((0, 1), light_tall()).unwrap();
    field.put((1, 0), light_tall()).unwrap();

    assert!(!field.check_field_for_win());

    field.put((1, 1), light_tall()).unwrap();

    assert!(field.check_field_for_win());
}

#[test]
fn test_wrong_prop_square() {
    let mut field = Field::new();
    field.square_mode = true;

    field.put((0, 0), light_tall()).unwrap();
    field.put((0, 1), dark_short()).unwrap();
    field.put((1, 0), light_tall()).unwrap();
    field.put((1, 1), light_tall()).unwrap();

    assert!(!field.check_field_for_win());
}

#[test]
fn test_different_square() {
    let mut field = Field::new();
    field.square_mode = true;

    field.put((2, 2), light_tall()).unwrap();
    field.put((2, 3), light_tall()).unwrap();
    field.put((3, 2), light_tall()).unwrap();
    field.put((3, 3), light_tall()).unwrap();

    assert!(field.check_field_for_win());
}

#[test]
fn test_row() {
    let mut field = Field::new();

    field.put((0, 0), light_tall()).unwrap();
    field.put((0, 1), light_tall()).unwrap();
    field.put((0, 2), light_tall()).unwrap();

    assert!(!field.check_field_for_win());

    field.put((0, 3), light_tall()).unwrap();

    assert!(field.check_field_for_win());
}

#[test]
fn test_wrong_prop_row() {
    let mut field = Field::new();

    field.put((0, 0), light_tall()).unwrap();
    field.put((0, 1), light_tall()).unwrap();
    field.put((0, 2), dark_short()).unwrap();

    assert!(!field.check_field_for_win());

    field.put((0, 3), light_tall()).unwrap();

    assert!(!field.check_field_for_win());
}

#[test]
fn test_col() {
    let mut field = Field::new();

    field.put((0, 0), light_tall()).unwrap();
    field.put((1, 0), light_tall()).unwrap();
    field.put((2, 0), light_tall()).unwrap();

    assert!(!field.check_field_for_win());

    field.put((3, 0), light_tall()).unwrap();

    assert!(field.check_field_for_win());
}

#[test]
fn test_wrong_prop_col() {
    let mut field = Field::new();

    field.put((0, 0), light_tall()).unwrap();
    field.put((1, 0), light_tall()).unwrap();
    field.put((2, 0), dark_short()).unwrap();

    assert!(!field.check_field_for_win());

    field.put((3, 0), light_tall()).unwrap();

    assert!(!field.check_field_for_win());
}

#[test]
fn test_diag() {
    let mut field = Field::new();

    field.put((0, 0), light_tall()).unwrap();
    field.put((1, 1), light_tall()).unwrap();
    field.put((2, 2), light_tall()).unwrap();

    assert!(!field.check_field_for_win());

    field.put((3, 3), light_tall()).unwrap();

    assert!(field.check_field_for_win());
}

#[test]
fn test_wrong_prop_diag() {
    let mut field = Field::new();

    field.put((0, 0), light_tall()).unwrap();
    field.put((1, 1), light_tall()).unwrap();
    field.put((2, 2), dark_short()).unwrap();

    assert!(!field.check_field_for_win());

    field.put((3, 3), light_tall()).unwrap();

    assert!(!field.check_field_for_win());
}

#[test]
fn test_other_diag() {
    let mut field = Field::new();

    field.put((3, 0), light_tall()).unwrap();
    field.put((2, 1), light_tall()).unwrap();
    field.put((1, 2), light_tall()).unwrap();

    assert!(!field.check_field_for_win());

    field.put((0, 3), light_tall()).unwrap();

    assert!(field.check_field_for_win());
}

#[test]
fn test_check_field_for_win() {
    let test_light_tall = Piece::with_props_props(Property::Tall.mask() | Property::Light.mask());
    let test_dark_short = Piece::with_props_props(0);

    let mut field = Field::new();

    field.put((3, 0), test_light_tall).unwrap();
    field.put((2, 1), test_light_tall).unwrap();
    field.put((1, 2), test_dark_short).unwrap();

    assert!(!field.check_field_for_win());

    field.put((0, 3), test_light_tall).unwrap();
}

#[test]
fn test_put_occupied_cell_is_rejected() {
    let mut field = Field::new();
    field.put((2, 2), light_tall()).unwrap();
    assert!(field.put((2, 2), dark_short()).is_err());
    // the occupant is untouched
    assert_eq!(field.get((2, 2)), Some(light_tall()));
}

#[test]
fn test_clear_returns_occupant() {
    let mut field = Field::new();
    field.put((1, 3), light_tall()).unwrap();
    assert_eq!(field.clear((1, 3)), Some(light_tall()));
    assert_eq!(field.clear((1, 3)), None);
    assert_eq!(field.get((1, 3)), None);
}

#[test]
fn test_empty_spaces_row_major_order() {
    let mut field = Field::new();
    assert_eq!(field.empty_spaces().len(), 16);
    assert_eq!(field.empty_spaces()[0], (0, 0));
    assert_eq!(field.empty_spaces()[15], (3, 3));

    field.put((0, 1), light_tall()).unwrap();
    field.put((2, 0), dark_short()).unwrap();
    let spaces = field.empty_spaces();
    assert_eq!(spaces.len(), 14);
    let expected: Vec<(usize, usize)> = vec![
        (0, 0),
        (0, 2),
        (0, 3),
        (1, 0),
        (1, 1),
        (1, 2),
        (1, 3),
        (2, 1),
        (2, 2),
        (2, 3),
        (3, 0),
        (3, 1),
        (3, 2),
        (3, 3),
    ];
    assert_eq!(spaces, expected);
}

// A 2x2 block of four pieces sharing an attribute wins only in square
// mode; the very same board is no win without it.
#[test]
fn test_square_block_only_wins_in_square_mode() {
    let mut field = Field::new();
    field.put((1, 1), light_tall()).unwrap();
    field.put((1, 2), light_tall()).unwrap();
    field.put((2, 1), light_tall()).unwrap();
    field.put((2, 2), light_tall()).unwrap();

    field.square_mode = false;
    assert!(!field.check_field_for_win());

    field.square_mode = true;
    assert!(field.check_field_for_win());
}
