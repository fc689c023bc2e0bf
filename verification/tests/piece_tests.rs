use quarto::piece::Piece;
use quarto::piece::Property;
use quarto::piece::canonical_pieces;

#[test]
fn test_repr() {
    // Test the binary representation of a piece.
    let test_light_tall = Piece::with_props_props(Property::Tall.mask() | Property::Light.mask());
    assert!(test_light_tall.properties == 0b_0110_1001);
}

#[test]
fn test_property_masks_are_the_four_low_bits() {
    assert_eq!(Property::Tall.mask(), 1);
    assert_eq!(Property::Round.mask(), 2);
    assert_eq!(Property::Full.mask(), 4);
    assert_eq!(Property::Light.mask(), 8);
}

#[test]
fn test_get_reads_single_attributes() {
    let p = Piece::with_props_props(Property::Round.mask() | Property::Full.mask());
    assert!(!p.get(Property::Tall));
    assert!(p.get(Property::Round));
    assert!(p.get(Property::Full));
    assert!(!p.get(Property::Light));
}

// The 16 canonical pieces are pairwise distinct and their attribute
// nibbles are exactly the values 0 through 15.
#[test]
fn test_canonical_pieces_distinct_and_complete() {
    let pieces = canonical_pieces();
    assert_eq!(pieces.len(), 16);
    for (i, p) in pieces.iter().enumerate() {
        assert_eq!((p.properties & 0x0F) as usize, i);
        assert_eq!((p.properties >> 4) as usize, !i & 0x0F);
        for q in pieces.iter().skip(i + 1) {
            assert!(p != q);
        }
    }
}
