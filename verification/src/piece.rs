use vstd::prelude::*;

verus! {

/// A Quarto piece: four boolean attributes packed in the low nibble of
/// `properties`, with the bitwise complement of that nibble stored in the
/// high nibble. Two pieces then share an attribute value (in either
/// polarity) exactly when the AND of their `properties` bytes is non-zero.
#[derive(Debug, Copy, Clone, PartialEq, Eq, Structural)]
pub struct Piece {
    pub properties: u8,
}

/// One of the four piece attributes.
#[derive(Debug, Copy, Clone, PartialEq, Eq, Structural)]
pub enum Property {
    Tall,
    Round,
    Full,
    Light,
}

/// The bit an attribute occupies in a piece's low nibble.
pub open spec fn property_mask(prop: Property) -> u8 {
    match prop {
        Property::Tall => 1,
        Property::Round => 2,
        Property::Full => 4,
        Property::Light => 8,
    }
}

/// The canonical piece whose attribute nibble is `props` (`props < 16`):
/// the low nibble holds the attributes, the high nibble their complement.
pub open spec fn canonical_piece(props: u8) -> Piece {
    Piece { properties: props | ((!props) << 4) }
}

impl Property {
    /// The bit this attribute occupies in a piece's low nibble.
    pub fn mask(self) -> (r: u8)
        ensures
            r == property_mask(self),
    {
        match self {
            Property::Tall => 1,
            Property::Round => 2,
            Property::Full => 4,
            Property::Light => 8,
        }
    }
}

impl Piece {
    /// Builds the canonical piece for an attribute nibble in `0..16`.
    pub fn with_props_props(props: u8) -> (r: Piece)
        requires
            props < 16,
        ensures
            r == canonical_piece(props),
    {
        Piece { properties: props | ((!props) << 4) }
    }

    /// Tests one attribute bit of this piece.
    pub fn get(self, prop: Property) -> (r: bool)
        ensures
            r == ((self.properties & property_mask(prop)) != 0),
    {
        (self.properties & prop.mask()) != 0
    }
}

/// The ordered canonical piece set: the 16 attribute nibbles, lowest first.
pub fn canonical_pieces() -> (r: Vec<Piece>)
    ensures
        r@.len() == 16,
        forall|i: int| 0 <= i < 16 ==> r@[i] == canonical_piece(i as u8),
{
    let mut v: Vec<Piece> = Vec::new();
    let mut n: u8 = 0;
    while n < 16
        invariant
            n <= 16,
            v@.len() == n as int,
            forall|i: int| 0 <= i < n as int ==> v@[i] == canonical_piece(i as u8),
        decreases 16 - n as int,
    {
        v.push(Piece::with_props_props(n));
        n = n + 1;
    }
    v
}

/// Law: the 16 canonical pieces are pairwise distinct, and the attribute
/// nibble of the piece built from `n` is exactly `n`, so the canonical
/// attribute vectors are exactly the values `0..16`.
pub proof fn lemma_canonical_pieces_distinct()
    ensures
        forall|a: u8, b: u8|
            a < 16 && b < 16 && a != b ==> canonical_piece(a) != canonical_piece(b),
        forall|n: u8| n < 16 ==> (canonical_piece(n).properties & 0x0F) == n,
{
    assert forall|a: u8, b: u8|
        a < 16 && b < 16 && a != b implies canonical_piece(a) != canonical_piece(b) by {
        assert((a | ((!a) << 4)) != (b | ((!b) << 4))) by (bit_vector)
            requires
                a < 16,
                b < 16,
                a != b,
        ;
    }
    assert forall|n: u8| n < 16 implies (canonical_piece(n).properties & 0x0F) == n by {
        assert(((n | ((!n) << 4)) & 0x0F) == n) by (bit_vector)
            requires
                n < 16,
        ;
    }
}

} // verus!
