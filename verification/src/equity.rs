//! The pre-flop equity table.
//!
//! For every ordered pair of hands the table holds the number of ways, out of
//! `TOTAL_RUNOUTS`, in which the first hand comes out ahead of the second once
//! the five board cards are dealt: a board on which it wins counts twice, a
//! board on which the two tie counts once. The entries stand in the order of
//! the hand enumeration, the first hand outermost. Pairs of hands that share a
//! card have an entry too, which means nothing.
//!
//! On disk the table is a sequence of 32-bit integers in bincode's fixed-width
//! little-endian encoding: the number of entries in eight bytes, then four
//! bytes for each entry.

use crate::hands::NUM_HANDS;
use vstd::prelude::*;

verus! {

/// Twice the number of boards that can be dealt next to two hands: twice the
/// number of five-card subsets of the 48 cards left.
pub const TOTAL_RUNOUTS: u32 = 3_424_608;

/// Number of entries of a table: one for every ordered pair of hands.
pub const TABLE_LEN: usize = 1_758_276;

/// Why a table could not be loaded.
#[derive(Clone, Copy, Debug, PartialEq, Eq, Structural)]
pub enum TableError {
    /// The bytes are not the encoding of a sequence of 32-bit integers.
    Corrupt,
    /// The sequence does not have one entry for every ordered pair of hands.
    WrongLength,
}

/// The pre-flop equity table.
#[derive(Debug)]
pub struct EquityTable {
    counts: Vec<u32>,
}

/// The number that `width` bytes of `bytes` from `at` on stand for, least
/// significant byte first.
pub open spec fn little_endian(bytes: Seq<u8>, at: int, width: nat) -> nat
    decreases width,
{
    if width == 0 {
        0
    } else {
        bytes[at] as nat + 256 * little_endian(bytes, at + 1, (width - 1) as nat)
    }
}

/// Number of entries that the first eight bytes announce.
pub open spec fn encoded_len(bytes: Seq<u8>) -> nat {
    little_endian(bytes, 0, 8)
}

/// Whether `bytes` starts with the encoding of a sequence of 32-bit integers:
/// a length, and four bytes for each entry. More bytes may follow.
pub open spec fn is_encoding(bytes: Seq<u8>) -> bool {
    bytes.len() >= 8 && 8 + 4 * encoded_len(bytes) <= bytes.len()
}

/// The sequence that `bytes` encodes.
pub open spec fn encoded_counts(bytes: Seq<u8>) -> Seq<u32> {
    Seq::new(encoded_len(bytes), |i: int| little_endian(bytes, 8 + 4 * i, 4) as u32)
}

/// Position in the table of the entry for `own` against `opp`.
pub open spec fn table_index(own: int, opp: int) -> int {
    own * 1326 + opp
}

#[verifier::external_type_specification]
#[verifier::external_body]
pub struct ExBincodeErrorKind(bincode::ErrorKind);

/// `bincode::deserialize` at the type `Vec<u32>`. With its fixed-width
/// little-endian configuration it reads the length from the first eight bytes
/// and then four bytes for each entry, fails if the bytes run out before
/// that, and ignores bytes that follow the last entry.
#[verifier::external_body]
fn decode_u32_sequence(bytes: &[u8]) -> (r: Result<Vec<u32>, Box<bincode::ErrorKind>>)
    ensures
        r is Ok <==> is_encoding(bytes@),
        r is Ok ==> r->Ok_0@ == encoded_counts(bytes@),
{
    bincode::deserialize::<Vec<u32>>(bytes)
}

impl View for EquityTable {
    type V = Seq<u32>;

    closed spec fn view(&self) -> Seq<u32> {
        self.counts@
    }
}

impl EquityTable {
    #[verifier::type_invariant]
    spec fn well_formed(self) -> bool {
        self.counts@.len() == TABLE_LEN
    }

    /// Makes a table of `counts`, which must hold one entry for every ordered
    /// pair of hands.
    pub fn from_counts(counts: Vec<u32>) -> (r: Result<EquityTable, TableError>)
        ensures
            counts@.len() == TABLE_LEN ==> r is Ok && r->Ok_0@ == counts@,
            counts@.len() != TABLE_LEN ==> r == Err::<EquityTable, TableError>(
                TableError::WrongLength,
            ),
    {
        if counts.len() == TABLE_LEN {
            Ok(EquityTable { counts })
        } else {
            Err(TableError::WrongLength)
        }
    }

    /// Reads a table from the bytes of a table file.
    pub fn decode(bytes: &[u8]) -> (r: Result<EquityTable, TableError>)
        ensures
            is_encoding(bytes@) && encoded_len(bytes@) == TABLE_LEN ==> r is Ok && r->Ok_0@
                == encoded_counts(bytes@),
            is_encoding(bytes@) && encoded_len(bytes@) != TABLE_LEN ==> r == Err::<
                EquityTable,
                TableError,
            >(TableError::WrongLength),
            !is_encoding(bytes@) ==> r == Err::<EquityTable, TableError>(TableError::Corrupt),
    {
        match decode_u32_sequence(bytes) {
            Ok(counts) => Self::from_counts(counts),
            Err(_) => Err(TableError::Corrupt),
        }
    }

    /// The entry for the hand with index `own` against the hand with index
    /// `opp`.
    pub fn wins(&self, own: usize, opp: usize) -> (r: u32)
        requires
            own < NUM_HANDS,
            opp < NUM_HANDS,
        ensures
            r == self@[table_index(own as int, opp as int)],
    {
        proof {
            use_type_invariant(self);
            assert(own * 1326 + opp < 1_758_276) by (nonlinear_arith)
                requires
                    own < 1326,
                    opp < 1326,
            ;
        }
        self.counts[own * NUM_HANDS + opp]
    }
}

} // verus!
