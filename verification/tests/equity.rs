use poker_cfr::equity::{EquityTable, TableError, TABLE_LEN, TOTAL_RUNOUTS};
use poker_cfr::hands::{hand_index, NUM_HANDS};

fn counts() -> Vec<u32> {
    (0..TABLE_LEN as u32).map(|k| k.wrapping_mul(2_654_435_761)).collect()
}

#[test]
fn table_constants() {
    assert_eq!(TABLE_LEN, NUM_HANDS * NUM_HANDS);
    // twice the number of five-card boards out of 48 cards
    assert_eq!(TOTAL_RUNOUTS, 2 * (48 * 47 * 46 * 45 * 44 / (5 * 4 * 3 * 2)));
}

#[test]
fn table_entries_are_found_by_hand_pair() {
    let table = EquityTable::from_counts(counts()).unwrap();
    let c = counts();
    assert_eq!(table.wins(0, 0), c[0]);
    assert_eq!(table.wins(0, 1), c[1]);
    assert_eq!(table.wins(1, 0), c[1326]);
    assert_eq!(table.wins(1325, 1325), c[TABLE_LEN - 1]);
    let own = hand_index(3, 9);
    let opp = hand_index(4, 8);
    assert_eq!(table.wins(own, opp), c[own * 1326 + opp]);
}

#[test]
fn table_of_the_wrong_length_is_refused() {
    assert_eq!(EquityTable::from_counts(vec![]).err(), Some(TableError::WrongLength));
    assert_eq!(
        EquityTable::from_counts(vec![0; TABLE_LEN - 1]).err(),
        Some(TableError::WrongLength)
    );
    assert_eq!(
        EquityTable::from_counts(vec![0; TABLE_LEN + 1]).err(),
        Some(TableError::WrongLength)
    );
}

#[test]
fn decode_reads_what_bincode_wrote() {
    let c = counts();
    let bytes = bincode::serialize(&c).unwrap();
    assert_eq!(bytes.len(), 8 + 4 * TABLE_LEN);
    let table = EquityTable::decode(&bytes).unwrap();
    assert_eq!(table.wins(0, 0), c[0]);
    assert_eq!(table.wins(17, 1000), c[17 * 1326 + 1000]);
    assert_eq!(table.wins(1325, 1325), c[TABLE_LEN - 1]);
}

#[test]
fn decode_reads_little_endian_entries() {
    let mut bytes = Vec::new();
    bytes.extend_from_slice(&(TABLE_LEN as u64).to_le_bytes());
    bytes.extend_from_slice(&[0x78, 0x56, 0x34, 0x12]);
    bytes.extend_from_slice(&[1, 0, 0, 0]);
    bytes.resize(8 + 4 * TABLE_LEN, 0);
    let table = EquityTable::decode(&bytes).unwrap();
    assert_eq!(table.wins(0, 0), 0x1234_5678);
    assert_eq!(table.wins(0, 1), 1);
    assert_eq!(table.wins(0, 2), 0);
}

#[test]
fn decode_ignores_bytes_after_the_last_entry() {
    let mut bytes = bincode::serialize(&counts()).unwrap();
    bytes.extend_from_slice(&[9, 9, 9]);
    assert!(EquityTable::decode(&bytes).is_ok());
}

#[test]
fn decode_refuses_bytes_that_run_out() {
    assert_eq!(EquityTable::decode(&[]).err(), Some(TableError::Corrupt));
    assert_eq!(EquityTable::decode(&[1, 0, 0]).err(), Some(TableError::Corrupt));
    let mut bytes = bincode::serialize(&counts()).unwrap();
    bytes.pop();
    assert_eq!(EquityTable::decode(&bytes).err(), Some(TableError::Corrupt));
    // a length that no input can hold
    assert_eq!(EquityTable::decode(&[0xff; 16]).err(), Some(TableError::Corrupt));
}

#[test]
fn decode_refuses_a_sequence_of_the_wrong_length() {
    let bytes = bincode::serialize(&vec![1u32, 2, 3]).unwrap();
    assert_eq!(EquityTable::decode(&bytes).err(), Some(TableError::WrongLength));
    let empty = bincode::serialize(&Vec::<u32>::new()).unwrap();
    assert_eq!(EquityTable::decode(&empty).err(), Some(TableError::WrongLength));
}
