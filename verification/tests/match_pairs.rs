use pcli2::pairs::{record_unique_pair, records_in_key_order};
use std::collections::BTreeMap;

fn uuid(text: &str) -> u128 {
    uuid::Uuid::parse_str(text).unwrap().as_u128()
}

fn uuids() -> (u128, u128) {
    let low = uuid("00000000-0000-0000-0000-00000000000a");
    let high = uuid("ffffffff-0000-0000-0000-00000000000f");
    assert!(low < high);
    (low, high)
}

fn dedup(pairs: &[(u128, u128, &'static str)]) -> Vec<&'static str> {
    let mut map = BTreeMap::new();
    for (reference, candidate, record) in pairs {
        record_unique_pair(&mut map, *reference, *candidate, *record);
    }
    records_in_key_order(map)
}

#[test]
fn a_pair_is_kept_once_whichever_end_it_was_searched_from() {
    let (low, high) = uuids();
    assert_eq!(dedup(&[(low, high, "low->high")]).len(), 1);
    assert_eq!(dedup(&[(high, low, "high->low")]).len(), 1);
    assert_eq!(
        dedup(&[(low, high, "low->high"), (high, low, "high->low")]).len(),
        1,
        "(A,B) and (B,A) are the same pair"
    );
}

#[test]
fn the_surviving_orientation_does_not_depend_on_arrival_order() {
    let (low, high) = uuids();
    let forward_first = dedup(&[(low, high, "low->high"), (high, low, "high->low")]);
    let reverse_first = dedup(&[(high, low, "high->low"), (low, high, "low->high")]);
    assert_eq!(forward_first, reverse_first);
    assert_eq!(forward_first, vec!["low->high"], "reference sorts first");
}

#[test]
fn a_one_directional_pair_keeps_the_direction_it_was_searched_in() {
    let (low, high) = uuids();
    assert_eq!(dedup(&[(high, low, "high->low")]), vec!["high->low"]);
}

#[test]
fn output_order_is_independent_of_arrival_order() {
    let a = uuid("00000000-0000-0000-0000-00000000000a");
    let b = uuid("00000000-0000-0000-0000-00000000000b");
    let c = uuid("00000000-0000-0000-0000-00000000000c");

    let one = dedup(&[(a, b, "ab"), (a, c, "ac"), (b, c, "bc")]);
    let another = dedup(&[(b, c, "bc"), (a, b, "ab"), (a, c, "ac")]);
    let reversed = dedup(&[(a, c, "ac"), (b, c, "bc"), (a, b, "ab")]);

    assert_eq!(one, vec!["ab", "ac", "bc"]);
    assert_eq!(one, another);
    assert_eq!(one, reversed);
}

#[test]
fn the_canonical_flag_marks_the_stored_direction() {
    let mut map = BTreeMap::new();
    record_unique_pair(&mut map, 9, 4, "nine->four");
    assert_eq!(map.get(&(4, 9)), Some(&(false, "nine->four")));
    record_unique_pair(&mut map, 4, 9, "four->nine");
    assert_eq!(map.get(&(4, 9)), Some(&(true, "four->nine")));
    // A later record in the same direction does not replace the first.
    record_unique_pair(&mut map, 4, 9, "again");
    assert_eq!(map.get(&(4, 9)), Some(&(true, "four->nine")));
    assert_eq!(map.len(), 1);
}

#[test]
fn records_come_out_in_key_order_whatever_the_arrival_order() {
    let a = 1u128;
    let b = 2u128;
    let c = 3u128;
    let mut map = BTreeMap::new();
    record_unique_pair(&mut map, c, b, "cb");
    record_unique_pair(&mut map, b, a, "ba");
    record_unique_pair(&mut map, a, c, "ac");
    record_unique_pair(&mut map, a, b, "ab");
    assert_eq!(records_in_key_order(map), vec!["ab", "ac", "cb"]);
}
