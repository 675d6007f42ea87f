use random_spells::local_datasource::LocalDatasource;
use random_spells::spell_model::SpellsQuerySpells;
use std::time::{Duration, Instant};

fn spell(name: &str) -> SpellsQuerySpells {
    SpellsQuerySpells {
        name: Some(name.to_string()),
        level: 0,
        desc: None,
        url: None,
        index: None,
        classes: None,
    }
}

fn wait(millis: u64) {
    let start = Instant::now();
    while start.elapsed() <= Duration::from_millis(millis) {}
}

#[test]
fn test_insert() {
    let mut cache = LocalDatasource::new(1, 1000);
    cache.insert(vec![spell("test")], 0_u8);
    assert_eq!(cache.get(0_u8), Some(vec![spell("test")]));
}

#[test]
fn test_get() {
    let mut cache = LocalDatasource::new(1, 1000);
    cache.insert(vec![spell("test")], 0_u8);
    assert_eq!(cache.get(0_u8), Some(vec![spell("test")]));
    assert_eq!(cache.get(0_u8), Some(vec![spell("test")]));
}

#[test]
fn test_get_recent() {
    let mut cache = LocalDatasource::new(1, 1000);
    cache.insert(vec![spell("test")], 0_u8);
    assert_eq!(cache.get_recent(0_u8), Some(vec![spell("test")]));
}

#[test]
fn test_get_recent_expires() {
    let mut cache = LocalDatasource::new(1, 2);
    cache.insert(vec![spell("test")], 0_u8);
    wait(3);
    assert_eq!(cache.get_recent(0_u8), None);
}

#[test]
fn a_stale_batch_is_still_there_for_get() {
    let mut cache = LocalDatasource::new(1, 2);
    cache.insert(vec![spell("a"), spell("b")], 7);
    wait(3);
    assert_eq!(cache.get_recent(7), None);
    assert_eq!(cache.get_recent(7), None);
    assert_eq!(cache.get(7), Some(vec![spell("a"), spell("b")]));
    assert_eq!(cache.get_recent(7), None);
}

#[test]
fn a_fresh_read_does_not_renew_a_batch() {
    let mut cache = LocalDatasource::new(1, 300);
    cache.insert(vec![spell("a")], 0);
    wait(200);
    assert_eq!(cache.get_recent(0), Some(vec![spell("a")]));
    assert_eq!(cache.get(0), Some(vec![spell("a")]));
    wait(200);
    assert_eq!(cache.get_recent(0), None);
}

#[test]
fn an_absent_key_is_absent_in_both_reads() {
    let mut cache = LocalDatasource::new(2, 1000);
    assert_eq!(cache.get(0), None);
    assert_eq!(cache.get_recent(0), None);
    cache.insert(vec![spell("a")], 1);
    assert_eq!(cache.get(0), None);
    assert_eq!(cache.get_recent(0), None);
}

#[test]
fn an_insert_replaces_the_batch_of_its_key() {
    let mut cache = LocalDatasource::new(2, 1000);
    cache.insert(vec![spell("a"), spell("b")], 0);
    cache.insert(vec![spell("c")], 0);
    assert_eq!(cache.get_recent(0), Some(vec![spell("c")]));
    assert_eq!(cache.get(0), Some(vec![spell("c")]));
}

#[test]
fn an_empty_batch_is_a_batch() {
    let mut cache = LocalDatasource::new(1, 1000);
    cache.insert(vec![], 3);
    assert_eq!(cache.get_recent(3), Some(vec![]));
    assert_eq!(cache.get(3), Some(vec![]));
}

#[test]
fn a_full_store_evicts_the_least_recently_used_key() {
    let mut cache = LocalDatasource::new(1, 1000);
    cache.insert(vec![spell("a")], 0);
    cache.insert(vec![spell("b")], 1);
    assert_eq!(cache.get_recent(0), None);
    assert_eq!(cache.get(0), None);
    assert_eq!(cache.get(1), Some(vec![spell("b")]));
}

#[test]
fn a_permanent_read_makes_its_key_the_most_recent() {
    let mut cache = LocalDatasource::new(2, 2);
    cache.insert(vec![spell("a")], 0);
    cache.insert(vec![spell("b")], 1);
    assert_eq!(cache.get(0), Some(vec![spell("a")]));
    wait(3);
    cache.insert(vec![spell("c")], 2);
    wait(3);
    assert_eq!(cache.get(1), None);
    assert_eq!(cache.get(0), Some(vec![spell("a")]));
    assert_eq!(cache.get(2), Some(vec![spell("c")]));
}

#[test]
fn a_key_lost_to_the_permanent_part_comes_back_from_a_fresh_batch() {
    let mut cache = LocalDatasource::new(2, 100000);
    cache.insert(vec![spell("a")], 0);
    cache.insert(vec![spell("b")], 1);
    assert_eq!(cache.get(0), Some(vec![spell("a")]));
    cache.insert(vec![spell("c")], 2);
    assert_eq!(cache.get_recent(0), None);
    assert_eq!(cache.get_recent(1), Some(vec![spell("b")]));
    assert_eq!(cache.get(1), Some(vec![spell("b")]));
    assert_eq!(cache.get(1), Some(vec![spell("b")]));
}

#[test]
fn a_store_holds_no_more_keys_than_it_was_made_for() {
    let mut cache = LocalDatasource::new(2, 100000);
    cache.insert(vec![spell("a")], 0);
    cache.insert(vec![spell("b")], 1);
    cache.insert(vec![spell("c")], 2);
    assert_eq!(cache.get_recent(0), None);
    assert_eq!(cache.get(0), None);
    assert_eq!(cache.get_recent(1), Some(vec![spell("b")]));
    assert_eq!(cache.get_recent(2), Some(vec![spell("c")]));
    assert_eq!(cache.get(1), Some(vec![spell("b")]));
    assert_eq!(cache.get(2), Some(vec![spell("c")]));
}
