use genpi::name::Name;
use genpi::name_source::SourceError;
use genpi::names_cache::{Decision, NamesCache, STALE_AFTER};
use genpi::pi::GenNameError;
use genpi::sex::Sex;

const SECOND: u64 = 1_000_000_000;

fn name(last: &str, first: &str) -> Name {
    Name {
        first_name: first.to_owned(),
        first_name_kana: "たろう".to_owned(),
        last_name: last.to_owned(),
        last_name_kana: "やまだ".to_owned(),
    }
}

fn list(tag: &str, len: usize) -> Vec<Name> {
    (0..len).map(|i| name(tag, &format!("{}", i))).collect()
}

fn populate(cache: &mut NamesCache, sex: Sex, now: u64, names: Vec<Name>) -> Name {
    assert!(matches!(cache.request(sex, now), Ok(None)));
    cache.fetched(sex, Ok(names)).unwrap()
}

#[test]
fn staleness_window_is_five_seconds() {
    assert_eq!(STALE_AFTER, 5 * SECOND);
}

#[test]
fn empty_cache_asks_for_a_fetch() {
    let mut cache = NamesCache::new();
    assert_eq!(cache.decide(Sex::Female, 0), Decision::Refresh);
    assert_eq!(cache.decide(Sex::Male, 0), Decision::Refresh);
    assert!(!cache.is_fetching(Sex::Female));
    assert!(matches!(cache.request(Sex::Female, 7), Ok(None)));
    assert!(cache.is_fetching(Sex::Female));
    assert!(!cache.is_fetching(Sex::Male));
    let default = NamesCache::default();
    assert_eq!(default.decide(Sex::Female, 0), Decision::Refresh);
}

#[test]
fn fetched_names_are_served_without_a_new_fetch_for_five_seconds() {
    let mut cache = NamesCache::new();
    let mut fetches = 0;
    let start = 100 * SECOND;
    for now in [start, start + 1, start + SECOND, start + 4 * SECOND, start + 5 * SECOND] {
        match cache.request(Sex::Female, now) {
            Ok(Some(found)) => assert_eq!(found.last_name, "a"),
            Ok(None) => {
                fetches += 1;
                let found = cache.fetched(Sex::Female, Ok(list("a", 3))).unwrap();
                assert_eq!(found.last_name, "a");
            }
            Err(e) => panic!("{:?}", e),
        }
    }
    assert_eq!(fetches, 1);
    assert_eq!(cache.decide(Sex::Female, start + 5 * SECOND), Decision::Serve);
    assert_eq!(cache.decide(Sex::Female, start + 5 * SECOND + 1), Decision::Refresh);
}

#[test]
fn stale_names_are_fetched_again_once() {
    let mut cache = NamesCache::new();
    populate(&mut cache, Sex::Male, 0, list("old", 2));
    let later = 5 * SECOND + 1;
    assert!(matches!(cache.request(Sex::Male, later), Ok(None)));
    assert!(matches!(
        cache.request(Sex::Male, later),
        Err(GenNameError::Conflict)
    ));
    let found = cache.fetched(Sex::Male, Ok(list("new", 2))).unwrap();
    assert_eq!(found.last_name, "new");
    for now in [later, later + SECOND, later + 5 * SECOND] {
        let found = cache.request(Sex::Male, now).unwrap().unwrap();
        assert_eq!(found.last_name, "new");
    }
    assert_eq!(cache.decide(Sex::Male, later + 5 * SECOND + 1), Decision::Refresh);
}

#[test]
fn failed_refresh_keeps_the_stale_names() {
    let mut cache = NamesCache::new();
    populate(&mut cache, Sex::Female, 0, list("old", 4));
    let later = 6 * SECOND;
    assert!(matches!(cache.request(Sex::Female, later), Ok(None)));
    assert_eq!(
        cache.fetched(Sex::Female, Err(SourceError::BadStatus)).unwrap_err(),
        GenNameError::RequestFailure
    );
    assert!(!cache.is_fetching(Sex::Female));
    // The failed request reported its failure; the names it could not replace are still
    // there for the requests of the window that it opened.
    for now in [later, later + SECOND, later + 5 * SECOND] {
        assert_eq!(cache.decide(Sex::Female, now), Decision::Serve);
        let found = cache.request(Sex::Female, now).unwrap().unwrap();
        assert_eq!(found.last_name, "old");
    }
    assert_eq!(cache.decide(Sex::Female, later + 5 * SECOND + 1), Decision::Refresh);
}

#[test]
fn failed_first_fetch_leaves_the_slot_empty() {
    let mut cache = NamesCache::new();
    assert!(matches!(cache.request(Sex::Male, 0), Ok(None)));
    assert_eq!(
        cache.fetched(Sex::Male, Err(SourceError::TableNotFound)),
        Err(GenNameError::RequestFailure)
    );
    assert_eq!(cache.decide(Sex::Male, 0), Decision::Refresh);
    assert_eq!(cache.decide(Sex::Male, SECOND), Decision::Refresh);
    assert!(matches!(cache.request(Sex::Male, 1), Ok(None)));
}

#[test]
fn an_empty_list_counts_as_a_failed_fetch() {
    let mut cache = NamesCache::new();
    assert!(matches!(cache.request(Sex::Male, 0), Ok(None)));
    assert_eq!(
        cache.fetched(Sex::Male, Ok(Vec::new())),
        Err(GenNameError::RequestFailure)
    );
    assert_eq!(cache.decide(Sex::Male, 0), Decision::Refresh);
    populate(&mut cache, Sex::Male, 10, list("held", 1));
    assert!(matches!(cache.request(Sex::Male, 10 + 6 * SECOND), Ok(None)));
    assert_eq!(
        cache.fetched(Sex::Male, Ok(Vec::new())),
        Err(GenNameError::RequestFailure)
    );
    let found = cache.request(Sex::Male, 10 + 7 * SECOND).unwrap().unwrap();
    assert_eq!(found.last_name, "held");
}

#[test]
fn second_request_during_a_fetch_conflicts() {
    let mut cache = NamesCache::new();
    assert!(matches!(cache.request(Sex::Female, 0), Ok(None)));
    for now in [0, 1, SECOND, 100 * SECOND, u64::MAX] {
        assert_eq!(cache.decide(Sex::Female, now), Decision::Conflict);
        assert!(matches!(
            cache.request(Sex::Female, now),
            Err(GenNameError::Conflict)
        ));
    }
    assert!(cache.is_fetching(Sex::Female));
    let found = cache.fetched(Sex::Female, Ok(list("f", 1))).unwrap();
    assert_eq!(found.last_name, "f");
    assert_eq!(cache.decide(Sex::Female, 0), Decision::Serve);
}

#[test]
fn slots_of_the_two_sexes_are_independent() {
    let mut cache = NamesCache::new();
    assert!(matches!(cache.request(Sex::Female, 0), Ok(None)));
    assert_eq!(cache.decide(Sex::Male, 0), Decision::Refresh);
    assert!(matches!(cache.request(Sex::Male, 0), Ok(None)));
    let male = cache.fetched(Sex::Male, Ok(list("m", 2))).unwrap();
    assert_eq!(male.last_name, "m");
    assert_eq!(cache.decide(Sex::Female, 1), Decision::Conflict);
    assert_eq!(cache.request(Sex::Male, 1).unwrap().unwrap().last_name, "m");
    let female = cache.fetched(Sex::Female, Ok(list("f", 2))).unwrap();
    assert_eq!(female.last_name, "f");
    assert_eq!(cache.request(Sex::Female, 2).unwrap().unwrap().last_name, "f");
    assert_eq!(cache.request(Sex::Male, 2).unwrap().unwrap().last_name, "m");
}

#[test]
fn every_name_of_the_list_is_picked() {
    let mut cache = NamesCache::new();
    populate(&mut cache, Sex::Female, 0, list("x", 5));
    let mut seen = std::collections::HashSet::new();
    for _ in 0..500 {
        let found = cache.request(Sex::Female, SECOND).unwrap().unwrap();
        assert_eq!(found.last_name, "x");
        seen.insert(found.first_name);
    }
    assert_eq!(seen.len(), 5);
}

#[test]
fn clock_that_runs_backwards_counts_as_no_time_passed() {
    let mut cache = NamesCache::new();
    populate(&mut cache, Sex::Female, 100 * SECOND, list("x", 1));
    assert_eq!(cache.decide(Sex::Female, 0), Decision::Serve);
    assert_eq!(cache.decide(Sex::Female, 99 * SECOND), Decision::Serve);
}

#[test]
fn errors_in_words() {
    assert_eq!(GenNameError::RequestFailure.message(), "request failure");
    assert_eq!(GenNameError::Conflict.message(), "conflict");
}

#[test]
fn any_number_of_requests_in_the_window_cost_one_fetch() {
    for requests in [1u64, 2, 3, 10, 1000] {
        let mut cache = NamesCache::new();
        let mut fetches = 0;
        let first = 42 * SECOND;
        for k in 0..requests {
            let now = first + k * (5 * SECOND / requests);
            let found = match cache.request(Sex::Female, now) {
                Ok(Some(found)) => found,
                Ok(None) => {
                    fetches += 1;
                    cache.fetched(Sex::Female, Ok(list("only", 7))).unwrap()
                }
                Err(e) => panic!("{:?}", e),
            };
            assert_eq!(found.last_name, "only");
        }
        assert_eq!(fetches, 1);
    }
}
