use std::cell::Cell;
use std::rc::Rc;
use std::time::SystemTime;

use cache_service::cache_service::ResolvePayload;
use cache_service::clock::TimeSource;
use cache_service::in_memory_cache::{CacheError, InMemoryCache};

#[derive(Clone)]
struct MockTimeSource {
    now: Rc<Cell<u64>>,
}

impl MockTimeSource {
    fn new(now: u64) -> Self {
        MockTimeSource {
            now: Rc::new(Cell::new(now)),
        }
    }

    fn advance(&mut self, secs: u64) {
        self.now.set(self.now.get() + secs);
    }
}

impl TimeSource for MockTimeSource {
    fn now(&self) -> u64 {
        self.now.get()
    }
}

#[test]
fn it_should_create_empty_cache() {
    let cache = InMemoryCache::new();
    assert_eq!(cache.get_values_length(), 0);
}

#[test]
fn in_memory_cache_it_should_return_value() {
    let mut cache = InMemoryCache::new();
    let result = cache
        .resolve(ResolvePayload {
            key: "key",
            value: "value",
            ttl: 1,
        })
        .expect("Should not fail");
    assert_eq!(result, "value");
}

#[test]
fn it_should_store_value_in_cache() {
    let mut cache = InMemoryCache::new();
    assert_eq!(cache.get_values_length(), 0);
    cache
        .resolve(ResolvePayload {
            key: "key",
            value: "value",
            ttl: 1,
        })
        .expect("Should not fail");
    assert_eq!(cache.get_values_length(), 1);
    let result = cache.get_value("key");
    assert_eq!(result, "value");
}

#[test]
fn in_memory_cache_it_should_cache_value_for_ttl() {
    let mut cache = InMemoryCache::new();
    cache
        .resolve(ResolvePayload {
            key: "key",
            value: "value",
            ttl: 1,
        })
        .expect("Should not fail");
    let cached = cache.resolve(ResolvePayload {
        key: "key",
        value: "value123",
        ttl: 1,
    });
    assert_eq!(cached.unwrap(), "value");
}

#[test]
fn it_should_change_value_on_expiry() {
    let mut time_source = MockTimeSource::new(0);
    let mut cache = InMemoryCache::new_with_time_source(time_source.clone());
    cache
        .resolve(ResolvePayload {
            key: "key",
            value: "value",
            ttl: 1,
        })
        .expect("Should not fail");
    time_source.advance(2);
    let cached = cache.resolve(ResolvePayload {
        key: "key",
        value: "value123",
        ttl: 1,
    });
    assert_eq!(cached.unwrap(), "value123");
}

#[test]
fn it_should_resolve_fast_on_big_cache() {
    let now = SystemTime::now();

    let mut cache = InMemoryCache::new();
    for i in 0..100000 {
        cache
            .resolve(ResolvePayload {
                key: &format!("key{}", i),
                value: &format!("value{}", i),
                ttl: 100,
            })
            .expect("Should not fail");
    }
    let result = cache.resolve(ResolvePayload {
        key: "key30",
        value: "value",
        ttl: 100,
    });
    let elapsed = now.elapsed().unwrap().as_millis();
    assert_eq!(&result.unwrap(), "value30");
    assert!(
        elapsed < 500,
        "Elapsed time: {}, should be less than 500",
        elapsed
    );
}

#[test]
fn it_should_get_rid_off_all_expired_keys_periodically() {
    let mut time_source = MockTimeSource::new(0);
    let mut cache = InMemoryCache::new_with_time_source(time_source.clone());
    cache
        .resolve(ResolvePayload {
            key: "key49999",
            value: "value49999",
            ttl: 1,
        })
        .expect("Should not fail");
    cache.set_hits(49999);
    time_source.advance(2);
    cache
        .resolve(ResolvePayload {
            key: "key50000",
            value: "value50000",
            ttl: 1,
        })
        .expect("Should not fail");

    assert_eq!(cache.get_values_length(), 1);
}

#[test]
fn it_should_return_error_when_key_is_empty() {
    let mut cache = InMemoryCache::new();
    let result = cache.resolve(ResolvePayload {
        key: "",
        value: "value",
        ttl: 1,
    });
    assert!(matches!(result, Err(CacheError::EmptyKey)));
}

#[test]
fn empty_key_leaves_the_size_and_the_counter_as_they_were() {
    let mut cache = InMemoryCache::new_with_time_source(MockTimeSource::new(0));
    cache
        .resolve(ResolvePayload {
            key: "key",
            value: "value",
            ttl: 1,
        })
        .unwrap();
    cache.set_hits(49998);
    let result = cache.resolve_at(
        ResolvePayload {
            key: "",
            value: "value",
            ttl: 1,
        },
        5,
    );
    assert_eq!(result, Err(CacheError::EmptyKey));
    assert_eq!(cache.get_values_length(), 1);
    // The rejected call was not counted: the next call is the 49,999th and
    // does not sweep, the one after it does.
    cache
        .resolve_at(
            ResolvePayload {
                key: "other",
                value: "value",
                ttl: 1,
            },
            5,
        )
        .unwrap();
    assert_eq!(cache.get_values_length(), 2);
    cache
        .resolve_at(
            ResolvePayload {
                key: "third",
                value: "value",
                ttl: 1,
            },
            5,
        )
        .unwrap();
    assert_eq!(cache.get_values_length(), 2);
    assert_eq!(cache.get_at("key", 5), None);
    assert_eq!(cache.get_value("other"), "value");
    assert_eq!(cache.get_value("third"), "value");
}

#[test]
fn entry_is_live_until_inserted_at_plus_ttl() {
    let mut cache = InMemoryCache::new_with_time_source(MockTimeSource::new(0));
    cache
        .resolve_at(
            ResolvePayload {
                key: "key",
                value: "value",
                ttl: 10,
            },
            100,
        )
        .unwrap();
    assert_eq!(cache.get_at("key", 100), Some("value".to_string()));
    assert_eq!(cache.get_at("key", 109), Some("value".to_string()));
    assert_eq!(cache.get_at("key", 110), None);
    assert_eq!(cache.get_at("key", 99), Some("value".to_string()));
    assert_eq!(cache.get_at("other", 100), None);
    assert_eq!(cache.get_at("", 100), None);
}

#[test]
fn hit_does_not_renew_the_entry_nor_take_the_new_value() {
    let mut cache = InMemoryCache::new_with_time_source(MockTimeSource::new(0));
    let payload = |value| ResolvePayload {
        key: "key",
        value,
        ttl: 10,
    };
    assert_eq!(cache.resolve_at(payload("one"), 0).unwrap(), "one");
    assert_eq!(cache.resolve_at(payload("two"), 9).unwrap(), "one");
    assert_eq!(cache.resolve_at(payload("three"), 10).unwrap(), "three");
    assert_eq!(cache.resolve_at(payload("four"), 19).unwrap(), "three");
    assert_eq!(cache.resolve_at(payload("five"), 20).unwrap(), "five");
    assert_eq!(cache.get_values_length(), 1);
}

#[test]
fn entry_with_a_ttl_of_zero_is_stale_at_once() {
    let mut cache = InMemoryCache::new_with_time_source(MockTimeSource::new(0));
    let payload = |value| ResolvePayload {
        key: "key",
        value,
        ttl: 0,
    };
    assert_eq!(cache.resolve_at(payload("one"), 7).unwrap(), "one");
    assert_eq!(cache.get_at("key", 7), None);
    assert_eq!(cache.get_value("key"), "one");
    assert_eq!(cache.resolve_at(payload("two"), 7).unwrap(), "two");
    assert_eq!(cache.get_values_length(), 1);
}

#[test]
fn expiry_past_the_largest_clock_reading_never_comes() {
    let mut cache = InMemoryCache::new_with_time_source(MockTimeSource::new(0));
    cache
        .resolve_at(
            ResolvePayload {
                key: "key",
                value: "value",
                ttl: u64::MAX,
            },
            1,
        )
        .unwrap();
    assert_eq!(cache.get_at("key", u64::MAX), Some("value".to_string()));
    cache
        .resolve_at(
            ResolvePayload {
                key: "edge",
                value: "value",
                ttl: u64::MAX,
            },
            0,
        )
        .unwrap();
    assert_eq!(cache.get_at("edge", u64::MAX - 1), Some("value".to_string()));
    assert_eq!(cache.get_at("edge", u64::MAX), None);
}

#[test]
fn lazy_eviction_removes_only_the_key_that_is_looked_up() {
    let mut cache = InMemoryCache::new_with_time_source(MockTimeSource::new(0));
    for key in ["a", "b", "c"] {
        cache
            .resolve_at(
                ResolvePayload {
                    key,
                    value: "old",
                    ttl: 1,
                },
                0,
            )
            .unwrap();
    }
    let answer = cache
        .resolve_at(
            ResolvePayload {
                key: "a",
                value: "new",
                ttl: 1,
            },
            5,
        )
        .unwrap();
    assert_eq!(answer, "new");
    assert_eq!(cache.get_values_length(), 3);
    assert_eq!(cache.get_value("a"), "new");
    assert_eq!(cache.get_value("b"), "old");
    assert_eq!(cache.get_value("c"), "old");
}

#[test]
fn sweep_runs_on_the_50000th_call_and_on_no_call_before_it() {
    let mut cache = InMemoryCache::new_with_time_source(MockTimeSource::new(0));
    for i in 0..49998 {
        cache
            .resolve_at(
                ResolvePayload {
                    key: &format!("key{}", i),
                    value: "value",
                    ttl: 1,
                },
                0,
            )
            .unwrap();
    }
    assert_eq!(cache.get_values_length(), 49998);
    cache
        .resolve_at(
            ResolvePayload {
                key: "late",
                value: "value",
                ttl: 100,
            },
            50,
        )
        .unwrap();
    assert_eq!(cache.get_values_length(), 49999);
    cache
        .resolve_at(
            ResolvePayload {
                key: "key50000",
                value: "value50000",
                ttl: 1,
            },
            60,
        )
        .unwrap();
    assert_eq!(cache.get_values_length(), 2);
    assert_eq!(cache.get_value("late"), "value");
    assert_eq!(cache.get_value("key50000"), "value50000");
}

#[test]
fn sweep_runs_again_on_the_100000th_call() {
    let mut cache = InMemoryCache::new_with_time_source(MockTimeSource::new(0));
    for i in 0..99999 {
        cache
            .resolve_at(
                ResolvePayload {
                    key: &format!("key{}", i % 7),
                    value: "value",
                    ttl: 1000,
                },
                0,
            )
            .unwrap();
    }
    assert_eq!(cache.get_values_length(), 7);
    cache
        .resolve_at(
            ResolvePayload {
                key: "fresh",
                value: "value",
                ttl: 1,
            },
            1000,
        )
        .unwrap();
    assert_eq!(cache.get_values_length(), 1);
    assert_eq!(cache.get_value("fresh"), "value");
}

#[test]
fn sweep_keeps_a_live_entry_of_the_requested_key() {
    let mut cache = InMemoryCache::new_with_time_source(MockTimeSource::new(0));
    cache
        .resolve_at(
            ResolvePayload {
                key: "live",
                value: "kept",
                ttl: 100,
            },
            0,
        )
        .unwrap();
    cache
        .resolve_at(
            ResolvePayload {
                key: "stale",
                value: "gone",
                ttl: 1,
            },
            0,
        )
        .unwrap();
    cache.set_hits(49999);
    let answer = cache
        .resolve_at(
            ResolvePayload {
                key: "live",
                value: "ignored",
                ttl: 1,
            },
            50,
        )
        .unwrap();
    assert_eq!(answer, "kept");
    assert_eq!(cache.get_values_length(), 1);
}

#[test]
fn sweep_runs_on_every_multiple_of_the_interval() {
    let mut cache = InMemoryCache::new_with_time_source(MockTimeSource::new(0));
    cache
        .resolve_at(
            ResolvePayload {
                key: "stale",
                value: "value",
                ttl: 1,
            },
            0,
        )
        .unwrap();
    cache.set_hits(149999);
    cache
        .resolve_at(
            ResolvePayload {
                key: "key",
                value: "value",
                ttl: 1,
            },
            10,
        )
        .unwrap();
    assert_eq!(cache.get_values_length(), 1);
}

#[test]
fn counter_goes_on_counting_after_a_sweep() {
    let mut cache = InMemoryCache::new_with_time_source(MockTimeSource::new(0));
    cache.set_hits(49999);
    for (i, key) in ["a", "b", "c"].into_iter().enumerate() {
        cache
            .resolve_at(
                ResolvePayload {
                    key,
                    value: "value",
                    ttl: 1,
                },
                i as u64,
            )
            .unwrap();
    }
    // The calls were the 50,000th, which swept an empty store, and the two
    // after it, which do not sweep: the stale entries of `a` and `b` stay.
    assert_eq!(cache.get_values_length(), 3);
    assert_eq!(cache.get_at("a", 2), None);
    cache.set_hits(u64::MAX);
    cache
        .resolve_at(
            ResolvePayload {
                key: "d",
                value: "value",
                ttl: 1,
            },
            2,
        )
        .unwrap();
    assert_eq!(cache.get_values_length(), 4);
}

#[test]
fn get_reads_the_clock_and_changes_nothing() {
    let mut time_source = MockTimeSource::new(0);
    let mut cache = InMemoryCache::new_with_time_source(time_source.clone());
    cache
        .resolve(ResolvePayload {
            key: "key",
            value: "value",
            ttl: 5,
        })
        .unwrap();
    assert_eq!(cache.get("key"), Some("value".to_string()));
    time_source.advance(5);
    assert_eq!(cache.get("key"), None);
    assert_eq!(cache.get_values_length(), 1);
    assert_eq!(cache.get_value("key"), "value");
}
