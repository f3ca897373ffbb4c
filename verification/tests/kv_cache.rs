use std::collections::HashMap;

use cache_service::kv_cache::{
    client, deleted, established, set_after_read, set_after_write, stored_value, KvError, SetStep,
};
use cache_service::SetPayload;
use redis::{ConnectionAddr, ErrorKind, RedisError};

fn nil() -> RedisError {
    RedisError::from((ErrorKind::UnexpectedReturnType, "response was nil"))
}

fn broken_pipe() -> RedisError {
    RedisError::from((ErrorKind::Io, "broken pipe", "while writing".to_string()))
}

/// A backing service held in memory, with a clock of its own by which its
/// entries expire.
struct BackingStore {
    values: HashMap<String, (String, Option<u64>)>,
    now: u64,
}

impl BackingStore {
    fn new() -> Self {
        BackingStore {
            values: HashMap::new(),
            now: 0,
        }
    }

    fn reply_to_get(&mut self, key: &str) -> Result<String, RedisError> {
        match self.values.get(key) {
            Some((value, expiry)) if expiry.map_or(true, |at| self.now < at) => Ok(value.clone()),
            _ => Err(nil()),
        }
    }

    fn resolve(&mut self, payload: SetPayload) -> Result<String, KvError> {
        let found = self.reply_to_get(payload.key);
        match set_after_read(payload, found) {
            SetStep::Keep(stored) => Ok(stored),
            SetStep::Write(write) => {
                self.values.insert(
                    write.key.to_string(),
                    (write.value.to_string(), Some(self.now + write.ttl)),
                );
                set_after_write(&write, Ok(()))
            }
        }
    }

    fn set(&mut self, key: &str, value: &str) -> Result<(), KvError> {
        self.values
            .insert(key.to_string(), (value.to_string(), None));
        Ok(())
    }

    fn get(&mut self, key: &str) -> Result<String, KvError> {
        let res: String = self.reply_to_get(key).unwrap_or_else(|_| "".to_string());
        Ok(res)
    }

    fn unset(&mut self, key: &str) -> Result<(), KvError> {
        self.values.remove(key);
        deleted(Ok(()))
    }
}

#[test]
fn it_should_return_empty_value() {
    let key = "foo1";
    let mut cache = BackingStore::new();
    let res = cache
        .resolve(SetPayload {
            key,
            value: "",
            ttl: 1,
        })
        .expect("Should not fail");
    cache.unset(key).expect("Should not fail");
    assert_eq!(res, "");
}

#[test]
fn kv_cache_it_should_return_value() {
    let key = "foo2";
    let mut cache = BackingStore::new();
    cache.set(key, "42").expect("Should not fail");
    let res = cache
        .resolve(SetPayload {
            key,
            value: "42",
            ttl: 1,
        })
        .expect("Should not fail");
    cache.unset(key).expect("Should not fail");
    assert_eq!(res, "42");
}

#[test]
fn it_should_return_error_for_wrong_connection() {
    let cache = client("");
    assert!(matches!(cache, Err(KvError::ConnectionNotEstablished)));
}

#[test]
fn kv_cache_it_should_cache_value_for_ttl() {
    let key = "foo3";
    let mut cache = BackingStore::new();

    cache
        .resolve(SetPayload {
            key,
            value: "42",
            ttl: 1,
        })
        .expect("Should not fail");
    let res = cache.get(key).expect("Should not fail");
    assert_eq!(res, "42");
    cache.now += 2;
    let res = cache.get(key).expect("Should not fail");
    cache.unset(key).expect("Should not fail");
    assert_eq!(res, "");
}

#[test]
fn client_is_made_for_a_redis_url_without_connecting() {
    let made = client("redis://127.0.0.1:6379").expect("the URL is well-formed");
    match made.get_connection_info().addr() {
        ConnectionAddr::Tcp(host, port) => {
            assert_eq!(host, "127.0.0.1");
            assert_eq!(*port, 6379);
        }
        other => panic!("expected a TCP address, got {:?}", other),
    }
}

#[test]
fn client_is_refused_for_another_scheme() {
    assert!(matches!(
        client("http://127.0.0.1:6379"),
        Err(KvError::ConnectionNotEstablished)
    ));
    assert!(matches!(
        client("redis://"),
        Err(KvError::ConnectionNotEstablished)
    ));
}

#[test]
fn established_keeps_what_was_made_and_hides_the_cause() {
    assert!(matches!(established(Ok::<u8, RedisError>(7)), Ok(7)));
    assert!(matches!(
        established(Err::<u8, RedisError>(broken_pipe())),
        Err(KvError::ConnectionNotEstablished)
    ));
}

#[test]
fn stored_value_is_the_non_empty_reply() {
    assert_eq!(stored_value(Ok("42".to_string())), Some("42".to_string()));
    assert_eq!(stored_value(Ok("".to_string())), None);
    assert_eq!(stored_value(Err(nil())), None);
    assert_eq!(stored_value(Err(broken_pipe())), None);
}

fn asked_for() -> SetPayload<'static> {
    SetPayload {
        key: "key",
        value: "new",
        ttl: 10,
    }
}

#[test]
fn set_keeps_a_value_that_is_there() {
    assert!(matches!(
        set_after_read(asked_for(), Ok("old".to_string())),
        SetStep::Keep(ref stored) if stored == "old"
    ));
}

#[test]
fn set_writes_what_was_asked_for_where_nothing_is_stored() {
    assert!(matches!(
        set_after_read(asked_for(), Ok("".to_string())),
        SetStep::Write(SetPayload { key: "key", value: "new", ttl: 10 })
    ));
    assert!(matches!(
        set_after_read(asked_for(), Err(nil())),
        SetStep::Write(SetPayload { key: "key", value: "new", ttl: 10 })
    ));
    assert!(matches!(
        set_after_read(
            SetPayload {
                key: "other",
                value: "",
                ttl: 0
            },
            Err(broken_pipe())
        ),
        SetStep::Write(SetPayload { key: "other", value: "", ttl: 0 })
    ));
}

#[test]
fn set_returns_the_written_value() {
    let payload = SetPayload {
        key: "key",
        value: "new",
        ttl: 10,
    };
    assert_eq!(set_after_write(&payload, Ok(())).unwrap(), "new");
}

#[test]
fn set_fails_with_the_cause_of_the_failed_write() {
    let payload = SetPayload {
        key: "key",
        value: "new",
        ttl: 10,
    };
    match set_after_write(&payload, Err(broken_pipe())) {
        Err(KvError::CommandFailed(cause)) => {
            assert_eq!(cause.kind(), ErrorKind::Io);
            assert_eq!(cause.detail(), Some("while writing"));
        }
        other => panic!("expected a failed command, got {:?}", other),
    }
}

#[test]
fn delete_passes_success_and_wraps_failure() {
    assert!(matches!(deleted(Ok(())), Ok(())));
    match deleted(Err(broken_pipe())) {
        Err(KvError::CommandFailed(cause)) => assert_eq!(cause.kind(), ErrorKind::Io),
        other => panic!("expected a failed command, got {:?}", other),
    }
}

#[test]
fn kv_error_is_made_from_a_redis_error_as_a_failed_command() {
    match KvError::from(broken_pipe()) {
        KvError::CommandFailed(cause) => assert_eq!(cause.detail(), Some("while writing")),
        other => panic!("expected a failed command, got {:?}", other),
    }
}
