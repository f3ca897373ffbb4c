//! The persistent store's adapter: what it makes of the replies of the
//! backing key-value service.
//!
//! The adapter speaks three commands: GET, SET with an expiry, and DEL. The
//! functions here decide what each reply means; sending the commands is the
//! caller's part.

use crate::SetPayload;
use redis::{Client, RedisError};
use vstd::prelude::*;
use vstd::std_specs::convert::FromSpecImpl;

verus! {

/// `redis::RedisError`: the cause of a failed command. It is carried
/// through; nothing is known of what a value holds.
#[verifier::external_type_specification]
#[verifier::external_body]
pub struct ExRedisError(RedisError);

/// `redis::Client`: the address of a backing service, not yet connected to.
/// Nothing is known of what a value holds.
#[verifier::external_type_specification]
#[verifier::external_body]
pub struct ExClient(Client);

/// What `redis::Client::open` returns for a connection URL.
pub uninterp spec fn client_open(url: Seq<char>) -> Result<Client, RedisError>;

/// `redis::Client::open` on a URL: the client for that address, or the error
/// that the URL is turned down with. It parses the URL and connects to
/// nothing, so the result depends on the URL alone.
#[verifier::external_body]
fn open_client(url: &str) -> (client: Result<Client, RedisError>)
    ensures
        client == client_open(url@),
{
    Client::open(url)
}

/// Why the adapter failed.
#[derive(Debug)]
pub enum KvError {
    /// A command failed on a connection that was up.
    CommandFailed(RedisError),
    /// The backing service could not be reached when the adapter was set up.
    ConnectionNotEstablished,
}

impl From<RedisError> for KvError {
    fn from(err: RedisError) -> (error: KvError) {
        KvError::CommandFailed(err)
    }
}

impl FromSpecImpl<RedisError> for KvError {
    open spec fn obeys_from_spec() -> bool {
        true
    }

    open spec fn from_spec(err: RedisError) -> KvError {
        KvError::CommandFailed(err)
    }
}

/// What a step of setting the adapter up comes to: a failure of any kind
/// means that no connection was established.
pub open spec fn established_spec<C>(attempt: Result<C, RedisError>) -> Result<C, KvError> {
    match attempt {
        Ok(made) => Ok(made),
        Err(_) => Err(KvError::ConnectionNotEstablished),
    }
}

/// The value that a reply to GET stands for: the stored one if there is one
/// and it is not empty. A failed GET counts as no value, never as an error.
pub open spec fn stored_value_spec(reply: Result<String, RedisError>) -> Option<String> {
    match reply {
        Ok(stored) => if stored@.len() > 0 {
            Some(stored)
        } else {
            None
        },
        Err(_) => None,
    }
}

/// What a set is to do once the key has been read.
pub enum SetStep<'a> {
    /// The key holds this value already: the set ends with it, and nothing
    /// is written.
    Keep(String),
    /// The key holds nothing: a SET with expiry is due, of this key to this
    /// value, to expire after this many seconds.
    Write(SetPayload<'a>),
}

/// A step of setting the adapter up, checked: the client or connection that
/// was made, or `ConnectionNotEstablished` whatever the cause.
pub fn established<C>(attempt: Result<C, RedisError>) -> (outcome: Result<C, KvError>)
    ensures
        outcome == established_spec(attempt),
{
    match attempt {
        Ok(made) => Ok(made),
        Err(_) => Err(KvError::ConnectionNotEstablished),
    }
}

/// The client for the backing service at `url`, or `ConnectionNotEstablished`
/// if the URL is turned down.
pub fn client(url: &str) -> (outcome: Result<Client, KvError>)
    ensures
        outcome == established_spec(client_open(url@)),
{
    established(open_client(url))
}

/// The value that `get` reports for a reply to GET.
pub fn stored_value(reply: Result<String, RedisError>) -> (value: Option<String>)
    ensures
        value == stored_value_spec(reply),
{
    match reply {
        Ok(stored) => if stored.as_str().is_empty() {
            None
        } else {
            Some(stored)
        },
        Err(_) => None,
    }
}

/// The first half of a set: given the reply to a GET of the key, whether the
/// value found there stands, or what is to be written: the key, the value
/// and the expiry of the set, as they were asked for. The first writer wins.
pub fn set_after_read<'a>(payload: SetPayload<'a>, reply: Result<String, RedisError>) -> (step:
    SetStep<'a>)
    ensures
        step == match stored_value_spec(reply) {
            Some(stored) => SetStep::Keep(stored),
            None => SetStep::Write(payload),
        },
{
    match stored_value(reply) {
        Some(stored) => SetStep::Keep(stored),
        None => SetStep::Write(payload),
    }
}

/// The second half of a set: given what was handed to the SET with expiry
/// and the reply to it, the value that was written, or `CommandFailed` with
/// the cause.
pub fn set_after_write(payload: &SetPayload, reply: Result<(), RedisError>) -> (outcome: Result<
    String,
    KvError,
>)
    ensures
        match reply {
            Ok(_) => outcome matches Ok(written) && written@ == payload.value@,
            Err(cause) => outcome == Err::<String, KvError>(KvError::CommandFailed(cause)),
        },
{
    match reply {
        Ok(_) => Ok(payload.value.to_owned()),
        Err(cause) => Err(KvError::from(cause)),
    }
}

/// What a delete comes to, given the reply to DEL: done, or `CommandFailed`
/// with the cause.
pub fn deleted(reply: Result<(), RedisError>) -> (outcome: Result<(), KvError>)
    ensures
        outcome == match reply {
            Ok(_) => Ok::<(), KvError>(()),
            Err(cause) => Err::<(), KvError>(KvError::CommandFailed(cause)),
        },
{
    match reply {
        Ok(_) => Ok(()),
        Err(cause) => Err(KvError::from(cause)),
    }
}

} // verus!
