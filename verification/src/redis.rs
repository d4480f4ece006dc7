//! What is computed around the backing store: the client for an address, and
//! the reading of the members of a stored set.

use vstd::prelude::*;
use vstd::string::StringExecFns;
use deadpool_redis::redis::{Client, RedisError};

verus! {

/// The client of the backing store.
#[verifier::external_type_specification]
#[verifier::external_body]
pub struct ExClient(deadpool_redis::redis::Client);

/// The error with which the store's own library refuses a request.
#[verifier::external_type_specification]
#[verifier::external_body]
pub struct ExRedisError(deadpool_redis::redis::RedisError);

/// What can go wrong around the store without the store being asked.
#[derive(Debug, Clone, Copy, PartialEq, Eq, Structural)]
pub enum StoreError {
    /// The address of the store was refused.
    InvalidAddress,
    /// A member of a stored set opens a quotation that it does not close in
    /// a single-byte character.
    MalformedEntry,
}

/// Whether `redis::Client::open` accepts the address `url`. The answer is that
/// of the store's library as it is built into this crate: it is the same for
/// the same address wherever that build runs, and the library reads nothing
/// but the address to give it.
pub uninterp spec fn address_accepted(url: Seq<char>) -> bool;

/// `redis::Client::open` on an address. It makes no connection: it reads the
/// address, and refuses one that it cannot read.
///
/// Trusted: that the call succeeds exactly for the addresses that the
/// library accepts, which depends on the address alone. Which addresses
/// those are is only named, not stated.
#[verifier::external_body]
fn client_for(url: &str) -> (r: Result<Client, RedisError>)
    ensures
        r is Ok <==> address_accepted(url@),
{
    Client::open(url)
}

/// The answer of `open` for what the store's library said of an address:
/// its client, or `InvalidAddress` in place of its error.
pub fn opened(outcome: Result<Client, RedisError>) -> (r: Result<Client, StoreError>)
    ensures
        match outcome {
            Ok(client) => r == Ok::<Client, StoreError>(client),
            Err(_) => r == Err::<Client, StoreError>(StoreError::InvalidAddress),
        },
{
    match outcome {
        Ok(client) => Ok(client),
        Err(_) => Err(StoreError::InvalidAddress),
    }
}

/// A client for the store at `url`. No connection is made yet. The address
/// is judged by the store's own library: there is a client exactly where it
/// accepts the address, and `InvalidAddress` where it does not.
pub fn open(url: &str) -> (r: Result<Client, StoreError>)
    ensures
        r is Ok <==> address_accepted(url@),
        r matches Err(error) ==> error == StoreError::InvalidAddress,
{
    opened(client_for(url))
}

/// Whether a character is written in a single byte.
pub open spec fn is_single_byte(c: char) -> bool {
    (c as u32) < 128
}

/// A set member as it is read: one that begins with a quotation mark loses
/// its first and its last character, any other is taken as it is. There is
/// no reading of a member that begins with a quotation mark and has no
/// second character, or whose last character takes more than one byte.
pub open spec fn unquoted(member: Seq<char>) -> Option<Seq<char>> {
    if member.len() > 0 && member[0] == '"' {
        if member.len() >= 2 && is_single_byte(member.last()) {
            Some(member.subrange(1, member.len() - 1))
        } else {
            None
        }
    } else {
        Some(member)
    }
}

fn read_member(member: &String) -> (r: Option<String>)
    ensures
        r.deep_view() == unquoted(member@),
{
    let text = member.as_str();
    let n = text.unicode_len();
    if n > 0 && text.get_char(0) == '"' {
        if n >= 2 && (text.get_char(n - 1) as u32) < 128 {
            Some(String::from_str(text.substring_char(1, n - 1)))
        } else {
            None
        }
    } else {
        Some(member.clone())
    }
}

/// Reads the members of a stored set, in the order given.
///
/// Succeeds exactly where every member has a reading (see `unquoted`); the
/// result then holds the readings, one for each member.
pub fn load_set_to_vec(set_members: &Vec<String>) -> (r: Result<Vec<String>, StoreError>)
    ensures
        match r {
            Ok(values) => {
                &&& values@.len() == set_members@.len()
                &&& forall|i: int|
                    0 <= i < values@.len() ==> unquoted(#[trigger] set_members@[i]@) == Some(
                        values@[i]@,
                    )
            },
            Err(error) => {
                &&& error == StoreError::MalformedEntry
                &&& exists|i: int|
                    0 <= i < set_members@.len() && unquoted(#[trigger] set_members@[i]@) is None
            },
        },
{
    let mut result: Vec<String> = Vec::new();
    let mut i: usize = 0;
    while i < set_members.len()
        invariant
            i <= set_members.len(),
            result@.len() == i,
            forall|k: int|
                0 <= k < i ==> unquoted(#[trigger] set_members@[k]@) == Some(result@[k]@),
        decreases set_members.len() - i,
    {
        match read_member(&set_members[i]) {
            Some(value) => {
                result.push(value);
            },
            None => {
                return Err(StoreError::MalformedEntry);
            },
        }
        i += 1;
    }
    Ok(result)
}

} // verus!
