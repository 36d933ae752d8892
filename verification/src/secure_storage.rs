//! Reading and keeping passwords in the platform's secure store.
use vstd::prelude::*;
use crate::text::{join3, opt_text};

verus! {

/// What came of reading a password. A missing entry is a normal state; a store
/// that cannot be reached is kept apart from it, so that nobody authenticates
/// with an empty password while the store is locked.
#[derive(Debug, PartialEq, Eq)]
pub enum LoadResult {
    Found(String),
    Missing,
    Unavailable(String),
}

/// What the store answered.
#[derive(Debug)]
pub enum EntryReply {
    Password(String),
    NoEntry,
    Failed(String),
    /// The helper thread that asks the store did not answer.
    Lost,
}

pub ghost enum LoadView {
    Found(Seq<char>),
    Missing,
    Unavailable(Seq<char>),
}

impl View for LoadResult {
    type V = LoadView;

    open spec fn view(&self) -> LoadView {
        match self {
            LoadResult::Found(password) => LoadView::Found(password@),
            LoadResult::Missing => LoadView::Missing,
            LoadResult::Unavailable(error) => LoadView::Unavailable(error@),
        }
    }
}

pub open spec fn status_of(reply: EntryReply) -> LoadView {
    match reply {
        EntryReply::Password(password) => LoadView::Found(password@),
        EntryReply::NoEntry => LoadView::Missing,
        EntryReply::Failed(error) => LoadView::Unavailable(error@),
        EntryReply::Lost => LoadView::Unavailable(
            "keyring helper thread panicked or was dropped"@,
        ),
    }
}

pub open spec fn found(status: LoadView) -> Option<Seq<char>> {
    match status {
        LoadView::Found(password) => Some(password),
        _ => None,
    }
}

/// The key under which the password of a host and port is kept.
pub fn user_key(host: &str, port: &str) -> (key: String)
    ensures
        key@ == host@ + ":"@ + port@,
{
    join3(host, ":", port)
}

/// The state of an entry, from what the store answered for its key.
pub fn load_by_key_status(reply: EntryReply) -> (status: LoadResult)
    ensures
        status@ == status_of(reply),
{
    match reply {
        EntryReply::Password(password) => LoadResult::Found(password),
        EntryReply::NoEntry => LoadResult::Missing,
        EntryReply::Failed(error) => LoadResult::Unavailable(error),
        EntryReply::Lost => LoadResult::Unavailable(
            "keyring helper thread panicked or was dropped".to_owned(),
        ),
    }
}

/// The state of the entry of a host and port, from what the store answered for
/// its key.
pub fn load_status(reply: EntryReply) -> (status: LoadResult)
    ensures
        status@ == status_of(reply),
{
    load_by_key_status(reply)
}

/// The password of a host and port, where the store has one.
pub fn load(status: LoadResult) -> (password: Option<String>)
    ensures
        opt_text(password) == found(status@),
{
    match status {
        LoadResult::Found(password) => Some(password),
        LoadResult::Missing | LoadResult::Unavailable(_) => None,
    }
}

/// The password of a key, where the store has one.
pub fn load_by_key(status: LoadResult) -> (password: Option<String>)
    ensures
        opt_text(password) == found(status@),
{
    match status {
        LoadResult::Found(password) => Some(password),
        LoadResult::Missing | LoadResult::Unavailable(_) => None,
    }
}

/// The password of a profile: the one kept under its own key, or else the one
/// kept under its host and port.
pub fn load_profile_password(by_key: LoadResult, by_host: LoadResult) -> (password: Option<String>)
    ensures
        opt_text(password) == (match found(by_key@) {
            Some(p) => Some(p),
            None => found(by_host@),
        }),
{
    match load_by_key(by_key) {
        Some(password) => Some(password),
        None => load(by_host),
    }
}

/// A store that cannot be reached yields no password, and its state differs
/// from that of a missing entry.
pub proof fn unreachable_store_is_no_missing_entry(reply: EntryReply)
    ensures
        reply is Failed || reply is Lost <==> status_of(reply) is Unavailable,
        reply is NoEntry <==> status_of(reply) is Missing,
        found(status_of(reply)) is Some <==> reply is Password,
{
}

} // verus!
