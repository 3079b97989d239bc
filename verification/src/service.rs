//! The request paths: identity resolution, validation, pagination, the
//! write path and bulk deletion, each tied to a spec-level transition.

use crate::store::{
    find_user, page, purged, MessageV, PostMessage, PostUser, Store, StoreV, UserV,
};
use crate::text::{parse_u32, parse_u32_spec};
use crate::time::{now_timestamp, Timestamp};
use crate::wire::{message_json_view, parse_message_body, parsed_body, MessageJson, MessageJsonV};
use vstd::prelude::*;
use vstd::string::StrSliceExecFns;

verus! {

/// Longest accepted user name, in characters.
pub const MAX_NAME_CHARS: usize = 20;

/// Longest accepted message title, in characters.
pub const MAX_TITLE_CHARS: usize = 100;

/// Longest accepted message content, in characters.
pub const MAX_CONTENT_CHARS: usize = 400;

/// Page size of the read path when no `limit` parameter is given.
pub const DEFAULT_LIMIT: u32 = 100;

/// Start row of the read path when no `offset` parameter is given.
pub const DEFAULT_OFFSET: u32 = 0;

/// Which field of a message payload broke its length bound.
#[derive(Clone, Copy, Debug, PartialEq, Eq, Structural)]
pub enum ValidationError {
    TitleTooLong,
    ContentTooLong,
}

/// Why a request was malformed or out of bounds.
#[derive(Clone, Copy, Debug, PartialEq, Eq, Structural)]
pub enum BadRequestKind {
    InvalidLimit,
    InvalidOffset,
    NameTooLong,
    MalformedBody,
    TitleTooLong,
    ContentTooLong,
}

/// How a request fails: the client's fault, or the store's.
#[derive(Clone, Copy, Debug, PartialEq, Eq, Structural)]
pub enum ServiceError {
    BadRequest(BadRequestKind),
    Persistence,
}

/// Success marker of the write path.
#[derive(Clone, Copy, Debug, PartialEq, Eq, Structural)]
pub struct Receipt {
    pub message_id: i32,
    pub author_id: i32,
}

/// First failure wins: an overlong title is reported before an overlong
/// content.
pub open spec fn validate_spec(title: Seq<char>, content: Seq<char>) -> Result<
    (),
    ValidationError,
> {
    if title.len() > MAX_TITLE_CHARS as nat {
        Err(ValidationError::TitleTooLong)
    } else if content.len() > MAX_CONTENT_CHARS as nat {
        Err(ValidationError::ContentTooLong)
    } else {
        Ok(())
    }
}

/// Checks the length bounds of a message payload.
pub fn validate(title: &str, content: &str) -> (r: Result<(), ValidationError>)
    ensures
        r == validate_spec(title@, content@),
{
    if title.unicode_len() > MAX_TITLE_CHARS {
        Err(ValidationError::TitleTooLong)
    } else if content.unicode_len() > MAX_CONTENT_CHARS {
        Err(ValidationError::ContentTooLong)
    } else {
        Ok(())
    }
}

/// The author name a request resolves to: the cookie value when present,
/// else the literal `Unknown`.
pub open spec fn resolved_name(cookie: Option<Seq<char>>) -> Seq<char> {
    match cookie {
        Some(n) => n,
        None => "Unknown"@,
    }
}

/// Id the next user row gets: one above the current maximum, starting at 1.
pub open spec fn next_user_id(users: Seq<UserV>) -> int {
    if users.len() == 0 {
        1
    } else {
        users.last().id + 1
    }
}

/// Id the next message row gets: one above the current maximum, starting
/// at 1.
pub open spec fn next_message_id(messages: Seq<MessageV>) -> int {
    if messages.len() == 0 {
        1
    } else {
        messages.last().id + 1
    }
}

/// What resolving a name does to the store, and what it returns: the first
/// user row with the name, or a freshly created row one past the current
/// maximum id.  An overlong name is rejected before the store is read, and
/// an exhausted id space surfaces as a persistence failure.
pub open spec fn resolve_result(s: StoreV, name: Seq<char>, now: Timestamp) -> (
    StoreV,
    Result<UserV, ServiceError>,
) {
    if name.len() > MAX_NAME_CHARS as nat {
        (s, Err(ServiceError::BadRequest(BadRequestKind::NameTooLong)))
    } else {
        match find_user(s.users, name) {
            Some(u) => (s, Ok(u)),
            None => {
                let uid = next_user_id(s.users);
                if uid > i32::MAX as int {
                    (s, Err(ServiceError::Persistence))
                } else {
                    let u = UserV { id: uid, name: name, register_date: now };
                    (StoreV { users: s.users.push(u), messages: s.messages }, Ok(u))
                }
            },
        }
    }
}

/// Maps a user name to its stable user row, creating one when absent.  The
/// returned row is the authoritative record, not re-read from the store.
pub fn resolve_or_create_user(store: &mut Store, name: &str, now: Timestamp) -> (r: Result<
    PostUser,
    ServiceError,
>)
    requires
        old(store).wf(),
        now.wf(),
    ensures
        final(store).wf(),
        final(store)@ == resolve_result(old(store)@, name@, now).0,
        match (r, resolve_result(old(store)@, name@, now).1) {
            (Ok(u), Ok(uv)) => u@ == uv && u.wf(),
            (Err(e), Err(ev)) => e == ev,
            _ => false,
        },
{
    if name.unicode_len() > MAX_NAME_CHARS {
        return Err(ServiceError::BadRequest(BadRequestKind::NameTooLong));
    }
    match store.find_user_by_name(name) {
        Some(u) => {
            proof {
                crate::store::lemma_find_user_found(store@.users, name@);
            }
            Ok(PostUser { id: u.id, name: u.name.clone(), register_date: u.register_date })
        },
        None => {
            let new_id: i32 = match store.max_user_id() {
                Some(m) => {
                    if m == i32::MAX {
                        return Err(ServiceError::Persistence);
                    }
                    m + 1
                },
                None => 1,
            };
            let row = PostUser { id: new_id, name: name.to_owned(), register_date: now };
            let returned = PostUser { id: new_id, name: name.to_owned(), register_date: now };
            match store.insert_user(row) {
                Ok(()) => Ok(returned),
                Err(_) => Err(ServiceError::Persistence),
            }
        },
    }
}

pub open spec fn opt_str_view(o: Option<&str>) -> Option<Seq<char>> {
    match o {
        Some(s) => Some(s@),
        None => None,
    }
}

/// What posting a body does to the store, and what it returns.  Parsing and
/// validation come before any store access, so a rejected request commits
/// nothing: the name's length bound first, then the body's shape, then the
/// field bounds.  Only then is the name resolved (creating a user row when
/// absent) and a message row one past the current maximum id appended.
pub open spec fn post_result(
    s: StoreV,
    cookie: Option<Seq<char>>,
    raw: Seq<u8>,
    now: Timestamp,
) -> (StoreV, Result<MessageV, ServiceError>) {
    let name = resolved_name(cookie);
    if name.len() > MAX_NAME_CHARS as nat {
        (s, Err(ServiceError::BadRequest(BadRequestKind::NameTooLong)))
    } else {
        match parsed_body(raw) {
            None => (s, Err(ServiceError::BadRequest(BadRequestKind::MalformedBody))),
            Some(body) => match validate_spec(body.0, body.1) {
                Err(ValidationError::TitleTooLong) => (
                    s,
                    Err(ServiceError::BadRequest(BadRequestKind::TitleTooLong)),
                ),
                Err(ValidationError::ContentTooLong) => (
                    s,
                    Err(ServiceError::BadRequest(BadRequestKind::ContentTooLong)),
                ),
                Ok(()) => {
                    let resolved = resolve_result(s, name, now);
                    let s1 = resolved.0;
                    match resolved.1 {
                        Err(e) => (s1, Err(e)),
                        Ok(author) => {
                            let mid = next_message_id(s1.messages);
                            if mid > i32::MAX as int {
                                (s1, Err(ServiceError::Persistence))
                            } else {
                                let m = MessageV {
                                    id: mid,
                                    user: author.id,
                                    title: body.0,
                                    content: body.1,
                                    pub_date: now,
                                };
                                (StoreV { users: s1.users, messages: s1.messages.push(m) }, Ok(m))
                            }
                        },
                    }
                },
            },
        }
    }
}

/// The write path, at the given time.  The body is parsed and validated
/// before the store is touched, so a rejected request commits nothing.
pub fn post_at(
    store: &mut Store,
    cookie: Option<&str>,
    raw_body: &[u8],
    now: Timestamp,
) -> (r: Result<Receipt, ServiceError>)
    requires
        old(store).wf(),
        now.wf(),
    ensures
        final(store).wf(),
        final(store)@ == post_result(old(store)@, opt_str_view(cookie), raw_body@, now).0,
        match (r, post_result(old(store)@, opt_str_view(cookie), raw_body@, now).1) {
            (Ok(rc), Ok(mv)) => rc.message_id as int == mv.id && rc.author_id as int == mv.user,
            (Err(e), Err(ev)) => e == ev,
            _ => false,
        },
{
    let name: &str = match cookie {
        Some(c) => c,
        None => "Unknown",
    };
    proof {
        assert(name@ == resolved_name(opt_str_view(cookie)));
    }
    if name.unicode_len() > MAX_NAME_CHARS {
        return Err(ServiceError::BadRequest(BadRequestKind::NameTooLong));
    }
    let body = match parse_message_body(raw_body) {
        Some(b) => b,
        None => {
            return Err(ServiceError::BadRequest(BadRequestKind::MalformedBody));
        },
    };
    match validate(body.title.as_str(), body.content.as_str()) {
        Ok(()) => {},
        Err(ValidationError::TitleTooLong) => {
            return Err(ServiceError::BadRequest(BadRequestKind::TitleTooLong));
        },
        Err(ValidationError::ContentTooLong) => {
            return Err(ServiceError::BadRequest(BadRequestKind::ContentTooLong));
        },
    }
    let author = match resolve_or_create_user(store, name, now) {
        Ok(u) => u,
        Err(e) => {
            return Err(e);
        },
    };
    let new_id: i32 = match store.max_message_id() {
        Some(m) => {
            if m == i32::MAX {
                return Err(ServiceError::Persistence);
            }
            m + 1
        },
        None => 1,
    };
    let msg = PostMessage {
        id: new_id,
        user: author.id,
        title: body.title,
        content: body.content,
        pub_date: now,
    };
    match store.insert_message(msg) {
        Ok(()) => Ok(Receipt { message_id: new_id, author_id: author.id }),
        Err(_) => Err(ServiceError::Persistence),
    }
}

/// The write path, stamped with the current time.
pub fn post(store: &mut Store, cookie: Option<&str>, raw_body: &[u8]) -> (r: Result<
    Receipt,
    ServiceError,
>)
    requires
        old(store).wf(),
    ensures
        final(store).wf(),
        exists|now: Timestamp|
            #![auto]
            now.wf() && final(store)@ == post_result(
                old(store)@,
                opt_str_view(cookie),
                raw_body@,
                now,
            ).0 && (match (r, post_result(old(store)@, opt_str_view(cookie), raw_body@, now).1) {
                (Ok(rc), Ok(mv)) => rc.message_id as int == mv.id && rc.author_id as int == mv.user,
                (Err(e), Err(ev)) => e == ev,
                _ => false,
            }),
{
    let now = now_timestamp();
    let r = post_at(store, cookie, raw_body, now);
    r
}

/// Missing or unparseable parameters resolve before the store is read: the
/// defaults fill absent parameters, and an unparseable one is rejected,
/// `limit` first.
pub open spec fn effective_param(p: Option<Seq<char>>, default: u32) -> Option<u32> {
    match p {
        None => Some(default),
        Some(t) => parse_u32_spec(t),
    }
}

/// What the read path returns: the page of the message table starting at
/// the `offset`-th row, at most `limit` rows, each projected to its wire
/// representation.
pub open spec fn list_result(
    s: StoreV,
    limit: Option<Seq<char>>,
    offset: Option<Seq<char>>,
) -> Result<Seq<MessageJsonV>, ServiceError> {
    match effective_param(limit, DEFAULT_LIMIT) {
        None => Err(ServiceError::BadRequest(BadRequestKind::InvalidLimit)),
        Some(l) => match effective_param(offset, DEFAULT_OFFSET) {
            None => Err(ServiceError::BadRequest(BadRequestKind::InvalidOffset)),
            Some(o) => Ok(
                page(s.messages, o as int, l as int).map_values(
                    |m: MessageV| message_json_view(m),
                ),
            ),
        },
    }
}

/// The read path.
pub fn list(store: &Store, limit: Option<&str>, offset: Option<&str>) -> (r: Result<
    Vec<MessageJson>,
    ServiceError,
>)
    requires
        store.wf(),
    ensures
        match (r, list_result(store@, opt_str_view(limit), opt_str_view(offset))) {
            (Ok(v), Ok(sv)) => v.deep_view() == sv,
            (Err(e), Err(se)) => e == se,
            _ => false,
        },
{
    let l: u32 = match limit {
        Some(t) => match parse_u32(t) {
            Some(v) => v,
            None => {
                return Err(ServiceError::BadRequest(BadRequestKind::InvalidLimit));
            },
        },
        None => DEFAULT_LIMIT,
    };
    let o: u32 = match offset {
        Some(t) => match parse_u32(t) {
            Some(v) => v,
            None => {
                return Err(ServiceError::BadRequest(BadRequestKind::InvalidOffset));
            },
        },
        None => DEFAULT_OFFSET,
    };
    let rows = store.list_messages(l, o);
    let ghost pg = page(store@.messages, o as int, l as int);
    let mut out: Vec<MessageJson> = Vec::new();
    let mut i: usize = 0;
    while i < rows.len()
        invariant
            store.wf(),
            rows.deep_view() == pg,
            pg == page(store@.messages, o as int, l as int),
            i <= rows@.len(),
            out@.len() == i,
            forall|k: int|
                0 <= k < i ==> out.deep_view()[k] == message_json_view(rows.deep_view()[k]),
        decreases rows@.len() - i,
    {
        proof {
            assert(rows.deep_view()[i as int] == rows@[i as int]@);
            assert(rows.deep_view().len() == rows@.len());
            assert(pg.len() > 0);
            if o as int >= store@.messages.len() {
                assert(pg.len() == 0);
            }
            assert(pg[i as int] == store@.messages[o as int + i]);
            assert(rows@[i as int]@.pub_date.wf());
        }
        let mj = MessageJson::of_message(&rows[i]);
        let ghost prev = out;
        out.push(mj);
        i += 1;
        proof {
            assert(out.deep_view() =~= prev.deep_view().push(mj@));
        }
    }
    proof {
        assert(out.deep_view() =~= pg.map_values(|m: MessageV| message_json_view(m)));
    }
    Ok(out)
}

/// Deletes every message row; user rows are untouched.
pub fn purge_all_messages(store: &mut Store) -> (r: Result<(), ServiceError>)
    requires
        old(store).wf(),
    ensures
        final(store).wf(),
        final(store)@ == purged(old(store)@),
        r == Ok::<(), ServiceError>(()),
{
    match store.delete_all_messages() {
        Ok(()) => Ok(()),
        Err(_) => Err(ServiceError::Persistence),
    }
}

} // verus!
