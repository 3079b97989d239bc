//! Laws of the service: properties that relate several operations or
//! several calls, proved over the spec-level transitions.

use crate::service::{
    effective_param, list_result, next_message_id, next_user_id, post_result, resolved_name,
    BadRequestKind, ServiceError, DEFAULT_LIMIT, DEFAULT_OFFSET, MAX_CONTENT_CHARS,
    MAX_NAME_CHARS, MAX_TITLE_CHARS,
};
use crate::store::{
    find_user, lemma_find_user_push, page, purged, MessageV, StoreV, UserV,
};
use crate::time::Timestamp;
use crate::wire::{message_json_view, parsed_body, MessageJsonV};
use vstd::prelude::*;

verus! {

/// For parameters that parse (or are absent), the read path never fails; it
/// returns at most `limit` rows, the `offset`-th stored row first, in
/// ascending-id order, and an empty store yields the empty sequence.
pub proof fn lemma_list_pagination(s: StoreV, limit: Option<Seq<char>>, offset: Option<Seq<char>>)
    requires
        s.wf(),
        effective_param(limit, DEFAULT_LIMIT) is Some,
        effective_param(offset, DEFAULT_OFFSET) is Some,
    ensures
        list_result(s, limit, offset) is Ok,
        ({
            let l = effective_param(limit, DEFAULT_LIMIT)->Some_0 as int;
            let o = effective_param(offset, DEFAULT_OFFSET)->Some_0 as int;
            let r = list_result(s, limit, offset)->Ok_0;
            &&& r.len() <= l
            &&& forall|i: int| 0 <= i < r.len() ==> r[i] == message_json_view(s.messages[o + i])
            &&& forall|i: int, j: int|
                #![trigger r[i], r[j]]
                0 <= i < j < r.len() ==> r[i].id < r[j].id
            &&& s.messages.len() == 0 ==> r.len() == 0
        }),
{
    let l = effective_param(limit, DEFAULT_LIMIT)->Some_0 as int;
    let o = effective_param(offset, DEFAULT_OFFSET)->Some_0 as int;
    let pg = page(s.messages, o, l);
    let r = list_result(s, limit, offset)->Ok_0;
    assert(r == pg.map_values(|m: MessageV| message_json_view(m)));
    assert forall|i: int| 0 <= i < r.len() implies #[trigger] r[i] == message_json_view(
        s.messages[o + i],
    ) by {
        assert(pg[i] == s.messages[o + i]);
    }
    assert forall|i: int, j: int|
        #![trigger r[i], r[j]]
        0 <= i < j < r.len() implies r[i].id < r[j].id by {
        assert(pg[i] == s.messages[o + i]);
        assert(pg[j] == s.messages[o + j]);
        assert(s.messages[o + i].id < s.messages[o + j].id);
    }
}

/// The read path is a pure function of the store and its arguments: two
/// reads with the same arguments and no intervening write return the same
/// result.
pub proof fn lemma_list_idempotent(
    s: StoreV,
    limit: Option<Seq<char>>,
    offset: Option<Seq<char>>,
    r1: Result<Seq<MessageJsonV>, ServiceError>,
    r2: Result<Seq<MessageJsonV>, ServiceError>,
)
    requires
        r1 == list_result(s, limit, offset),
        r2 == list_result(s, limit, offset),
    ensures
        r1 == r2,
{
}

/// An overlong author name is rejected before any row is read or written.
pub proof fn lemma_post_rejects_long_name(
    s: StoreV,
    cookie: Option<Seq<char>>,
    raw: Seq<u8>,
    now: Timestamp,
)
    requires
        resolved_name(cookie).len() > MAX_NAME_CHARS as nat,
    ensures
        post_result(s, cookie, raw, now).0 == s,
        post_result(s, cookie, raw, now).1 == Err::<MessageV, ServiceError>(
            ServiceError::BadRequest(BadRequestKind::NameTooLong),
        ),
{
}

/// An overlong title or content is rejected with the matching bad-request
/// error (title first) and the store is left entirely unchanged: no message
/// row and no user row is written for a rejected post.
pub proof fn lemma_post_rejects_oversized(
    s: StoreV,
    cookie: Option<Seq<char>>,
    raw: Seq<u8>,
    now: Timestamp,
)
    requires
        parsed_body(raw) matches Some(b) && (b.0.len() > MAX_TITLE_CHARS as nat || b.1.len()
            > MAX_CONTENT_CHARS as nat),
        resolved_name(cookie).len() <= MAX_NAME_CHARS as nat,
    ensures
        post_result(s, cookie, raw, now).0 == s,
        post_result(s, cookie, raw, now).1 == Err::<MessageV, ServiceError>(
            if parsed_body(raw)->Some_0.0.len() > MAX_TITLE_CHARS as nat {
                ServiceError::BadRequest(BadRequestKind::TitleTooLong)
            } else {
                ServiceError::BadRequest(BadRequestKind::ContentTooLong)
            },
        ),
{
}

/// A body that does not parse is rejected as malformed and the store is
/// left entirely unchanged: no user or message row is written.
pub proof fn lemma_post_malformed_body(
    s: StoreV,
    cookie: Option<Seq<char>>,
    raw: Seq<u8>,
    now: Timestamp,
)
    requires
        parsed_body(raw) is None,
        resolved_name(cookie).len() <= MAX_NAME_CHARS as nat,
    ensures
        post_result(s, cookie, raw, now).0 == s,
        post_result(s, cookie, raw, now).1 == Err::<MessageV, ServiceError>(
            ServiceError::BadRequest(BadRequestKind::MalformedBody),
        ),
{
}

/// A valid post from a previously unseen name appends exactly one user row,
/// carrying that name, and exactly one message row authored by its id.
pub proof fn lemma_post_first_time_name(
    s: StoreV,
    cookie: Option<Seq<char>>,
    raw: Seq<u8>,
    now: Timestamp,
)
    requires
        find_user(s.users, resolved_name(cookie)) is None,
        resolved_name(cookie).len() <= MAX_NAME_CHARS as nat,
        next_user_id(s.users) <= i32::MAX as int,
        next_message_id(s.messages) <= i32::MAX as int,
        parsed_body(raw) matches Some(b) && b.0.len() <= MAX_TITLE_CHARS as nat && b.1.len()
            <= MAX_CONTENT_CHARS as nat,
    ensures
        post_result(s, cookie, raw, now).1 is Ok,
        post_result(s, cookie, raw, now).0.users == s.users.push(
            UserV { id: next_user_id(s.users), name: resolved_name(cookie), register_date: now },
        ),
        post_result(s, cookie, raw, now).0.messages == s.messages.push(
            MessageV {
                id: next_message_id(s.messages),
                user: next_user_id(s.users),
                title: parsed_body(raw)->Some_0.0,
                content: parsed_body(raw)->Some_0.1,
                pub_date: now,
            },
        ),
{
}

/// Two posts with the same cookie create at most one user row between them:
/// the second post reuses the row the first found or created, and each post
/// appends exactly one message row.
pub proof fn lemma_post_twice_single_user(
    s0: StoreV,
    cookie: Option<Seq<char>>,
    raw1: Seq<u8>,
    raw2: Seq<u8>,
    now1: Timestamp,
    now2: Timestamp,
)
    requires
        post_result(s0, cookie, raw1, now1).1 is Ok,
        post_result(post_result(s0, cookie, raw1, now1).0, cookie, raw2, now2).1 is Ok,
    ensures
        ({
            let s1 = post_result(s0, cookie, raw1, now1).0;
            let s2 = post_result(s1, cookie, raw2, now2).0;
            &&& s2.users == s1.users
            &&& s1.users.len() <= s0.users.len() + 1
            &&& s2.messages.len() == s1.messages.len() + 1
            &&& s1.messages.len() == s0.messages.len() + 1
            &&& post_result(s1, cookie, raw2, now2).1->Ok_0.user == post_result(
                s0,
                cookie,
                raw1,
                now1,
            ).1->Ok_0.user
        }),
{
    let name = resolved_name(cookie);
    let s1 = post_result(s0, cookie, raw1, now1).0;
    if find_user(s0.users, name) is None {
        let u = UserV { id: next_user_id(s0.users), name: name, register_date: now1 };
        lemma_find_user_push(s0.users, name, u);
        assert(find_user(s1.users, name) is Some);
    } else {
        assert(find_user(s1.users, name) is Some);
    }
}

/// After a purge the user rows are untouched and the read path yields the
/// empty sequence for any parseable parameters.
pub proof fn lemma_purge_empties_reads(
    s: StoreV,
    limit: Option<Seq<char>>,
    offset: Option<Seq<char>>,
)
    requires
        effective_param(limit, DEFAULT_LIMIT) is Some,
        effective_param(offset, DEFAULT_OFFSET) is Some,
    ensures
        purged(s).users == s.users,
        purged(s).messages.len() == 0,
        list_result(purged(s), limit, offset) == Ok::<Seq<MessageJsonV>, ServiceError>(
            Seq::empty(),
        ),
{
    let l = effective_param(limit, DEFAULT_LIMIT)->Some_0 as int;
    let o = effective_param(offset, DEFAULT_OFFSET)->Some_0 as int;
    assert(page(purged(s).messages, o, l) =~= Seq::<MessageV>::empty());
    assert(page(purged(s).messages, o, l).map_values(|m: MessageV| message_json_view(m))
        =~= Seq::<MessageJsonV>::empty());
}

/// A post without a cookie resolves the author to the literal `Unknown`;
/// on a valid body it succeeds, and a user row of that name exists
/// afterwards, created by this post if it was the first.
pub proof fn lemma_post_missing_cookie(s: StoreV, raw: Seq<u8>, now: Timestamp)
    requires
        next_user_id(s.users) <= i32::MAX as int,
        next_message_id(s.messages) <= i32::MAX as int,
        parsed_body(raw) matches Some(b) && b.0.len() <= MAX_TITLE_CHARS as nat && b.1.len()
            <= MAX_CONTENT_CHARS as nat,
    ensures
        resolved_name(None) == "Unknown"@,
        post_result(s, None, raw, now).1 is Ok,
        find_user(post_result(s, None, raw, now).0.users, "Unknown"@) is Some,
{
    reveal_strlit("Unknown");
    assert(resolved_name(None).len() == 7);
    if find_user(s.users, "Unknown"@) is None {
        let u = UserV { id: next_user_id(s.users), name: "Unknown"@, register_date: now };
        lemma_find_user_push(s.users, "Unknown"@, u);
    }
}

} // verus!

