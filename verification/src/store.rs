//! The persisted state: user and message tables with strictly increasing
//! ids, and the typed read, insert and delete operations over them.

use crate::time::Timestamp;
use vstd::prelude::*;

verus! {

/// A stored user row.
#[derive(Debug)]
pub struct PostUser {
    pub id: i32,
    pub name: String,
    pub register_date: Timestamp,
}

/// A stored message row.
#[derive(Debug)]
pub struct PostMessage {
    pub id: i32,
    pub user: i32,
    pub title: String,
    pub content: String,
    pub pub_date: Timestamp,
}

/// Mathematical model of a user row.
#[verifier::ext_equal]
pub ghost struct UserV {
    pub id: int,
    pub name: Seq<char>,
    pub register_date: Timestamp,
}

/// Mathematical model of a message row.
#[verifier::ext_equal]
pub ghost struct MessageV {
    pub id: int,
    pub user: int,
    pub title: Seq<char>,
    pub content: Seq<char>,
    pub pub_date: Timestamp,
}

impl View for PostUser {
    type V = UserV;

    open spec fn view(&self) -> UserV {
        UserV { id: self.id as int, name: self.name@, register_date: self.register_date }
    }
}

impl DeepView for PostUser {
    type V = UserV;

    open spec fn deep_view(&self) -> UserV {
        self.view()
    }
}

impl View for PostMessage {
    type V = MessageV;

    open spec fn view(&self) -> MessageV {
        MessageV {
            id: self.id as int,
            user: self.user as int,
            title: self.title@,
            content: self.content@,
            pub_date: self.pub_date,
        }
    }
}

impl DeepView for PostMessage {
    type V = MessageV;

    open spec fn deep_view(&self) -> MessageV {
        self.view()
    }
}

impl PostUser {
    pub open spec fn wf(self) -> bool {
        self.register_date.wf()
    }
}

impl PostMessage {
    pub open spec fn wf(self) -> bool {
        self.pub_date.wf()
    }
}

/// How a store operation fails: the query itself failed, or no row matched.
#[derive(Clone, Copy, Debug, PartialEq, Eq, Structural)]
pub enum StoreError {
    QueryFailed,
    NotFound,
}

/// Mathematical model of the persisted state: the two tables, each ordered
/// by insertion.
#[verifier::ext_equal]
pub ghost struct StoreV {
    pub users: Seq<UserV>,
    pub messages: Seq<MessageV>,
}

impl StoreV {
    /// Both tables hold strictly increasing ids (so ids are unique and the
    /// rows are sorted by id), and every timestamp is renderable.
    pub open spec fn wf(self) -> bool {
        &&& forall|i: int, j: int|
            #![trigger self.users[i], self.users[j]]
            0 <= i < j < self.users.len() ==> self.users[i].id < self.users[j].id
        &&& forall|i: int, j: int|
            #![trigger self.messages[i], self.messages[j]]
            0 <= i < j < self.messages.len() ==> self.messages[i].id < self.messages[j].id
        &&& forall|i: int| 0 <= i < self.users.len() ==> (#[trigger] self.users[i]).register_date.wf()
        &&& forall|i: int|
            0 <= i < self.messages.len() ==> (#[trigger] self.messages[i]).pub_date.wf()
    }
}

/// The first user row carrying the given name, if any.
pub open spec fn find_user(users: Seq<UserV>, name: Seq<char>) -> Option<UserV>
    decreases users.len(),
{
    if users.len() == 0 {
        None
    } else if users[0].name == name {
        Some(users[0])
    } else {
        find_user(users.skip(1), name)
    }
}

/// Scanning past a prefix without the name does not change the result.
pub proof fn lemma_find_user_skip(users: Seq<UserV>, name: Seq<char>, k: int)
    requires
        0 <= k <= users.len(),
        forall|j: int| 0 <= j < k ==> (#[trigger] users[j]).name != name,
    ensures
        find_user(users, name) == find_user(users.skip(k), name),
    decreases k,
{
    if k == 0 {
        assert(users.skip(0) =~= users);
    } else {
        assert(users[0].name != name);
        assert forall|j: int| 0 <= j < k - 1 implies (#[trigger] users.skip(1)[j]).name
            != name by {
            assert(users.skip(1)[j] == users[j + 1]);
        }
        lemma_find_user_skip(users.skip(1), name, k - 1);
        assert(users.skip(1).skip(k - 1) =~= users.skip(k));
        assert(find_user(users, name) == find_user(users.skip(1), name));
    }
}

/// `find_user` succeeds exactly when some row carries the name, and returns
/// a row that does.
pub proof fn lemma_find_user_found(users: Seq<UserV>, name: Seq<char>)
    ensures
        find_user(users, name) is Some <==> exists|i: int|
            0 <= i < users.len() && (#[trigger] users[i]).name == name,
        find_user(users, name) matches Some(u) ==> u.name == name && exists|i: int|
            0 <= i < users.len() && #[trigger] users[i] == u,
    decreases users.len(),
{
    if users.len() > 0 {
        if users[0].name == name {
            assert(users[0].name == name);
        } else {
            lemma_find_user_found(users.skip(1), name);
            if find_user(users.skip(1), name) is Some {
                let i = choose|i: int|
                    0 <= i < users.skip(1).len() && (#[trigger] users.skip(1)[i]).name == name;
                assert(users[i + 1].name == name);
                let u = find_user(users, name)->Some_0;
                let k = choose|k: int|
                    0 <= k < users.skip(1).len() && #[trigger] users.skip(1)[k] == u;
                assert(users[k + 1] == u);
            } else {
                assert forall|i: int|
                    0 <= i < users.len() implies (#[trigger] users[i]).name != name by {
                    if i > 0 {
                        assert(users.skip(1)[i - 1] == users[i]);
                    }
                }
            }
        }
    }
}

/// Appending a row does not change what an earlier name resolves to, and
/// makes a previously absent name resolve to the new row.
pub proof fn lemma_find_user_push(users: Seq<UserV>, name: Seq<char>, u: UserV)
    ensures
        find_user(users, name) is Some ==> find_user(users.push(u), name) == find_user(
            users,
            name,
        ),
        find_user(users, name) is None && u.name == name ==> find_user(users.push(u), name)
            == Some(u),
        find_user(users, name) is None && u.name != name ==> find_user(users.push(u), name)
            is None,
    decreases users.len(),
{
    if users.len() == 0 {
        assert(users.push(u)[0] == u);
        assert(users.push(u).skip(1) =~= Seq::<UserV>::empty());
        assert(find_user(Seq::<UserV>::empty(), name) is None);
        if u.name == name {
            assert(find_user(users.push(u), name) == Some(u));
        } else {
            assert(find_user(users.push(u), name) == find_user(users.push(u).skip(1), name));
        }
    } else {
        lemma_find_user_push(users.skip(1), name, u);
        assert(users.push(u).skip(1) =~= users.skip(1).push(u));
        assert(users.push(u)[0] == users[0]);
        if users[0].name == name {
            assert(find_user(users, name) == Some(users[0]));
            assert(find_user(users.push(u), name) == Some(users[0]));
        } else {
            assert(find_user(users, name) == find_user(users.skip(1), name));
            assert(find_user(users.push(u), name) == find_user(users.skip(1).push(u), name));
        }
    }
}

/// The store after a full purge: every message row gone, user rows kept.
pub open spec fn purged(s: StoreV) -> StoreV {
    StoreV { users: s.users, messages: Seq::empty() }
}

/// Whether the store accepts the row: its id must exceed every stored id,
/// which the sorted order reduces to a comparison with the last row.
pub open spec fn user_insert_allowed(users: Seq<UserV>, u: UserV) -> bool {
    users.len() == 0 || users.last().id < u.id
}

pub open spec fn message_insert_allowed(messages: Seq<MessageV>, m: MessageV) -> bool {
    messages.len() == 0 || messages.last().id < m.id
}

/// The persisted state: the `user` and `message` tables.
pub struct Store {
    pub users: Vec<PostUser>,
    pub messages: Vec<PostMessage>,
}

impl View for Store {
    type V = StoreV;

    open spec fn view(&self) -> StoreV {
        StoreV { users: self.users.deep_view(), messages: self.messages.deep_view() }
    }
}

impl Store {
    pub open spec fn wf(&self) -> bool {
        self@.wf()
    }

    /// An empty store.
    pub fn new() -> (s: Store)
        ensures
            s.wf(),
            s@.users.len() == 0,
            s@.messages.len() == 0,
    {
        let s = Store { users: Vec::new(), messages: Vec::new() };
        proof {
            assert(s@.users =~= Seq::<UserV>::empty());
            assert(s@.messages =~= Seq::<MessageV>::empty());
        }
        s
    }

    /// Runtime check of the store invariant, for callers outside verified
    /// code.
    pub fn is_wf(&self) -> (b: bool)
        ensures
            b == self.wf(),
    {
        let mut i: usize = 0;
        while i < self.users.len()
            invariant
                i <= self.users@.len(),
                forall|p: int, q: int|
                    #![trigger self@.users[p], self@.users[q]]
                    0 <= p < q < i ==> self@.users[p].id < self@.users[q].id,
                forall|p: int| 0 <= p < i ==> (#[trigger] self@.users[p]).register_date.wf(),
            decreases self.users@.len() - i,
        {
            if !self.users[i].register_date.is_wf() {
                proof {
                    assert(!self@.users[i as int].register_date.wf());
                    assert(!self@.wf());
                }
                return false;
            }
            if i > 0 && self.users[i - 1].id >= self.users[i].id {
                proof {
                    assert(self@.users[i - 1].id >= self@.users[i as int].id);
                    assert(!self@.wf());
                }
                return false;
            }
            proof {
                assert forall|p: int, q: int|
                    #![trigger self@.users[p], self@.users[q]]
                    0 <= p < q < i + 1 implies self@.users[p].id < self@.users[q].id by {
                    if q == i {
                        assert(self@.users[p].id <= self@.users[i - 1].id);
                    }
                }
            }
            i += 1;
        }
        let mut j: usize = 0;
        while j < self.messages.len()
            invariant
                forall|p: int, q: int|
                    #![trigger self@.users[p], self@.users[q]]
                    0 <= p < q < self@.users.len() ==> self@.users[p].id < self@.users[q].id,
                forall|p: int| 0 <= p < self@.users.len() ==> (#[trigger] self@.users[p]).register_date.wf(),
                j <= self.messages@.len(),
                forall|p: int, q: int|
                    #![trigger self@.messages[p], self@.messages[q]]
                    0 <= p < q < j ==> self@.messages[p].id < self@.messages[q].id,
                forall|p: int| 0 <= p < j ==> (#[trigger] self@.messages[p]).pub_date.wf(),
            decreases self.messages@.len() - j,
        {
            if !self.messages[j].pub_date.is_wf() {
                proof {
                    assert(!self@.messages[j as int].pub_date.wf());
                    assert(!self@.wf());
                }
                return false;
            }
            if j > 0 && self.messages[j - 1].id >= self.messages[j].id {
                proof {
                    assert(self@.messages[j - 1].id >= self@.messages[j as int].id);
                    assert(!self@.wf());
                }
                return false;
            }
            proof {
                assert forall|p: int, q: int|
                    #![trigger self@.messages[p], self@.messages[q]]
                    0 <= p < q < j + 1 implies self@.messages[p].id < self@.messages[q].id by {
                    if q == j {
                        assert(self@.messages[p].id <= self@.messages[j - 1].id);
                    }
                }
            }
            j += 1;
        }
        true
    }

    /// The greatest user id, `None` on an empty table.
    pub fn max_user_id(&self) -> (r: Option<i32>)
        requires
            self.wf(),
        ensures
            match r {
                Some(m) => self@.users.len() > 0 && m as int == self@.users.last().id,
                None => self@.users.len() == 0,
            },
    {
        if self.users.len() == 0 {
            None
        } else {
            Some(self.users[self.users.len() - 1].id)
        }
    }

    /// The greatest message id, `None` on an empty table.
    pub fn max_message_id(&self) -> (r: Option<i32>)
        requires
            self.wf(),
        ensures
            match r {
                Some(m) => self@.messages.len() > 0 && m as int == self@.messages.last().id,
                None => self@.messages.len() == 0,
            },
    {
        if self.messages.len() == 0 {
            None
        } else {
            Some(self.messages[self.messages.len() - 1].id)
        }
    }

    /// The first user row with the given name.
    pub fn find_user_by_name(&self, name: &str) -> (r: Option<&PostUser>)
        ensures
            match r {
                Some(u) => find_user(self@.users, name@) == Some(u@),
                None => find_user(self@.users, name@) is None,
            },
    {
        let mut i: usize = 0;
        while i < self.users.len()
            invariant
                i <= self.users@.len(),
                forall|j: int| 0 <= j < i ==> (#[trigger] self@.users[j]).name != name@,
            decreases self.users@.len() - i,
        {
            if crate::text::str_eq(self.users[i].name.as_str(), name) {
                proof {
                    lemma_find_user_skip(self@.users, name@, i as int);
                    assert(self@.users.skip(i as int)[0] == self@.users[i as int]);
                }
                return Some(&self.users[i]);
            }
            i += 1;
        }
        proof {
            lemma_find_user_skip(self@.users, name@, self@.users.len() as int);
            assert(self@.users.skip(self@.users.len() as int).len() == 0);
        }
        None
    }

    /// Appends a user row.  Succeeds exactly when the id exceeds every
    /// stored user id; on failure the store is unchanged.
    pub fn insert_user(&mut self, u: PostUser) -> (r: Result<(), StoreError>)
        requires
            old(self).wf(),
            u.wf(),
        ensures
            final(self).wf(),
            user_insert_allowed(old(self)@.users, u@) ==> r == Ok::<(), StoreError>(())
                && final(self)@.users == old(self)@.users.push(u@) && final(self)@.messages == old(
                self,
            )@.messages,
            !user_insert_allowed(old(self)@.users, u@) ==> r == Err::<(), StoreError>(
                StoreError::QueryFailed,
            ) && final(self)@ == old(self)@,
    {
        let len = self.users.len();
        if len == 0 || self.users[len - 1].id < u.id {
            proof {
                assert(forall|i: int|
                    0 <= i < old(self)@.users.len() - 1 ==> (#[trigger] old(self)@.users[i]).id
                        < old(self)@.users.last().id);
            }
            self.users.push(u);
            proof {
                assert(self@.users =~= old(self)@.users.push(u@));
                assert(self@.messages =~= old(self)@.messages);
            }
            Ok(())
        } else {
            Err(StoreError::QueryFailed)
        }
    }

    /// Appends a message row.  Succeeds exactly when the id exceeds every
    /// stored message id; on failure the store is unchanged.
    pub fn insert_message(&mut self, m: PostMessage) -> (r: Result<(), StoreError>)
        requires
            old(self).wf(),
            m.wf(),
        ensures
            final(self).wf(),
            message_insert_allowed(old(self)@.messages, m@) ==> r == Ok::<(), StoreError>(())
                && final(self)@.messages == old(self)@.messages.push(m@) && final(self)@.users
                == old(self)@.users,
            !message_insert_allowed(old(self)@.messages, m@) ==> r == Err::<(), StoreError>(
                StoreError::QueryFailed,
            ) && final(self)@ == old(self)@,
    {
        let len = self.messages.len();
        if len == 0 || self.messages[len - 1].id < m.id {
            proof {
                assert(forall|i: int|
                    0 <= i < old(self)@.messages.len() - 1 ==> (#[trigger] old(
                        self,
                    )@.messages[i]).id < old(self)@.messages.last().id);
            }
            self.messages.push(m);
            proof {
                assert(self@.messages =~= old(self)@.messages.push(m@));
                assert(self@.users =~= old(self)@.users);
            }
            Ok(())
        } else {
            Err(StoreError::QueryFailed)
        }
    }

    /// Deletes every message row; user rows are untouched.
    pub fn delete_all_messages(&mut self) -> (r: Result<(), StoreError>)
        requires
            old(self).wf(),
        ensures
            final(self).wf(),
            final(self)@ == purged(old(self)@),
            r == Ok::<(), StoreError>(()),
    {
        self.messages.clear();
        proof {
            assert(self@.messages =~= Seq::<MessageV>::empty());
            assert(self@.users =~= old(self)@.users);
            assert(self@ =~= purged(old(self)@));
        }
        Ok(())
    }

    /// The page of messages starting at the `offset`-th row, at most `limit`
    /// rows, in stored (ascending id) order.
    pub fn list_messages(&self, limit: u32, offset: u32) -> (r: Vec<PostMessage>)
        requires
            self.wf(),
        ensures
            r.deep_view() == page(self@.messages, offset as int, limit as int),
    {
        let mut out: Vec<PostMessage> = Vec::new();
        let mut i: usize = offset as usize;
        if i > self.messages.len() {
            i = self.messages.len();
        }
        let ghost lo = i as int;
        proof {
            assert(out.deep_view() =~= self@.messages.subrange(lo, lo));
        }
        while i < self.messages.len() && out.len() < limit as usize
            invariant
                self.wf(),
                lo == (if offset as int <= self@.messages.len() {
                    offset as int
                } else {
                    self@.messages.len() as int
                }),
                lo <= i <= self@.messages.len(),
                out.deep_view() == self@.messages.subrange(lo, i as int),
                out@.len() == i - lo,
                out@.len() <= limit as int,
            decreases self@.messages.len() - i,
        {
            let m = &self.messages[i];
            let copy = PostMessage {
                id: m.id,
                user: m.user,
                title: m.title.clone(),
                content: m.content.clone(),
                pub_date: m.pub_date,
            };
            proof {
                assert(copy@ == self@.messages[i as int]);
            }
            out.push(copy);
            i += 1;
            proof {
                assert(out.deep_view() =~= self@.messages.subrange(lo, i as int));
            }
        }
        proof {
            assert(out.deep_view() =~= page(self@.messages, offset as int, limit as int));
        }
        out
    }
}

/// At most `l` rows of `s` starting at the `o`-th.
pub open spec fn page<A>(s: Seq<A>, o: int, l: int) -> Seq<A>
    recommends
        o >= 0,
        l >= 0,
{
    if o >= s.len() {
        Seq::empty()
    } else if o + l >= s.len() {
        s.subrange(o, s.len() as int)
    } else {
        s.subrange(o, o + l)
    }
}

} // verus!
