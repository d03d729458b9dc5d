//! The relational model behind the resolvers: three relations (users,
//! sessions, items) held in memory, with the invariants the schema
//! enforced — unique user identifiers and emails, unique session
//! identifiers, and every session and item owned by an existing user.

use vstd::prelude::*;
use crate::errors::ServerError;
use crate::models::{FullUser, FullUserV, Item, ItemV, NewSession, Session, SessionV, User, UserV};

verus! {

/// Mathematical view of the whole store.
pub struct StoreV {
    pub users: Seq<FullUserV>,
    pub sessions: Seq<SessionV>,
    pub items: Seq<ItemV>,
    pub next_user_id: int,
}

impl StoreV {
    pub open spec fn contains_user_id(self, uid: int) -> bool {
        exists|i: int| 0 <= i < self.users.len() && self.users[i].id == uid
    }

    pub open spec fn user_index(self, uid: int) -> int {
        choose|i: int| 0 <= i < self.users.len() && self.users[i].id == uid
    }

    /// The user row with identifier `uid`; meaningful only when
    /// `contains_user_id(uid)` holds and user identifiers are unique.
    pub open spec fn user_with_id(self, uid: int) -> FullUserV {
        self.users[self.user_index(uid)]
    }

    pub open spec fn contains_email(self, email: Seq<char>) -> bool {
        exists|i: int| 0 <= i < self.users.len() && self.users[i].email == email
    }

    pub open spec fn email_index(self, email: Seq<char>) -> int {
        choose|i: int| 0 <= i < self.users.len() && self.users[i].email == email
    }

    /// The user row with email `email`; meaningful only when
    /// `contains_email(email)` holds and emails are unique.
    pub open spec fn user_with_email(self, email: Seq<char>) -> FullUserV {
        self.users[self.email_index(email)]
    }

    pub open spec fn contains_session(self, sid: int) -> bool {
        exists|i: int| 0 <= i < self.sessions.len() && self.sessions[i].id == sid
    }

    pub open spec fn session_index(self, sid: int) -> int {
        choose|i: int| 0 <= i < self.sessions.len() && self.sessions[i].id == sid
    }

    /// The session row with identifier `sid`; meaningful only when
    /// `contains_session(sid)` holds and session identifiers are unique.
    pub open spec fn session_with_id(self, sid: int) -> SessionV {
        self.sessions[self.session_index(sid)]
    }

    pub open spec fn user_ids_unique(self) -> bool {
        forall|i: int, j: int|
            #![trigger self.users[i], self.users[j]]
            0 <= i < j < self.users.len() ==> self.users[i].id != self.users[j].id
    }

    pub open spec fn emails_unique(self) -> bool {
        forall|i: int, j: int|
            #![trigger self.users[i], self.users[j]]
            0 <= i < j < self.users.len() ==> self.users[i].email != self.users[j].email
    }

    pub open spec fn session_ids_unique(self) -> bool {
        forall|i: int, j: int|
            #![trigger self.sessions[i], self.sessions[j]]
            0 <= i < j < self.sessions.len() ==> self.sessions[i].id != self.sessions[j].id
    }

    /// Every assigned user identifier is positive and below the next free one.
    pub open spec fn user_ids_bounded(self) -> bool {
        forall|i: int|
            0 <= i < self.users.len() ==> 1 <= (#[trigger] self.users[i]).id < self.next_user_id
    }

    /// Every session references an existing user.
    pub open spec fn sessions_owned(self) -> bool {
        forall|i: int|
            0 <= i < self.sessions.len() ==> self.contains_user_id(
                (#[trigger] self.sessions[i]).user_id,
            )
    }

    /// Every item references an existing user.
    pub open spec fn items_owned(self) -> bool {
        forall|i: int|
            0 <= i < self.items.len() ==> self.contains_user_id((#[trigger] self.items[i]).user_id)
    }

    /// The store's invariant: what the relational schema enforced.
    pub open spec fn wf(self) -> bool {
        &&& self.user_ids_unique()
        &&& self.emails_unique()
        &&& self.session_ids_unique()
        &&& self.user_ids_bounded()
        &&& self.sessions_owned()
        &&& self.items_owned()
        &&& 1 <= self.next_user_id <= i32::MAX
    }
}

/// The sessions owned by `uid`, in stored order.
pub open spec fn sessions_of(ss: Seq<SessionV>, uid: int) -> Seq<SessionV>
    decreases ss.len(),
{
    if ss.len() == 0 {
        Seq::empty()
    } else {
        let rest = sessions_of(ss.drop_last(), uid);
        if ss.last().user_id == uid {
            rest.push(ss.last())
        } else {
            rest
        }
    }
}

/// The sessions not owned by `uid`, in stored order.
pub open spec fn sessions_not_of(ss: Seq<SessionV>, uid: int) -> Seq<SessionV>
    decreases ss.len(),
{
    if ss.len() == 0 {
        Seq::empty()
    } else {
        let rest = sessions_not_of(ss.drop_last(), uid);
        if ss.last().user_id != uid {
            rest.push(ss.last())
        } else {
            rest
        }
    }
}

/// The items owned by `uid`, in stored order.
pub open spec fn items_of(is: Seq<ItemV>, uid: int) -> Seq<ItemV>
    decreases is.len(),
{
    if is.len() == 0 {
        Seq::empty()
    } else {
        let rest = items_of(is.drop_last(), uid);
        if is.last().user_id == uid {
            rest.push(is.last())
        } else {
            rest
        }
    }
}

/// The items not owned by `uid`, in stored order.
pub open spec fn items_not_of(is: Seq<ItemV>, uid: int) -> Seq<ItemV>
    decreases is.len(),
{
    if is.len() == 0 {
        Seq::empty()
    } else {
        let rest = items_not_of(is.drop_last(), uid);
        if is.last().user_id != uid {
            rest.push(is.last())
        } else {
            rest
        }
    }
}

/// Every session kept by `sessions_not_of` comes from the original
/// sequence and is not owned by `uid`.
pub proof fn lemma_sessions_not_of_props(ss: Seq<SessionV>, uid: int)
    ensures
        forall|i: int|
            0 <= i < sessions_not_of(ss, uid).len() ==> (#[trigger] sessions_not_of(ss, uid)[i]).user_id
                != uid && ss.contains(sessions_not_of(ss, uid)[i]),
    decreases ss.len(),
{
    if ss.len() == 0 {
    } else {
        let rest = ss.drop_last();
        lemma_sessions_not_of_props(rest, uid);
        let r = sessions_not_of(ss, uid);
        let rr = sessions_not_of(rest, uid);
        assert forall|i: int| 0 <= i < r.len() implies (#[trigger] r[i]).user_id != uid
            && ss.contains(r[i]) by {
            if i < rr.len() as int {
                assert(rr[i].user_id != uid && rest.contains(rr[i]));
                let w = choose|w: int| 0 <= w < rest.len() && rest[w] == rr[i];
                assert(ss[w] == r[i]);
            } else {
                assert(r[i] == ss[ss.len() - 1]);
            }
        }
    }
}

/// `sessions_not_of` keeps pairwise-distinct session identifiers distinct.
pub proof fn lemma_sessions_not_of_distinct(ss: Seq<SessionV>, uid: int)
    requires
        forall|i: int, j: int|
            #![trigger ss[i], ss[j]]
            0 <= i < j < ss.len() ==> ss[i].id != ss[j].id,
    ensures
        forall|i: int, j: int|
            #![trigger sessions_not_of(ss, uid)[i], sessions_not_of(ss, uid)[j]]
            0 <= i < j < sessions_not_of(ss, uid).len() ==> sessions_not_of(ss, uid)[i].id
                != sessions_not_of(ss, uid)[j].id,
    decreases ss.len(),
{
    if ss.len() == 0 {
    } else {
        let rest = ss.drop_last();
        lemma_sessions_not_of_distinct(rest, uid);
        lemma_sessions_not_of_props(rest, uid);
        let r = sessions_not_of(ss, uid);
        let rr = sessions_not_of(rest, uid);
        assert forall|i: int, j: int|
            #![trigger r[i], r[j]]
            0 <= i < j < r.len() implies r[i].id != r[j].id by {
            if j < rr.len() as int {
                assert(rr[i].id != rr[j].id);
            } else {
                assert(r[j] == ss[ss.len() - 1]);
                assert(rest.contains(rr[i]));
                let w = choose|w: int| 0 <= w < rest.len() && rest[w] == rr[i];
                assert(ss[w].id != ss[ss.len() - 1].id);
            }
        }
    }
}

/// Every item kept by `items_not_of` comes from the original sequence and
/// is not owned by `uid`.
pub proof fn lemma_items_not_of_props(is: Seq<ItemV>, uid: int)
    ensures
        forall|i: int|
            0 <= i < items_not_of(is, uid).len() ==> (#[trigger] items_not_of(is, uid)[i]).user_id
                != uid && is.contains(items_not_of(is, uid)[i]),
    decreases is.len(),
{
    if is.len() == 0 {
    } else {
        let rest = is.drop_last();
        lemma_items_not_of_props(rest, uid);
        let r = items_not_of(is, uid);
        let rr = items_not_of(rest, uid);
        assert forall|i: int| 0 <= i < r.len() implies (#[trigger] r[i]).user_id != uid
            && is.contains(r[i]) by {
            if i < rr.len() as int {
                assert(rr[i].user_id != uid && rest.contains(rr[i]));
                let w = choose|w: int| 0 <= w < rest.len() && rest[w] == rr[i];
                assert(is[w] == r[i]);
            } else {
                assert(r[i] == is[is.len() - 1]);
            }
        }
    }
}

/// When user identifiers are unique, the row found at position `k` is the
/// row `user_with_id` denotes.
pub proof fn lemma_user_row_at(s: StoreV, k: int)
    requires
        s.user_ids_unique(),
        0 <= k < s.users.len(),
    ensures
        s.contains_user_id(s.users[k].id),
        s.user_index(s.users[k].id) == k,
        s.user_with_id(s.users[k].id) == s.users[k],
{
    let uid = s.users[k].id;
    assert(s.contains_user_id(uid));
    let i = s.user_index(uid);
    assert(0 <= i < s.users.len() && s.users[i].id == uid);
    if i < k {
        assert(s.users[i].id != s.users[k].id);
    } else if k < i {
        assert(s.users[k].id != s.users[i].id);
    }
}

/// When emails are unique, the row found at position `k` is the row
/// `user_with_email` denotes.
pub proof fn lemma_user_row_with_email_at(s: StoreV, k: int)
    requires
        s.emails_unique(),
        0 <= k < s.users.len(),
    ensures
        s.contains_email(s.users[k].email),
        s.email_index(s.users[k].email) == k,
        s.user_with_email(s.users[k].email) == s.users[k],
{
    let email = s.users[k].email;
    assert(s.contains_email(email));
    let i = s.email_index(email);
    assert(0 <= i < s.users.len() && s.users[i].email == email);
    if i < k {
        assert(s.users[i].email != s.users[k].email);
    } else if k < i {
        assert(s.users[k].email != s.users[i].email);
    }
}

/// When session identifiers are unique, the row found at position `k` is
/// the row `session_with_id` denotes.
pub proof fn lemma_session_row_at(s: StoreV, k: int)
    requires
        s.session_ids_unique(),
        0 <= k < s.sessions.len(),
    ensures
        s.contains_session(s.sessions[k].id),
        s.session_index(s.sessions[k].id) == k,
        s.session_with_id(s.sessions[k].id) == s.sessions[k],
{
    let sid = s.sessions[k].id;
    assert(s.contains_session(sid));
    let i = s.session_index(sid);
    assert(0 <= i < s.sessions.len() && s.sessions[i].id == sid);
    if i < k {
        assert(s.sessions[i].id != s.sessions[k].id);
    } else if k < i {
        assert(s.sessions[k].id != s.sessions[i].id);
    }
}

/// The store: users, sessions, and items, plus the next free user
/// identifier.
pub struct Store {
    pub users: Vec<FullUser>,
    pub sessions: Vec<Session>,
    pub items: Vec<Item>,
    pub next_user_id: i32,
}

impl View for Store {
    type V = StoreV;

    open spec fn view(&self) -> StoreV {
        StoreV {
            users: self.users@.map_values(|u: FullUser| u@),
            sessions: self.sessions@.map_values(|s: Session| s@),
            items: self.items@.map_values(|i: Item| i@),
            next_user_id: self.next_user_id as int,
        }
    }
}

impl Store {
    /// An empty store.
    pub fn new() -> (s: Store)
        ensures
            s@.wf(),
            s@ == (StoreV {
                users: Seq::<FullUserV>::empty(),
                sessions: Seq::<SessionV>::empty(),
                items: Seq::<ItemV>::empty(),
                next_user_id: 1,
            }),
    {
        let s = Store { users: Vec::new(), sessions: Vec::new(), items: Vec::new(), next_user_id: 1 };
        proof {
            assert(s@.users =~= Seq::<FullUserV>::empty());
            assert(s@.sessions =~= Seq::<SessionV>::empty());
            assert(s@.items =~= Seq::<ItemV>::empty());
        }
        s
    }

    /// Position of the user row with identifier `uid`, if any.
    fn index_of_user(&self, uid: i32) -> (r: Option<usize>)
        requires
            self@.user_ids_unique(),
        ensures
            match r {
                Some(k) => {
                    &&& k < self.users.len()
                    &&& self@.contains_user_id(uid as int)
                    &&& self@.user_index(uid as int) == k as int
                    &&& self@.users[k as int].id == uid as int
                },
                None => !self@.contains_user_id(uid as int),
            },
    {
        let n = self.users.len();
        let mut k: usize = 0;
        while k < n
            invariant
                n == self.users.len(),
                k <= n,
                self@.user_ids_unique(),
                forall|j: int| 0 <= j < k ==> (#[trigger] self@.users[j]).id != uid as int,
            decreases n - k,
        {
            if self.users[k].id == uid {
                proof {
                    lemma_user_row_at(self@, k as int);
                }
                return Some(k);
            }
            k += 1;
        }
        None
    }

    /// Exact lookup of a user row by identifier.
    pub fn find_full_user(&self, uid: i32) -> (r: Option<&FullUser>)
        requires
            self@.user_ids_unique(),
        ensures
            match r {
                Some(u) => self@.contains_user_id(uid as int) && u@ == self@.user_with_id(
                    uid as int,
                ),
                None => !self@.contains_user_id(uid as int),
            },
    {
        match self.index_of_user(uid) {
            Some(k) => Some(&self.users[k]),
            None => None,
        }
    }

    /// Exact lookup of a user row by email.
    pub fn find_user_by_email(&self, email: &String) -> (r: Option<&FullUser>)
        requires
            self@.emails_unique(),
        ensures
            match r {
                Some(u) => self@.contains_email(email@) && u@ == self@.user_with_email(email@),
                None => !self@.contains_email(email@),
            },
    {
        let n = self.users.len();
        let mut k: usize = 0;
        while k < n
            invariant
                n == self.users.len(),
                k <= n,
                self@.emails_unique(),
                forall|j: int| 0 <= j < k ==> (#[trigger] self@.users[j]).email != email@,
            decreases n - k,
        {
            if self.users[k].email == *email {
                proof {
                    lemma_user_row_with_email_at(self@, k as int);
                }
                return Some(&self.users[k]);
            }
            k += 1;
        }
        None
    }

    /// Position of the session row with identifier `sid`, if any.
    fn index_of_session(&self, sid: u128) -> (r: Option<usize>)
        requires
            self@.session_ids_unique(),
        ensures
            match r {
                Some(k) => {
                    &&& k < self.sessions.len()
                    &&& self@.contains_session(sid as int)
                    &&& self@.session_index(sid as int) == k as int
                    &&& self@.sessions[k as int].id == sid as int
                },
                None => !self@.contains_session(sid as int),
            },
    {
        let n = self.sessions.len();
        let mut k: usize = 0;
        while k < n
            invariant
                n == self.sessions.len(),
                k <= n,
                self@.session_ids_unique(),
                forall|j: int| 0 <= j < k ==> (#[trigger] self@.sessions[j]).id != sid as int,
            decreases n - k,
        {
            if self.sessions[k].id == sid {
                proof {
                    lemma_session_row_at(self@, k as int);
                }
                return Some(k);
            }
            k += 1;
        }
        None
    }

    /// Exact lookup of a session row.
    pub fn find_session(&self, sid: u128) -> (r: Option<Session>)
        requires
            self@.session_ids_unique(),
        ensures
            match r {
                Some(s) => self@.contains_session(sid as int) && s@ == self@.session_with_id(
                    sid as int,
                ),
                None => !self@.contains_session(sid as int),
            },
    {
        match self.index_of_session(sid) {
            Some(k) => Some(self.sessions[k]),
            None => None,
        }
    }

    /// Inserts a user row with a fresh identifier, the given email, the
    /// given password digest, and both timestamps set to `now`. Fails
    /// exactly when the email is taken or the identifier space is spent.
    pub fn insert_user(&mut self, email: String, digest: String, now: i64) -> (r: Result<
        User,
        ServerError,
    >)
        requires
            old(self)@.wf(),
        ensures
            final(self)@.wf(),
            final(self)@.sessions == old(self)@.sessions,
            final(self)@.items == old(self)@.items,
            r is Err ==> final(self)@ == old(self)@,
            old(self)@.contains_email(email@) ==> r == Err::<User, ServerError>(
                ServerError::UniqueViolation,
            ),
            !old(self)@.contains_email(email@) && old(self)@.next_user_id == i32::MAX ==> r
                == Err::<User, ServerError>(ServerError::IdSpaceExhausted),
            !old(self)@.contains_email(email@) && old(self)@.next_user_id < i32::MAX ==> {
                &&& r matches Ok(u) && u@ == (UserV {
                    id: old(self)@.next_user_id,
                    created_at: now as int,
                    updated_at: now as int,
                    email: email@,
                })
                &&& final(self)@.users == old(self)@.users.push(
                    FullUserV {
                        id: old(self)@.next_user_id,
                        created_at: now as int,
                        updated_at: now as int,
                        email: email@,
                        password: digest@,
                    },
                )
                &&& final(self)@.next_user_id == old(self)@.next_user_id + 1
            },
    {
        if self.find_user_by_email(&email).is_some() {
            return Err(ServerError::UniqueViolation);
        }
        if self.next_user_id == i32::MAX {
            return Err(ServerError::IdSpaceExhausted);
        }
        let id = self.next_user_id;
        let user = User { id, created_at: now, updated_at: now, email: email.clone() };
        let row = FullUser { id, created_at: now, updated_at: now, email, password: digest };
        let ghost o = self@;
        let ghost rowv = row@;
        self.users.push(row);
        self.next_user_id = id + 1;
        proof {
            let n = self@;
            assert(n.users =~= o.users.push(rowv));
            assert(n.sessions =~= o.sessions);
            assert(n.items =~= o.items);
            assert forall|i: int, j: int|
                #![trigger n.users[i], n.users[j]]
                0 <= i < j < n.users.len() implies n.users[i].id != n.users[j].id
                && n.users[i].email != n.users[j].email by {
                if j < o.users.len() as int {
                    assert(o.users[i].id != o.users[j].id);
                    assert(o.users[i].email != o.users[j].email);
                } else {
                    assert(n.users[j] == rowv);
                    assert(1 <= o.users[i].id < o.next_user_id);
                    if o.users[i].email == rowv.email {
                        assert(o.contains_email(rowv.email));
                    }
                }
            }
            assert forall|i: int| 0 <= i < n.users.len() implies 1 <= (
            #[trigger] n.users[i]).id < n.next_user_id by {
                if i < o.users.len() as int {
                    assert(1 <= o.users[i].id < o.next_user_id);
                }
            }
            assert forall|i: int| 0 <= i < n.sessions.len() implies n.contains_user_id(
                (#[trigger] n.sessions[i]).user_id,
            ) by {
                assert(o.contains_user_id(o.sessions[i].user_id));
                let w = choose|w: int|
                    0 <= w < o.users.len() && o.users[w].id == o.sessions[i].user_id;
                assert(n.users[w].id == n.sessions[i].user_id);
            }
            assert forall|i: int| 0 <= i < n.items.len() implies n.contains_user_id(
                (#[trigger] n.items[i]).user_id,
            ) by {
                assert(o.contains_user_id(o.items[i].user_id));
                let w = choose|w: int| 0 <= w < o.users.len() && o.users[w].id == o.items[i].user_id;
                assert(n.users[w].id == n.items[i].user_id);
            }
        }
        Ok(user)
    }

    /// Replaces the password digest of the user row with identifier `uid`;
    /// no other column changes. Fails exactly when no such row exists.
    pub fn update_user_password(&mut self, uid: i32, digest: String) -> (r: Result<
        User,
        ServerError,
    >)
        requires
            old(self)@.wf(),
        ensures
            final(self)@.wf(),
            final(self)@.sessions == old(self)@.sessions,
            final(self)@.items == old(self)@.items,
            final(self)@.next_user_id == old(self)@.next_user_id,
            !old(self)@.contains_user_id(uid as int) ==> r == Err::<User, ServerError>(
                ServerError::NotFound,
            ) && final(self)@ == old(self)@,
            old(self)@.contains_user_id(uid as int) ==> {
                &&& r matches Ok(u) && u@ == crate::models::slim_of(
                    old(self)@.user_with_id(uid as int),
                )
                &&& final(self)@.users == old(self)@.users.update(
                    old(self)@.user_index(uid as int),
                    FullUserV { password: digest@, ..old(self)@.user_with_id(uid as int) },
                )
            },
    {
        let k = match self.index_of_user(uid) {
            Some(k) => k,
            None => {
                return Err(ServerError::NotFound);
            },
        };
        let slim = self.users[k].slim();
        let row = FullUser {
            id: self.users[k].id,
            created_at: self.users[k].created_at,
            updated_at: self.users[k].updated_at,
            email: self.users[k].email.clone(),
            password: digest,
        };
        let ghost o = self@;
        let ghost rowv = row@;
        self.users.set(k, row);
        proof {
            let n = self@;
            assert(n.users =~= o.users.update(k as int, rowv));
            assert(n.sessions =~= o.sessions);
            assert(n.items =~= o.items);
            assert forall|i: int|
                #![trigger n.users[i]]
                0 <= i < n.users.len() implies n.users[i].id == o.users[i].id && n.users[i].email
                == o.users[i].email by {}
            assert forall|i: int, j: int|
                #![trigger n.users[i], n.users[j]]
                0 <= i < j < n.users.len() implies n.users[i].id != n.users[j].id
                && n.users[i].email != n.users[j].email by {
                assert(o.users[i].id != o.users[j].id);
                assert(o.users[i].email != o.users[j].email);
            }
            assert forall|x: int| o.contains_user_id(x) implies n.contains_user_id(x) by {
                let w = choose|w: int| 0 <= w < o.users.len() && o.users[w].id == x;
                assert(n.users[w].id == x);
            }
            assert forall|i: int| 0 <= i < n.sessions.len() implies n.contains_user_id(
                (#[trigger] n.sessions[i]).user_id,
            ) by {
                assert(o.contains_user_id(o.sessions[i].user_id));
            }
            assert forall|i: int| 0 <= i < n.items.len() implies n.contains_user_id(
                (#[trigger] n.items[i]).user_id,
            ) by {
                assert(o.contains_user_id(o.items[i].user_id));
            }
        }
        Ok(slim)
    }

    /// Inserts a session row for `input.user_id` under the identifier
    /// `sid`, created at `now`. Fails exactly when the user is absent or
    /// the identifier is already in use.
    pub fn create_session(&mut self, input: NewSession, sid: u128, now: i64) -> (r: Result<
        Session,
        ServerError,
    >)
        requires
            old(self)@.wf(),
        ensures
            final(self)@.wf(),
            final(self)@.users == old(self)@.users,
            final(self)@.items == old(self)@.items,
            final(self)@.next_user_id == old(self)@.next_user_id,
            r is Err ==> final(self)@ == old(self)@,
            !old(self)@.contains_user_id(input.user_id as int) ==> r == Err::<Session, ServerError>(
                ServerError::NotFound,
            ),
            old(self)@.contains_user_id(input.user_id as int) && old(self)@.contains_session(
                sid as int,
            ) ==> r == Err::<Session, ServerError>(ServerError::SessionIdCollision),
            old(self)@.contains_user_id(input.user_id as int) && !old(self)@.contains_session(
                sid as int,
            ) ==> {
                &&& r matches Ok(s) && s@ == (SessionV {
                    id: sid as int,
                    created_at: now as int,
                    user_id: input.user_id as int,
                })
                &&& final(self)@.sessions == old(self)@.sessions.push(
                    SessionV { id: sid as int, created_at: now as int, user_id: input.user_id as int },
                )
            },
    {
        if self.index_of_user(input.user_id).is_none() {
            return Err(ServerError::NotFound);
        }
        if self.index_of_session(sid).is_some() {
            return Err(ServerError::SessionIdCollision);
        }
        let session = Session { id: sid, created_at: now, user_id: input.user_id };
        let ghost o = self@;
        let ghost sv = session@;
        self.sessions.push(session);
        proof {
            let n = self@;
            assert(n.users =~= o.users);
            assert(n.sessions =~= o.sessions.push(sv));
            assert(n.items =~= o.items);
            assert forall|i: int, j: int|
                #![trigger n.sessions[i], n.sessions[j]]
                0 <= i < j < n.sessions.len() implies n.sessions[i].id != n.sessions[j].id by {
                if j < o.sessions.len() as int {
                    assert(o.sessions[i].id != o.sessions[j].id);
                } else {
                    assert(n.sessions[j] == sv);
                    if o.sessions[i].id == sv.id {
                        assert(o.contains_session(sv.id));
                    }
                }
            }
            assert forall|x: int| o.contains_user_id(x) implies n.contains_user_id(x) by {
                let w = choose|w: int| 0 <= w < o.users.len() && o.users[w].id == x;
                assert(n.users[w].id == x);
            }
            assert forall|i: int| 0 <= i < n.sessions.len() implies n.contains_user_id(
                (#[trigger] n.sessions[i]).user_id,
            ) by {
                if i < o.sessions.len() as int {
                    assert(o.contains_user_id(o.sessions[i].user_id));
                } else {
                    assert(n.sessions[i] == sv);
                    assert(o.contains_user_id(sv.user_id));
                }
            }
            assert forall|i: int| 0 <= i < n.items.len() implies n.contains_user_id(
                (#[trigger] n.items[i]).user_id,
            ) by {
                assert(o.contains_user_id(o.items[i].user_id));
            }
        }
        Ok(session)
    }

    /// Removes the session row with identifier `sid`. Removing an absent
    /// session is reported as `NotFound`, not silently ignored.
    pub fn delete_session(&mut self, sid: u128) -> (r: Result<(), ServerError>)
        requires
            old(self)@.wf(),
        ensures
            final(self)@.wf(),
            final(self)@.users == old(self)@.users,
            final(self)@.items == old(self)@.items,
            final(self)@.next_user_id == old(self)@.next_user_id,
            !old(self)@.contains_session(sid as int) ==> r == Err::<(), ServerError>(
                ServerError::NotFound,
            ) && final(self)@ == old(self)@,
            old(self)@.contains_session(sid as int) ==> r == Ok::<(), ServerError>(())
                && final(self)@.sessions == old(self)@.sessions.remove(
                old(self)@.session_index(sid as int),
            ),
            !final(self)@.contains_session(sid as int),
    {
        let k = match self.index_of_session(sid) {
            Some(k) => k,
            None => {
                return Err(ServerError::NotFound);
            },
        };
        let ghost o = self@;
        self.sessions.remove(k);
        proof {
            let n = self@;
            assert(n.users =~= o.users);
            assert(n.sessions =~= o.sessions.remove(k as int));
            assert(n.items =~= o.items);
            o.sessions.remove_ensures(k as int);
            assert forall|i: int, j: int|
                #![trigger n.sessions[i], n.sessions[j]]
                0 <= i < j < n.sessions.len() implies n.sessions[i].id != n.sessions[j].id by {
                let i0: int = if i < k as int { i } else { i + 1 };
                let j0: int = if j < k as int { j } else { j + 1 };
                assert(n.sessions[i] == o.sessions[i0]);
                assert(n.sessions[j] == o.sessions[j0]);
                assert(o.sessions[i0].id != o.sessions[j0].id);
            }
            assert forall|i: int| 0 <= i < n.sessions.len() implies n.sessions[i].id != sid as int
                && n.contains_user_id((#[trigger] n.sessions[i]).user_id) by {
                let i0: int = if i < k as int { i } else { i + 1 };
                assert(n.sessions[i] == o.sessions[i0]);
                if i0 != k as int && o.sessions[i0].id == sid as int {
                    assert(o.sessions[k as int].id == sid as int);
                    if i0 < k as int {
                        assert(o.sessions[i0].id != o.sessions[k as int].id);
                    } else {
                        assert(o.sessions[k as int].id != o.sessions[i0].id);
                    }
                }
                assert(o.contains_user_id(o.sessions[i0].user_id));
                let w = choose|w: int| 0 <= w < o.users.len() && o.users[w].id == o.sessions[i0].user_id;
                assert(n.users[w].id == n.sessions[i].user_id);
            }
            assert forall|i: int| 0 <= i < n.items.len() implies n.contains_user_id(
                (#[trigger] n.items[i]).user_id,
            ) by {
                assert(o.contains_user_id(o.items[i].user_id));
                let w = choose|w: int| 0 <= w < o.users.len() && o.users[w].id == o.items[i].user_id;
                assert(n.users[w].id == n.items[i].user_id);
            }
            if n.contains_session(sid as int) {
                let w = choose|w: int| 0 <= w < n.sessions.len() && n.sessions[w].id == sid as int;
                assert(n.sessions[w].id != sid as int);
            }
        }
        Ok(())
    }

    /// The sessions owned by `uid`, in stored order.
    pub fn sessions_of_user(&self, uid: i32) -> (r: Vec<Session>)
        ensures
            r@.map_values(|s: Session| s@) == sessions_of(self@.sessions, uid as int),
    {
        let ghost vv = self@.sessions;
        let mut out: Vec<Session> = Vec::new();
        let n = self.sessions.len();
        let mut k: usize = 0;
        while k < n
            invariant
                n == self.sessions.len(),
                k <= n,
                vv == self@.sessions,
                vv.len() == n,
                out@.map_values(|s: Session| s@) == sessions_of(vv.take(k as int), uid as int),
            decreases n - k,
        {
            proof {
                assert(vv.take(k as int + 1).drop_last() =~= vv.take(k as int));
                assert(vv.take(k as int + 1).last() == vv[k as int]);
            }
            let ghost out0 = out@;
            if self.sessions[k].user_id == uid {
                out.push(self.sessions[k]);
                proof {
                    assert(out@.map_values(|s: Session| s@) =~= out0.map_values(
                        |s: Session| s@,
                    ).push(vv[k as int]));
                }
            }
            k += 1;
        }
        proof {
            assert(vv.take(n as int) =~= vv);
        }
        out
    }

    /// The sessions not owned by `uid`, in stored order.
    fn sessions_keeping_others(&self, uid: i32) -> (r: Vec<Session>)
        ensures
            r@.map_values(|s: Session| s@) == sessions_not_of(self@.sessions, uid as int),
    {
        let ghost vv = self@.sessions;
        let mut out: Vec<Session> = Vec::new();
        let n = self.sessions.len();
        let mut k: usize = 0;
        while k < n
            invariant
                n == self.sessions.len(),
                k <= n,
                vv == self@.sessions,
                vv.len() == n,
                out@.map_values(|s: Session| s@) == sessions_not_of(vv.take(k as int), uid as int),
            decreases n - k,
        {
            proof {
                assert(vv.take(k as int + 1).drop_last() =~= vv.take(k as int));
                assert(vv.take(k as int + 1).last() == vv[k as int]);
            }
            let ghost out0 = out@;
            if self.sessions[k].user_id != uid {
                out.push(self.sessions[k]);
                proof {
                    assert(out@.map_values(|s: Session| s@) =~= out0.map_values(
                        |s: Session| s@,
                    ).push(vv[k as int]));
                }
            }
            k += 1;
        }
        proof {
            assert(vv.take(n as int) =~= vv);
        }
        out
    }

    /// The items owned by `uid`, in stored order.
    pub fn items_of_user(&self, uid: i32) -> (r: Vec<Item>)
        ensures
            r@.map_values(|i: Item| i@) == items_of(self@.items, uid as int),
    {
        let ghost vv = self@.items;
        let mut out: Vec<Item> = Vec::new();
        let n = self.items.len();
        let mut k: usize = 0;
        while k < n
            invariant
                n == self.items.len(),
                k <= n,
                vv == self@.items,
                vv.len() == n,
                out@.map_values(|i: Item| i@) == items_of(vv.take(k as int), uid as int),
            decreases n - k,
        {
            proof {
                assert(vv.take(k as int + 1).drop_last() =~= vv.take(k as int));
                assert(vv.take(k as int + 1).last() == vv[k as int]);
            }
            let ghost out0 = out@;
            if self.items[k].user_id == uid {
                out.push(self.items[k].duplicate());
                proof {
                    assert(out@.map_values(|i: Item| i@) =~= out0.map_values(|i: Item| i@).push(
                        vv[k as int],
                    ));
                }
            }
            k += 1;
        }
        proof {
            assert(vv.take(n as int) =~= vv);
        }
        out
    }

    /// The items not owned by `uid`, in stored order.
    fn items_keeping_others(&self, uid: i32) -> (r: Vec<Item>)
        ensures
            r@.map_values(|i: Item| i@) == items_not_of(self@.items, uid as int),
    {
        let ghost vv = self@.items;
        let mut out: Vec<Item> = Vec::new();
        let n = self.items.len();
        let mut k: usize = 0;
        while k < n
            invariant
                n == self.items.len(),
                k <= n,
                vv == self@.items,
                vv.len() == n,
                out@.map_values(|i: Item| i@) == items_not_of(vv.take(k as int), uid as int),
            decreases n - k,
        {
            proof {
                assert(vv.take(k as int + 1).drop_last() =~= vv.take(k as int));
                assert(vv.take(k as int + 1).last() == vv[k as int]);
            }
            let ghost out0 = out@;
            if self.items[k].user_id != uid {
                out.push(self.items[k].duplicate());
                proof {
                    assert(out@.map_values(|i: Item| i@) =~= out0.map_values(|i: Item| i@).push(
                        vv[k as int],
                    ));
                }
            }
            k += 1;
        }
        proof {
            assert(vv.take(n as int) =~= vv);
        }
        out
    }

    /// Removes the user row with identifier `uid` together with every
    /// session and item it owns; reports whether a row was removed.
    pub fn delete_user(&mut self, uid: i32) -> (r: bool)
        requires
            old(self)@.wf(),
        ensures
            final(self)@.wf(),
            final(self)@.next_user_id == old(self)@.next_user_id,
            !old(self)@.contains_user_id(uid as int) ==> !r && final(self)@ == old(self)@,
            old(self)@.contains_user_id(uid as int) ==> r && {
                &&& final(self)@.users == old(self)@.users.remove(
                    old(self)@.user_index(uid as int),
                )
                &&& final(self)@.sessions == sessions_not_of(old(self)@.sessions, uid as int)
                &&& final(self)@.items == items_not_of(old(self)@.items, uid as int)
            },
            !final(self)@.contains_user_id(uid as int),
    {
        let k = match self.index_of_user(uid) {
            Some(k) => k,
            None => {
                return false;
            },
        };
        let new_sessions = self.sessions_keeping_others(uid);
        let new_items = self.items_keeping_others(uid);
        let ghost o = self@;
        self.users.remove(k);
        self.sessions = new_sessions;
        self.items = new_items;
        proof {
            let n = self@;
            assert(n.users =~= o.users.remove(k as int));
            o.users.remove_ensures(k as int);
            assert(n.sessions == sessions_not_of(o.sessions, uid as int));
            assert(n.items == items_not_of(o.items, uid as int));
            assert forall|i: int, j: int|
                #![trigger n.users[i], n.users[j]]
                0 <= i < j < n.users.len() implies n.users[i].id != n.users[j].id
                && n.users[i].email != n.users[j].email by {
                let i0: int = if i < k as int { i } else { i + 1 };
                let j0: int = if j < k as int { j } else { j + 1 };
                assert(n.users[i] == o.users[i0]);
                assert(n.users[j] == o.users[j0]);
                assert(o.users[i0].id != o.users[j0].id);
                assert(o.users[i0].email != o.users[j0].email);
            }
            assert forall|i: int| 0 <= i < n.users.len() implies 1 <= (#[trigger] n.users[i]).id
                < n.next_user_id && n.users[i].id != uid as int by {
                let i0: int = if i < k as int { i } else { i + 1 };
                assert(n.users[i] == o.users[i0]);
                assert(1 <= o.users[i0].id < o.next_user_id);
                if i0 != k as int && o.users[i0].id == uid as int {
                    assert(o.users[k as int].id == uid as int);
                    if i0 < k as int {
                        assert(o.users[i0].id != o.users[k as int].id);
                    } else {
                        assert(o.users[k as int].id != o.users[i0].id);
                    }
                }
            }
            if n.contains_user_id(uid as int) {
                let w = choose|w: int| 0 <= w < n.users.len() && n.users[w].id == uid as int;
                assert(n.users[w].id != uid as int);
            }
            lemma_sessions_not_of_distinct(o.sessions, uid as int);
            lemma_sessions_not_of_props(o.sessions, uid as int);
            lemma_items_not_of_props(o.items, uid as int);
            assert forall|i: int| 0 <= i < n.sessions.len() implies n.contains_user_id(
                (#[trigger] n.sessions[i]).user_id,
            ) by {
                assert(o.sessions.contains(n.sessions[i]));
                let w0 = choose|w0: int|
                    0 <= w0 < o.sessions.len() && o.sessions[w0] == n.sessions[i];
                assert(o.contains_user_id(o.sessions[w0].user_id));
                let w = choose|w: int|
                    0 <= w < o.users.len() && o.users[w].id == o.sessions[w0].user_id;
                assert(n.sessions[i].user_id != uid as int);
                assert(o.users[w].id != uid as int);
                assert(w != k as int);
                let w1: int = if w < k as int { w } else { w - 1 };
                assert(n.users[w1] == o.users[w]);
            }
            assert forall|i: int| 0 <= i < n.items.len() implies n.contains_user_id(
                (#[trigger] n.items[i]).user_id,
            ) by {
                assert(o.items.contains(n.items[i]));
                let w0 = choose|w0: int| 0 <= w0 < o.items.len() && o.items[w0] == n.items[i];
                assert(o.contains_user_id(o.items[w0].user_id));
                let w = choose|w: int|
                    0 <= w < o.users.len() && o.users[w].id == o.items[w0].user_id;
                assert(n.items[i].user_id != uid as int);
                assert(o.users[w].id != uid as int);
                assert(w != k as int);
                let w1: int = if w < k as int { w } else { w - 1 };
                assert(n.users[w1] == o.users[w]);
            }
        }
        true
    }
}

} // verus!
