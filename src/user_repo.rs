use vstd::prelude::*;

use crate::errors::DatabaseError;
use crate::models::{
    NewUser, Timestamp, User, UserView,
};

verus! {

/// The views of a sequence of users.
pub open spec fn user_views(v: Seq<User>) -> Seq<UserView> {
    v.map_values(|c: User| c@)
}

/// Position of the row with identifier `id`, searching from the newest row.
pub open spec fn user_index(rows: Seq<UserView>, id: i32) -> Option<int>
    decreases rows.len(),
{
    if rows.len() == 0 {
        None
    } else if rows.last().user_id == id {
        Some(rows.len() - 1)
    } else {
        user_index(rows.drop_last(), id)
    }
}

/// Position of the row named `username`, searching from the newest row.
pub open spec fn username_index(rows: Seq<UserView>, username: Seq<char>) -> Option<int>
    decreases rows.len(),
{
    if rows.len() == 0 {
        None
    } else if rows.last().username == username {
        Some(rows.len() - 1)
    } else {
        username_index(rows.drop_last(), username)
    }
}

/// The stored row with identifier `id`, if any.
pub open spec fn user_with_id(rows: Seq<UserView>, id: i32) -> Option<UserView> {
    match user_index(rows, id) {
        Some(i) => Some(rows[i]),
        None => None,
    }
}

/// The stored row named `username`, if any.
pub open spec fn user_with_username(rows: Seq<UserView>, username: Seq<char>) -> Option<UserView> {
    match username_index(rows, username) {
        Some(i) => Some(rows[i]),
        None => None,
    }
}

/// Identifiers are positive, below `next` and increase with the position;
/// usernames are unique.
pub open spec fn user_rows_wf(rows: Seq<UserView>, next: int) -> bool {
    &&& 1 <= next <= i32::MAX + 1
    &&& forall|i: int| 0 <= i < rows.len() ==> 0 < #[trigger] rows[i].user_id < next
    &&& forall|i: int, j: int|
        0 <= i < j < rows.len() ==> #[trigger] rows[i].user_id < #[trigger] rows[j].user_id
    &&& forall|i: int, j: int|
        0 <= i < j < rows.len() ==> #[trigger] rows[i].username != #[trigger] rows[j].username
}

/// The row that a successful insertion stores.
pub open spec fn new_user_row(
    id: i32,
    username: Seq<char>,
    password_hash: Seq<char>,
    now: Timestamp,
) -> UserView {
    UserView {
        user_id: id,
        username,
        password_hash,
        created_at: Some(now),
        updated_at: Some(now),
    }
}

/// An insertion succeeds when the username is free and an identifier is left.
pub open spec fn user_insert_allowed(rows: Seq<UserView>, next: int, username: Seq<char>) -> bool {
    username_index(rows, username) is None && next <= i32::MAX
}

/// The rows after deleting row `id`.
pub open spec fn user_rows_deleted(rows: Seq<UserView>, id: i32) -> Seq<UserView> {
    match user_index(rows, id) {
        Some(i) => rows.remove(i),
        None => rows,
    }
}

pub proof fn lemma_user_index(rows: Seq<UserView>, id: i32)
    ensures
        match user_index(rows, id) {
            Some(i) => 0 <= i < rows.len() && rows[i].user_id == id,
            None => forall|k: int| 0 <= k < rows.len() ==> #[trigger] rows[k].user_id != id,
        },
    decreases rows.len(),
{
    if rows.len() > 0 && rows.last().user_id != id {
        let rest = rows.drop_last();
        lemma_user_index(rest, id);
        assert(user_index(rows, id) == user_index(rest, id));
        if user_index(rows, id) is None {
            assert forall|k: int| 0 <= k < rows.len() implies #[trigger] rows[k].user_id != id by {
                if k < rows.len() - 1 {
                    assert(rows[k] == rest[k]);
                    if user_index(rest, id) is None {
                        assert(rest[k].user_id != id);
                    }
                }
            }
        }
    }
}

pub proof fn lemma_username_index(rows: Seq<UserView>, username: Seq<char>)
    ensures
        match username_index(rows, username) {
            Some(i) => 0 <= i < rows.len() && rows[i].username == username,
            None => forall|k: int| 0 <= k < rows.len() ==> #[trigger] rows[k].username != username,
        },
    decreases rows.len(),
{
    if rows.len() > 0 && rows.last().username != username {
        let rest = rows.drop_last();
        lemma_username_index(rest, username);
        assert(username_index(rows, username) == username_index(rest, username));
        if username_index(rows, username) is None {
            assert forall|k: int| 0 <= k < rows.len() implies #[trigger] rows[k].username != username by {
                if k < rows.len() - 1 {
                    assert(rows[k] == rest[k]);
                    if username_index(rest, username) is None {
                        assert(rest[k].username != username);
                    }
                }
            }
        }
    }
}

/// The store of users.
pub struct UserRepo {
    rows: Vec<User>,
    next_id: i64,
}

impl View for UserRepo {
    type V = Seq<UserView>;

    closed spec fn view(&self) -> Seq<UserView> {
        user_views(self.rows@)
    }
}

impl UserRepo {
    /// The identifier that the next insertion receives.
    pub closed spec fn next_id(&self) -> int {
        self.next_id as int
    }

    pub open spec fn wf(&self) -> bool {
        user_rows_wf(self@, self.next_id())
    }

    /// An empty store; identifiers start at 1.
    pub fn new() -> (r: UserRepo)
        ensures
            r.wf(),
            r@ == Seq::<UserView>::empty(),
            r.next_id() == 1,
    {
        let r = UserRepo { rows: Vec::new(), next_id: 1 };
        assert(r@ =~= Seq::<UserView>::empty());
        r
    }

    fn index_of_id(&self, id: i32) -> (r: Option<usize>)
        ensures
            match r {
                Some(i) => user_index(self@, id) == Some(i as int),
                None => user_index(self@, id) is None,
            },
    {
        let mut i: usize = self.rows.len();
        assert(self@.subrange(0, i as int) =~= self@);
        while i > 0
            invariant
                i <= self.rows.len(),
                self@.len() == self.rows@.len(),
                user_index(self@, id) == user_index(self@.subrange(0, i as int), id),
            decreases i,
        {
            assert(self@[i - 1] == self.rows@[i - 1]@);
            if self.rows[i - 1].user_id == id {
                return Some(i - 1);
            }
            assert(self@.subrange(0, i as int).drop_last() =~= self@.subrange(0, i - 1));
            i -= 1;
        }
        None
    }

    fn index_of_name(&self, username: &String) -> (r: Option<usize>)
        ensures
            match r {
                Some(i) => username_index(self@, username@) == Some(i as int),
                None => username_index(self@, username@) is None,
            },
    {
        let mut i: usize = self.rows.len();
        assert(self@.subrange(0, i as int) =~= self@);
        while i > 0
            invariant
                i <= self.rows.len(),
                self@.len() == self.rows@.len(),
                username_index(self@, username@) == username_index(
                    self@.subrange(0, i as int),
                    username@,
                ),
            decreases i,
        {
            assert(self@[i - 1] == self.rows@[i - 1]@);
            if self.rows[i - 1].username == *username {
                return Some(i - 1);
            }
            assert(self@.subrange(0, i as int).drop_last() =~= self@.subrange(0, i - 1));
            i -= 1;
        }
        None
    }

    /// Every stored user, oldest first; `None` when there is none.
    pub fn get_all(&self) -> (r: Result<Option<Vec<User>>, DatabaseError>)
        ensures
            match r {
                Ok(None) => self@.len() == 0,
                Ok(Some(v)) => self@.len() > 0 && user_views(v@) == self@,
                Err(_) => false,
            },
    {
        if self.rows.len() == 0 {
            return Ok(None);
        }
        let mut out: Vec<User> = Vec::new();
        let mut i: usize = 0;
        while i < self.rows.len()
            invariant
                i <= self.rows.len(),
                self@.len() == self.rows@.len(),
                out@.len() == i,
                forall|k: int| 0 <= k < i ==> #[trigger] out@[k]@ == self@[k],
            decreases self.rows.len() - i,
        {
            assert(self@[i as int] == self.rows@[i as int]@);
            out.push(self.rows[i].duplicate());
            i += 1;
        }
        assert(user_views(out@) =~= self@);
        Ok(Some(out))
    }

    /// The user with identifier `id`; absence is no error.
    pub fn get_by_id(&self, id: i32) -> (r: Result<Option<User>, DatabaseError>)
        ensures
            match r {
                Ok(Some(c)) => user_with_id(self@, id) == Some(c@),
                Ok(None) => user_with_id(self@, id) is None,
                Err(_) => false,
            },
    {
        match self.index_of_id(id) {
            Some(i) => {
                proof { lemma_user_index(self@, id); }
                assert(self@[i as int] == self.rows@[i as int]@);
                Ok(Some(self.rows[i].duplicate()))
            },
            None => Ok(None),
        }
    }

    /// The user named `username_query`; absence is no error.
    pub fn get_by_username(&self, username_query: &str) -> (r: Result<Option<User>, DatabaseError>)
        ensures
            match r {
                Ok(Some(c)) => user_with_username(self@, username_query@) == Some(c@),
                Ok(None) => user_with_username(self@, username_query@) is None,
                Err(_) => false,
            },
    {
        let username = username_query.to_owned();
        match self.index_of_name(&username) {
            Some(i) => {
                proof { lemma_username_index(self@, username@); }
                assert(self@[i as int] == self.rows@[i as int]@);
                Ok(Some(self.rows[i].duplicate()))
            },
            None => Ok(None),
        }
    }
    /// Stores a new user with a fresh identifier, both timestamps set to
    /// `now`, and returns the identifier. Fails, changing nothing, when the
    /// username is taken or no identifier is left.
    pub fn insert(&mut self, item: NewUser, now: Timestamp) -> (r: Result<i32, DatabaseError>)
        requires
            old(self).wf(),
        ensures
            final(self).wf(),
            match r {
                Ok(id) => {
                    &&& user_insert_allowed(old(self)@, old(self).next_id(), item.username@)
                    &&& id == old(self).next_id()
                    &&& final(self)@ == old(self)@.push(
                        new_user_row(id, item.username@, item.password_hash@, now),
                    )
                    &&& final(self).next_id() == old(self).next_id() + 1
                },
                Err(_) => {
                    &&& !user_insert_allowed(old(self)@, old(self).next_id(), item.username@)
                    &&& final(self)@ == old(self)@
                    &&& final(self).next_id() == old(self).next_id()
                },
            },
    {
        let username = item.username.to_owned();
        if self.index_of_name(&username).is_some() || self.next_id > i32::MAX as i64 {
            return Err(DatabaseError);
        }
        proof { lemma_username_index(self@, username@); }
        let id = self.next_id as i32;
        let row = User {
            user_id: id,
            username,
            password_hash: item.password_hash.to_owned(),
            created_at: Some(now),
            updated_at: Some(now),
        };
        let ghost before = self@;
        self.rows.push(row);
        self.next_id = self.next_id + 1;
        assert(self@ =~= before.push(row@));
        Ok(id)
    }

    /// Stores a new user; see [`UserRepo::insert`].
    pub fn add(&mut self, item: NewUser, now: Timestamp) -> (r: Result<(), DatabaseError>)
        requires
            old(self).wf(),
        ensures
            final(self).wf(),
            match r {
                Ok(()) => {
                    &&& user_insert_allowed(old(self)@, old(self).next_id(), item.username@)
                    &&& final(self)@ == old(self)@.push(
                        new_user_row(
                            old(self).next_id() as i32,
                            item.username@,
                            item.password_hash@,
                            now,
                        ),
                    )
                    &&& final(self).next_id() == old(self).next_id() + 1
                },
                Err(_) => {
                    &&& !user_insert_allowed(old(self)@, old(self).next_id(), item.username@)
                    &&& final(self)@ == old(self)@
                    &&& final(self).next_id() == old(self).next_id()
                },
            },
    {
        match self.insert(item, now) {
            Ok(_) => Ok(()),
            Err(e) => Err(e),
        }
    }

    /// Removes the user `id`; a missing `id` is no error.
    pub fn delete(&mut self, id: i32) -> (r: Result<(), DatabaseError>)
        requires
            old(self).wf(),
        ensures
            final(self).wf(),
            final(self).next_id() == old(self).next_id(),
            r is Ok,
            final(self)@ == user_rows_deleted(old(self)@, id),
    {
        match self.index_of_id(id) {
            Some(i) => {
                proof { lemma_user_index(self@, id); }
                let ghost before = self@;
                self.rows.remove(i);
                assert(self@ =~= before.remove(i as int));
                Ok(())
            },
            None => Ok(()),
        }
    }
}

impl Default for UserRepo {
    fn default() -> (r: UserRepo)
        ensures
            r.wf(),
            r@ == Seq::<UserView>::empty(),
            r.next_id() == 1,
    {
        UserRepo::new()
    }
}

} // verus!
