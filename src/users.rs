use vstd::prelude::*;
use crate::string_map::StringMap;

verus! {

/// Identifier of a user row.
#[derive(Clone, Copy, Debug, PartialEq, Eq, Structural)]
pub struct UserId(pub i32);

impl UserId {
    /// The numeric identifier.
    pub fn value(&self) -> (r: i32)
        ensures
            r == self.0,
    {
        self.0
    }
}

/// An identity: `email` is its natural key, `username` follows the latest login.
#[derive(Debug)]
pub struct User {
    pub id: i32,
    pub username: String,
    pub email: String,
    pub created_at: i64,
}

/// The mathematical content of a [`User`].
pub ghost struct UserView {
    pub id: i32,
    pub username: Seq<char>,
    pub email: Seq<char>,
    pub created_at: i64,
}

impl View for User {
    type V = UserView;

    open spec fn view(&self) -> UserView {
        UserView {
            id: self.id,
            username: self.username@,
            email: self.email@,
            created_at: self.created_at,
        }
    }
}

/// What the upsert step is given.
pub struct CreateParams {
    pub username: String,
    pub email: String,
    pub now: i64,
}

/// Failure to persist a row.
#[derive(Clone, Copy, Debug, PartialEq, Eq, Structural)]
pub enum StorageError {
    /// No identifier is left for a new row.
    IdsExhausted,
    /// The key of the new row is already taken.
    DuplicateKey,
}

/// The users relation after the upsert of `(username, email)` at `now`: a new
/// email gets a row numbered `fresh_id`; a known one keeps its row and takes
/// the new username.
pub open spec fn upsert(
    m: Map<Seq<char>, UserView>,
    fresh_id: i32,
    username: Seq<char>,
    email: Seq<char>,
    now: i64,
) -> Map<Seq<char>, UserView> {
    if m.contains_key(email) {
        m.insert(email, UserView { username, ..m[email] })
    } else {
        m.insert(email, UserView { id: fresh_id, username, email, created_at: now })
    }
}

/// Every row is filed under its own email.
pub open spec fn keyed_by_email(m: Map<Seq<char>, UserView>) -> bool {
    forall|k: Seq<char>| #[trigger] m.contains_key(k) ==> m[k].email == k
}

/// Users keyed by email, with identifiers handed out in increasing order.
pub struct UserTable {
    rows: StringMap<User>,
    next_id: i32,
}

impl View for UserTable {
    type V = Map<Seq<char>, UserView>;

    closed spec fn view(&self) -> Map<Seq<char>, UserView> {
        self.rows@.map_values(|u: User| u@)
    }
}

impl UserTable {
    /// The identifier the next new row will get.
    pub closed spec fn fresh_id(&self) -> i32 {
        self.next_id
    }

    /// Each row is filed under its own email, identifiers are positive,
    /// below `fresh_id` and distinct.
    pub closed spec fn wf(&self) -> bool {
        &&& self.rows.wf()
        &&& 1 <= self.next_id
        &&& forall|k: Seq<char>| #[trigger] self.rows@.contains_key(k) ==> {
            &&& self.rows@[k].email@ == k
            &&& 1 <= self.rows@[k].id < self.next_id
        }
        &&& forall|a: Seq<char>, b: Seq<char>|
            self.rows@.contains_key(a) && self.rows@.contains_key(b) && a != b
                ==> #[trigger] self.rows@[a].id != #[trigger] self.rows@[b].id
    }

    pub fn new() -> (t: Self)
        ensures
            t.wf(),
            t@ == Map::<Seq<char>, UserView>::empty(),
            t.fresh_id() == 1,
            keyed_by_email(t@),
    {
        let t = UserTable { rows: StringMap::new(), next_id: 1 };
        assert(t@ =~= Map::<Seq<char>, UserView>::empty());
        t
    }

    /// Number of rows.
    pub fn len(&self) -> (n: usize)
        requires
            self.wf(),
        ensures
            n == self@.dom().len(),
    {
        assert(self@.dom() =~= self.rows@.dom());
        self.rows.len()
    }

    /// The row filed under `email`, if any.
    pub fn get(&self, email: &String) -> (r: Option<&User>)
        requires
            self.wf(),
        ensures
            match r {
                Some(u) => self@.contains_key(email@) && u@ == self@[email@],
                None => !self@.contains_key(email@),
            },
    {
        self.rows.get(email)
    }

    /// Inserts a user, or on a known email replaces the username ("last login
    /// wins"); returns the row's identifier. Fails only when a new row is
    /// needed and no identifier is left, and then changes nothing.
    pub fn create(&mut self, p: CreateParams) -> (r: Result<UserId, StorageError>)
        requires
            old(self).wf(),
        ensures
            final(self).wf(),
            keyed_by_email(final(self)@),
            match r {
                Ok(id) => {
                    &&& final(self)@ == upsert(old(self)@, old(self).fresh_id(), p.username@, p.email@, p.now)
                    &&& final(self)@.contains_key(p.email@)
                    &&& id.0 == final(self)@[p.email@].id
                    &&& old(self)@.contains_key(p.email@) ==> final(self).fresh_id() == old(self).fresh_id()
                    &&& !old(self)@.contains_key(p.email@) ==> final(self).fresh_id() == old(self).fresh_id() + 1
                    &&& !old(self)@.contains_key(p.email@) ==> forall|k: Seq<char>|
                        #[trigger] old(self)@.contains_key(k) ==> old(self)@[k].id != id.0
                },
                Err(e) => {
                    &&& e == StorageError::IdsExhausted
                    &&& final(self)@ == old(self)@
                    &&& final(self).fresh_id() == old(self).fresh_id()
                },
            },
            r is Err <==> (!old(self)@.contains_key(p.email@) && old(self).fresh_id() == i32::MAX),
    {
        let CreateParams { username, email, now } = p;
        let ghost old_rows = self.rows@;
        let existing = self.rows.remove(&email);
        match existing {
            Some(row) => {
                let id = row.id;
                let updated = User { id: row.id, username, email: row.email, created_at: row.created_at };
                self.rows.insert(email, updated);
                assert(self.rows@ =~= old_rows.insert(p.email@, updated));
                assert(self@ =~= upsert(old(self)@, old(self).next_id, p.username@, p.email@, p.now));
                Ok(UserId(id))
            },
            None => {
                if self.next_id == i32::MAX {
                    assert(self@ =~= old(self)@);
                    return Err(StorageError::IdsExhausted);
                }
                let id = self.next_id;
                let key = email.clone();
                let row = User { id, username, email, created_at: now };
                self.rows.insert(key, row);
                self.next_id = id + 1;
                assert(self@ =~= upsert(old(self)@, old(self).next_id, p.username@, p.email@, p.now));
                Ok(UserId(id))
            },
        }
    }
}

/// Upserting one email twice, with two usernames, leaves exactly one row with
/// that email: the row of the first call, under the same identifier, now with
/// the second username.
pub proof fn lemma_upsert_twice(
    m: Map<Seq<char>, UserView>,
    fresh_first: i32,
    fresh_second: i32,
    email: Seq<char>,
    first: Seq<char>,
    second: Seq<char>,
    first_at: i64,
    second_at: i64,
)
    requires
        m.dom().finite(),
        keyed_by_email(m),
    ensures
        ({
            let once = upsert(m, fresh_first, first, email, first_at);
            let twice = upsert(once, fresh_second, second, email, second_at);
            &&& twice.contains_key(email)
            &&& twice[email].email == email
            &&& twice[email].username == second
            &&& twice[email].id == once[email].id
            &&& forall|k: Seq<char>| #[trigger] twice.contains_key(k) && twice[k].email == email ==> k == email
            &&& twice.dom() == m.dom().insert(email)
            &&& twice.dom().len() == m.dom().len() + (if m.contains_key(email) { 0int } else { 1int })
        }),
{
    let once = upsert(m, fresh_first, first, email, first_at);
    let twice = upsert(once, fresh_second, second, email, second_at);
    assert(twice.dom() =~= m.dom().insert(email));
    assert forall|k: Seq<char>| #[trigger] twice.contains_key(k) && twice[k].email == email implies k == email by {
        if k != email {
            assert(m.contains_key(k));
        }
    }
}

} // verus!
