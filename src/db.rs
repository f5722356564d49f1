//! The store: links, hits, users and sessions, kept in insertion order.

use vstd::prelude::*;
use crate::users::{bcrypt_verdict, hash_password};

verus! {

/// Why a store operation did not happen.
#[derive(Clone, Copy, Debug, PartialEq, Eq, Structural)]
pub enum StoreError {
    /// The email is already registered.
    Duplicate,
    /// No record matches.
    NotFound,
    /// The password could not be hashed.
    HashFailed,
    /// No id is left to hand out.
    IdsExhausted,
}

impl StoreError {
    pub open spec fn spec_message(&self) -> Seq<char> {
        match *self {
            StoreError::Duplicate => "This user already exists!"@,
            StoreError::NotFound => "Could not retrieve user details!"@,
            StoreError::HashFailed => "Could not store the password!"@,
            StoreError::IdsExhausted => "The store is full!"@,
        }
    }

    /// A message for the person who asked.
    pub fn message(&self) -> (r: &'static str)
        ensures
            r@ == self.spec_message(),
    {
        match self {
            StoreError::Duplicate => "This user already exists!",
            StoreError::NotFound => "Could not retrieve user details!",
            StoreError::HashFailed => "Could not store the password!",
            StoreError::IdsExhausted => "The store is full!",
        }
    }
}

/// A short token and the URL it stands for, with the number of recorded hits.
pub struct Link {
    pub id: u64,
    pub short: String,
    pub original: String,
    pub hit_count: u64,
}

/// One recorded visit of a link.
pub struct Hit {
    pub id: u64,
    pub link: u64,
    pub time: i64,
    pub user_agent: Option<String>,
}

/// An account: its email and the hash of its password.
pub struct User {
    pub id: u64,
    pub email: String,
    pub hash: String,
}

/// A login session: the token handed to the client and the user it stands for.
pub struct Session {
    pub user: u64,
    pub key: String,
    pub expires: i64,
}

impl Link {
    pub fn duplicate(&self) -> (r: Link)
        ensures
            same_link(r, *self),
    {
        Link {
            id: self.id,
            short: self.short.clone(),
            original: self.original.clone(),
            hit_count: self.hit_count,
        }
    }
}

impl User {
    pub fn duplicate(&self) -> (r: User)
        ensures
            same_user(r, *self),
    {
        User { id: self.id, email: self.email.clone(), hash: self.hash.clone() }
    }
}

/// Two links with the same identity, token, target and count.
pub open spec fn same_link(a: Link, b: Link) -> bool {
    &&& a.id == b.id
    &&& a.short@ == b.short@
    &&& a.original@ == b.original@
    &&& a.hit_count == b.hit_count
}

/// Two user records with the same identity, email and hash.
pub open spec fn same_user(a: User, b: User) -> bool {
    &&& a.id == b.id
    &&& a.email@ == b.email@
    &&& a.hash@ == b.hash@
}

/// The number of hits in `hits` that refer to the link with id `link`.
pub open spec fn count_hits(hits: Seq<Hit>, link: u64) -> nat
    decreases hits.len(),
{
    if hits.len() == 0 {
        0
    } else {
        count_hits(hits.drop_last(), link) + if hits.last().link == link {
            1nat
        } else {
            0nat
        }
    }
}

/// `links[i]` is the link with token `short`.
pub open spec fn link_at(links: Seq<Link>, short: Seq<char>, i: int) -> bool {
    0 <= i < links.len() && links[i].short@ == short
}

pub open spec fn has_short(links: Seq<Link>, short: Seq<char>) -> bool {
    exists|i: int| link_at(links, short, i)
}

pub open spec fn has_link_id(links: Seq<Link>, id: u64) -> bool {
    exists|i: int| 0 <= i < links.len() && links[i].id == id
}

/// `users[i]` is the user with email `email`.
pub open spec fn user_at(users: Seq<User>, email: Seq<char>, i: int) -> bool {
    0 <= i < users.len() && users[i].email@ == email
}

pub open spec fn has_email(users: Seq<User>, email: Seq<char>) -> bool {
    exists|i: int| user_at(users, email, i)
}

pub open spec fn has_user_id(users: Seq<User>, id: u64) -> bool {
    exists|i: int| 0 <= i < users.len() && users[i].id == id
}

/// `sessions[i]` is the session with token `key`.
pub open spec fn session_at(sessions: Seq<Session>, key: Seq<char>, i: int) -> bool {
    0 <= i < sessions.len() && sessions[i].key@ == key
}

pub open spec fn has_key(sessions: Seq<Session>, key: Seq<char>) -> bool {
    exists|i: int| session_at(sessions, key, i)
}

pub open spec fn unique_shorts(links: Seq<Link>) -> bool {
    forall|i: int, j: int|
        0 <= i < links.len() && 0 <= j < links.len() && #[trigger] links[i].short@
            == #[trigger] links[j].short@ ==> i == j
}

pub open spec fn unique_emails(users: Seq<User>) -> bool {
    forall|i: int, j: int|
        0 <= i < users.len() && 0 <= j < users.len() && #[trigger] users[i].email@
            == #[trigger] users[j].email@ ==> i == j
}

pub open spec fn unique_keys(sessions: Seq<Session>) -> bool {
    forall|i: int, j: int|
        0 <= i < sessions.len() && 0 <= j < sessions.len() && #[trigger] sessions[i].key@
            == #[trigger] sessions[j].key@ ==> i == j
}

proof fn lemma_count_absent(hits: Seq<Hit>, link: u64)
    requires
        forall|i: int| 0 <= i < hits.len() ==> hits[i].link != link,
    ensures
        count_hits(hits, link) == 0,
    decreases hits.len(),
{
    if hits.len() > 0 {
        lemma_count_absent(hits.drop_last(), link);
    }
}

proof fn lemma_count_bounded(hits: Seq<Hit>, link: u64)
    ensures
        count_hits(hits, link) <= hits.len(),
    decreases hits.len(),
{
    if hits.len() > 0 {
        lemma_count_bounded(hits.drop_last(), link);
    }
}

proof fn lemma_count_push(hits: Seq<Hit>, h: Hit, link: u64)
    ensures
        count_hits(hits.push(h), link) == count_hits(hits, link) + if h.link == link {
            1nat
        } else {
            0nat
        },
{
    assert(hits.push(h).drop_last() =~= hits);
}

/// The whole store. Ids are handed out in increasing order and never reused.
pub struct Store {
    links: Vec<Link>,
    hits: Vec<Hit>,
    users: Vec<User>,
    sessions: Vec<Session>,
    next_link_id: u64,
    next_hit_id: u64,
    next_user_id: u64,
    hash_cost: u32,
}

impl Store {
    pub closed spec fn links(&self) -> Seq<Link> {
        self.links@
    }

    pub closed spec fn hits(&self) -> Seq<Hit> {
        self.hits@
    }

    pub closed spec fn users(&self) -> Seq<User> {
        self.users@
    }

    pub closed spec fn sessions(&self) -> Seq<Session> {
        self.sessions@
    }

    pub closed spec fn next_link_id(&self) -> u64 {
        self.next_link_id
    }

    pub closed spec fn next_hit_id(&self) -> u64 {
        self.next_hit_id
    }

    pub closed spec fn next_user_id(&self) -> u64 {
        self.next_user_id
    }

    /// The bcrypt work factor used for new password hashes.
    pub closed spec fn hash_cost(&self) -> u32 {
        self.hash_cost
    }

    /// Tokens and emails are unique, ids increase in insertion order, every
    /// hit refers to a link id that was handed out, and each link's count is
    /// the number of hits that refer to it.
    pub open spec fn wf(&self) -> bool {
        let links = self.links();
        let hits = self.hits();
        let users = self.users();
        &&& unique_shorts(links)
        &&& unique_emails(users)
        &&& unique_keys(self.sessions())
        &&& forall|i: int, j: int| 0 <= i < j < links.len() ==> links[i].id < links[j].id
        &&& forall|i: int| 0 <= i < links.len() ==> links[i].id < self.next_link_id()
        &&& forall|i: int|
            0 <= i < links.len() ==> #[trigger] links[i].hit_count == count_hits(hits, links[i].id)
        &&& forall|i: int, j: int| 0 <= i < j < hits.len() ==> hits[i].id < hits[j].id
        &&& forall|i: int| 0 <= i < hits.len() ==> hits[i].id < self.next_hit_id()
        &&& forall|i: int| 0 <= i < hits.len() ==> hits[i].link < self.next_link_id()
        &&& hits.len() <= self.next_hit_id()
        &&& forall|i: int, j: int| 0 <= i < j < users.len() ==> users[i].id < users[j].id
        &&& forall|i: int| 0 <= i < users.len() ==> users[i].id < self.next_user_id()
        &&& 4 <= self.hash_cost() <= 31
    }
}

/// bcrypt's default work factor.
pub const DEFAULT_HASH_COST: u32 = 12;

impl Store {
    /// An empty store whose password hashes use work factor `cost`.
    pub fn with_cost(cost: u32) -> (r: Store)
        requires
            4 <= cost <= 31,
        ensures
            r.wf(),
            r.links().len() == 0,
            r.hits().len() == 0,
            r.users().len() == 0,
            r.sessions().len() == 0,
            r.next_link_id() == 1,
            r.next_hit_id() == 1,
            r.next_user_id() == 1,
            r.hash_cost() == cost,
    {
        Store {
            links: Vec::new(),
            hits: Vec::new(),
            users: Vec::new(),
            sessions: Vec::new(),
            next_link_id: 1,
            next_hit_id: 1,
            next_user_id: 1,
            hash_cost: cost,
        }
    }

    /// The index of the link with token `short`, if there is one.
    fn find_short(&self, short: &str) -> (r: Option<usize>)
        requires
            self.wf(),
        ensures
            r matches Some(i) ==> link_at(self.links(), short@, i as int),
            r is None ==> !has_short(self.links(), short@),
    {
        let wanted = short.to_owned();
        let mut i: usize = 0;
        while i < self.links.len()
            invariant
                i <= self.links@.len(),
                wanted@ == short@,
                forall|k: int| 0 <= k < i ==> self.links@[k].short@ != short@,
            decreases self.links@.len() - i,
        {
            if self.links[i].short.eq(&wanted) {
                return Some(i);
            }
            i = i + 1;
        }
        None
    }
}

/// The next link and hit ids and the hashing work factor are as they were.
pub open spec fn ids_kept(before: Store, after: Store) -> bool {
    &&& after.next_link_id() == before.next_link_id()
    &&& after.next_hit_id() == before.next_hit_id()
    &&& after.hash_cost() == before.hash_cost()
}

/// `after` is `before` with one more link, from `short` to `original`, at
/// the end, under the next link id and with no hits; nothing else changed.
pub open spec fn link_added(before: Store, after: Store, short: Seq<char>, original: Seq<char>) -> bool {
    let old_links = before.links();
    let links = after.links();
    &&& links.len() == old_links.len() + 1
    &&& links.take(old_links.len() as int) == old_links
    &&& links.last().id == before.next_link_id()
    &&& links.last().short@ == short
    &&& links.last().original@ == original
    &&& links.last().hit_count == 0
    &&& after.next_link_id() == before.next_link_id() + 1
    &&& after.next_hit_id() == before.next_hit_id()
    &&& after.next_user_id() == before.next_user_id()
    &&& after.hits() == before.hits()
    &&& after.users() == before.users()
    &&& after.sessions() == before.sessions()
    &&& after.hash_cost() == before.hash_cost()
}

/// Adds a link from `short` to `original`. Fails, and leaves the store as it
/// was, when `short` is already taken or no link id is left.
pub fn create_link(store: &mut Store, short: &str, original: &str) -> (r: bool)
    requires
        old(store).wf(),
    ensures
        final(store).wf(),
        r == (!has_short(old(store).links(), short@) && old(store).next_link_id() < u64::MAX),
        !r ==> *final(store) == *old(store),
        r ==> link_added(*old(store), *final(store), short@, original@),
{
    if store.find_short(short).is_some() {
        return false;
    }
    if store.next_link_id == u64::MAX {
        return false;
    }
    let id = store.next_link_id;
    proof {
        lemma_count_absent(store.hits@, id);
    }
    let link = Link { id, short: short.to_owned(), original: original.to_owned(), hit_count: 0 };
    store.links.push(link);
    store.next_link_id = id + 1;
    proof {
        let before = old(store).links@;
        let after = store.links@;
        assert(after.take(before.len() as int) =~= before);
        assert forall|a: int, b: int|
            0 <= a < after.len() && 0 <= b < after.len() && #[trigger] after[a].short@
                == #[trigger] after[b].short@ implies a == b by {
            if a < before.len() && b == before.len() {
                assert(link_at(before, short@, a));
            }
            if b < before.len() && a == before.len() {
                assert(link_at(before, short@, b));
            }
        }
        assert forall|a: int| 0 <= a < after.len() implies #[trigger] after[a].hit_count
            == count_hits(store.hits@, after[a].id) by {
            if a < before.len() {
                assert(after[a] == before[a]);
            }
        }
    }
    true
}

/// The link with token `short`, with its hit count.
pub fn get_link(store: &Store, short: &str) -> (r: Result<Link, ()>)
    requires
        store.wf(),
    ensures
        r is Err <==> !has_short(store.links(), short@),
        r matches Ok(l) ==> exists|i: int|
            link_at(store.links(), short@, i) && same_link(l, #[trigger] store.links()[i]),
{
    match store.find_short(short) {
        Some(i) => Ok(store.links[i].duplicate()),
        None => Err(()),
    }
}

/// Removes the link with token `short` and reports how many links went: one
/// or none. Hits are kept.
pub fn delete_link(store: &mut Store, short: &str) -> (r: usize)
    requires
        old(store).wf(),
    ensures
        final(store).wf(),
        r == if has_short(old(store).links(), short@) { 1usize } else { 0usize },
        r == 0 ==> *final(store) == *old(store),
        r == 1 ==> exists|i: int|
            link_at(old(store).links(), short@, i) && final(store).links()
                == #[trigger] old(store).links().remove(i),
        final(store).hits() == old(store).hits(),
        final(store).users() == old(store).users(),
        final(store).sessions() == old(store).sessions(),
        final(store).next_link_id() == old(store).next_link_id(),
        final(store).next_hit_id() == old(store).next_hit_id(),
        final(store).next_user_id() == old(store).next_user_id(),
        final(store).hash_cost() == old(store).hash_cost(),
{
    match store.find_short(short) {
        Some(i) => {
            let ghost before = store.links@;
            let _gone = store.links.remove(i);
            proof {
                let after = store.links@;
                assert forall|a: int, b: int|
                    0 <= a < after.len() && 0 <= b < after.len() && #[trigger] after[a].short@
                        == #[trigger] after[b].short@ implies a == b by {
                    let a0 = if a < i { a } else { a + 1 };
                    let b0 = if b < i { b } else { b + 1 };
                    assert(after[a] == before[a0]);
                    assert(after[b] == before[b0]);
                }
                assert forall|a: int, b: int| 0 <= a < b < after.len() implies after[a].id
                    < after[b].id by {
                    let a0 = if a < i { a } else { a + 1 };
                    let b0 = if b < i { b } else { b + 1 };
                    assert(after[a] == before[a0]);
                    assert(after[b] == before[b0]);
                }
                assert forall|a: int| 0 <= a < after.len() implies #[trigger] after[a].hit_count
                    == count_hits(store.hits@, after[a].id) && after[a].id < store.next_link_id by {
                    let a0 = if a < i { a } else { a + 1 };
                    assert(after[a] == before[a0]);
                }
            }
            1
        },
        None => 0,
    }
}

/// `after` is `before` with one more hit counted for the link with id `link_id`.
pub open spec fn counted_once(before: Seq<Link>, after: Seq<Link>, link_id: u64) -> bool {
    &&& after.len() == before.len()
    &&& forall|i: int|
        0 <= i < before.len() ==> {
            let a = #[trigger] after[i];
            let b = before[i];
            &&& a.id == b.id
            &&& a.short == b.short
            &&& a.original == b.original
            &&& a.hit_count == b.hit_count + if b.id == link_id {
                1nat
            } else {
                0nat
            }
        }
}

/// Records a visit of the link with id `link_id` at time `now` (seconds since
/// the Unix epoch), made by a client that sent `user_agent`. Fails, and leaves
/// the store as it was, when no such link exists or no hit id is left.
pub fn write_hit(store: &mut Store, link_id: u64, user_agent: Option<String>, now: i64) -> (r: bool)
    requires
        old(store).wf(),
    ensures
        final(store).wf(),
        r == (has_link_id(old(store).links(), link_id) && old(store).next_hit_id() < u64::MAX),
        !r ==> *final(store) == *old(store),
        r ==> final(store).hits() == old(store).hits().push(
            (Hit { id: old(store).next_hit_id(), link: link_id, time: now, user_agent })),
        r ==> final(store).links().len() == old(store).links().len(),
        r ==> counted_once(old(store).links(), final(store).links(), link_id),
        final(store).users() == old(store).users(),
        final(store).sessions() == old(store).sessions(),
        final(store).next_link_id() == old(store).next_link_id(),
        final(store).next_user_id() == old(store).next_user_id(),
        final(store).hash_cost() == old(store).hash_cost(),
{
    let j = match store.find_link_id(link_id) {
        Some(j) => j,
        None => return false,
    };
    if store.next_hit_id == u64::MAX {
        return false;
    }
    let ghost before = store.links@;
    let ghost old_hits = store.hits@;
    let id = store.next_hit_id;
    proof {
        lemma_count_bounded(old_hits, link_id);
    }
    let hit = Hit { id, link: link_id, time: now, user_agent };
    store.hits.push(hit);
    store.next_hit_id = id + 1;
    let count = store.links[j].hit_count;
    assert(count == count_hits(old_hits, link_id)) by {
        assert(before[j as int].hit_count == count_hits(old_hits, before[j as int].id));
    }
    store.links[j].hit_count = count + 1;
    proof {
        let after = store.links@;
        assert forall|a: int| 0 <= a < after.len() implies #[trigger] after[a].hit_count
            == count_hits(store.hits@, after[a].id) by {
            lemma_count_push(old_hits, hit, after[a].id);
            if a != j {
                assert(after[a] == before[a]);
                if a < j {
                    assert(before[a].id < before[j as int].id);
                } else {
                    assert(before[j as int].id < before[a].id);
                }
            }
        }
        assert forall|a: int, b: int|
            0 <= a < after.len() && 0 <= b < after.len() && #[trigger] after[a].short@
                == #[trigger] after[b].short@ implies a == b by {
            assert(after[a].short == before[a].short);
            assert(after[b].short == before[b].short);
        }
        assert forall|a: int, b: int| 0 <= a < b < after.len() implies after[a].id
            < after[b].id by {
            assert(after[a].id == before[a].id);
            assert(after[b].id == before[b].id);
        }
    }
    true
}

/// Every link in insertion order, each with its hit count.
pub fn get_all_links(store: &Store) -> (r: Vec<Link>)
    requires
        store.wf(),
    ensures
        r@.len() == store.links().len(),
        forall|i: int| 0 <= i < r@.len() ==> same_link(#[trigger] r@[i], store.links()[i]),
{
    let mut out: Vec<Link> = Vec::new();
    let mut i: usize = 0;
    while i < store.links.len()
        invariant
            i <= store.links@.len(),
            out@.len() == i,
            forall|k: int| 0 <= k < i ==> same_link(#[trigger] out@[k], store.links@[k]),
        decreases store.links@.len() - i,
    {
        out.push(store.links[i].duplicate());
        i = i + 1;
    }
    out
}

/// The number of hits recorded over all links.
pub fn get_total_hit_count(store: &Store) -> (r: u64)
    requires
        store.wf(),
    ensures
        r == store.hits().len(),
{
    store.hits.len() as u64
}

impl Store {
    /// The index of the link with id `id`, if there is one.
    fn find_link_id(&self, id: u64) -> (r: Option<usize>)
        requires
            self.wf(),
        ensures
            r matches Some(i) ==> i < self.links().len() && self.links()[i as int].id == id,
            r is None ==> !has_link_id(self.links(), id),
    {
        let mut i: usize = 0;
        while i < self.links.len()
            invariant
                i <= self.links@.len(),
                forall|k: int| 0 <= k < i ==> self.links@[k].id != id,
            decreases self.links@.len() - i,
        {
            if self.links[i].id == id {
                return Some(i);
            }
            i = i + 1;
        }
        None
    }
}

impl Store {
    /// The index of the user with email `email`, if there is one.
    fn find_email(&self, email: &String) -> (r: Option<usize>)
        requires
            self.wf(),
        ensures
            r matches Some(i) ==> user_at(self.users(), email@, i as int),
            r is None ==> !has_email(self.users(), email@),
    {
        let mut i: usize = 0;
        while i < self.users.len()
            invariant
                i <= self.users@.len(),
                forall|k: int| 0 <= k < i ==> self.users@[k].email@ != email@,
            decreases self.users@.len() - i,
        {
            if self.users[i].email.eq(email) {
                return Some(i);
            }
            i = i + 1;
        }
        None
    }

    /// The index of the user with id `id`, if there is one.
    fn find_user_id(&self, id: u64) -> (r: Option<usize>)
        requires
            self.wf(),
        ensures
            r matches Some(i) ==> i < self.users().len() && self.users()[i as int].id == id,
            r is None ==> !has_user_id(self.users(), id),
    {
        let mut i: usize = 0;
        while i < self.users.len()
            invariant
                i <= self.users@.len(),
                forall|k: int| 0 <= k < i ==> self.users@[k].id != id,
            decreases self.users@.len() - i,
        {
            if self.users[i].id == id {
                return Some(i);
            }
            i = i + 1;
        }
        None
    }

    /// The index of the session with token `key`, if there is one.
    fn find_key(&self, key: &str) -> (r: Option<usize>)
        requires
            self.wf(),
        ensures
            r matches Some(i) ==> session_at(self.sessions(), key@, i as int),
            r is None ==> !has_key(self.sessions(), key@),
    {
        let wanted = key.to_owned();
        let mut i: usize = 0;
        while i < self.sessions.len()
            invariant
                i <= self.sessions@.len(),
                wanted@ == key@,
                forall|k: int| 0 <= k < i ==> self.sessions@[k].key@ != key@,
            decreases self.sessions@.len() - i,
        {
            if self.sessions[i].key.eq(&wanted) {
                return Some(i);
            }
            i = i + 1;
        }
        None
    }
}

/// Adds a user with `email` and the already computed password `hash`, and
/// returns the new record. Fails, and leaves the store as it was, when the
/// email is taken or no user id is left.
pub fn insert_user(store: &mut Store, email: &String, hash: String) -> (r: Result<User, StoreError>)
    requires
        old(store).wf(),
    ensures
        final(store).wf(),
        has_email(old(store).users(), email@) ==> r == Err::<User, StoreError>(StoreError::Duplicate),
        !has_email(old(store).users(), email@) && old(store).next_user_id() == u64::MAX ==> r
            == Err::<User, StoreError>(StoreError::IdsExhausted),
        !has_email(old(store).users(), email@) && old(store).next_user_id() < u64::MAX ==> r is Ok,
        r is Err ==> *final(store) == *old(store),
        r matches Ok(u) ==> {
            &&& u.id == old(store).next_user_id()
            &&& u.email@ == email@
            &&& u.hash@ == hash@
            &&& final(store).users().len() == old(store).users().len() + 1
            &&& final(store).users().take(old(store).users().len() as int) == old(store).users()
            &&& same_user(final(store).users().last(), u)
            &&& final(store).next_user_id() == old(store).next_user_id() + 1
            &&& final(store).links() == old(store).links()
            &&& final(store).hits() == old(store).hits()
            &&& final(store).sessions() == old(store).sessions()
            &&& ids_kept(*old(store), *final(store))
        },
{
    if store.find_email(email).is_some() {
        return Err(StoreError::Duplicate);
    }
    if store.next_user_id == u64::MAX {
        return Err(StoreError::IdsExhausted);
    }
    let id = store.next_user_id;
    let user = User { id, email: email.clone(), hash };
    let profile = user.duplicate();
    store.users.push(user);
    store.next_user_id = id + 1;
    proof {
        let before = old(store).users@;
        let after = store.users@;
        assert(after.take(before.len() as int) =~= before);
        assert forall|a: int, b: int|
            0 <= a < after.len() && 0 <= b < after.len() && #[trigger] after[a].email@
                == #[trigger] after[b].email@ implies a == b by {
            if a < before.len() && b == before.len() {
                assert(user_at(before, email@, a));
            }
            if b < before.len() && a == before.len() {
                assert(user_at(before, email@, b));
            }
        }
    }
    Ok(profile)
}

/// Registers `email` with a bcrypt hash of `password` and returns the new
/// record. A taken email is refused before any hashing, and the store changes
/// only on success.
pub fn create_user(store: &mut Store, email: &String, password: &String) -> (r: Result<User, StoreError>)
    requires
        old(store).wf(),
    ensures
        final(store).wf(),
        ids_kept(*old(store), *final(store)),
        has_email(old(store).users(), email@) <==> r == Err::<User, StoreError>(StoreError::Duplicate),
        !has_email(old(store).users(), email@) && old(store).next_user_id() == u64::MAX <==> r
            == Err::<User, StoreError>(StoreError::IdsExhausted),
        !has_email(old(store).users(), email@) && old(store).next_user_id() < u64::MAX ==> (r is Ok
            || r == Err::<User, StoreError>(StoreError::HashFailed)),
        r is Err ==> *final(store) == *old(store),
        r matches Ok(u) ==> {
            &&& !has_email(old(store).users(), email@)
            &&& u.id == old(store).next_user_id()
            &&& u.email@ == email@
            &&& bcrypt_verdict(password@, u.hash@) == Some(true)
            &&& final(store).users().len() == old(store).users().len() + 1
            &&& final(store).users().take(old(store).users().len() as int) == old(store).users()
            &&& same_user(final(store).users().last(), u)
            &&& final(store).next_user_id() == old(store).next_user_id() + 1
            &&& final(store).links() == old(store).links()
            &&& final(store).hits() == old(store).hits()
            &&& final(store).sessions() == old(store).sessions()
        },
{
    if store.find_email(email).is_some() {
        return Err(StoreError::Duplicate);
    }
    if store.next_user_id == u64::MAX {
        return Err(StoreError::IdsExhausted);
    }
    match hash_password(password.as_str(), store.hash_cost) {
        Some(hash) => insert_user(store, email, hash),
        None => Err(StoreError::HashFailed),
    }
}

/// The user with id `user_id`.
pub fn get_user_profile_by_id(store: &Store, user_id: u64) -> (r: Result<User, StoreError>)
    requires
        store.wf(),
    ensures
        r is Err <==> !has_user_id(store.users(), user_id),
        r is Err ==> r == Err::<User, StoreError>(StoreError::NotFound),
        r matches Ok(u) ==> exists|i: int|
            0 <= i < store.users().len() && store.users()[i].id == user_id && same_user(
                u,
                #[trigger] store.users()[i],
            ),
{
    match store.find_user_id(user_id) {
        Some(i) => Ok(store.users[i].duplicate()),
        None => Err(StoreError::NotFound),
    }
}

/// The user registered with `email`.
pub fn get_user_profile(store: &Store, email: &String) -> (r: Result<User, StoreError>)
    requires
        store.wf(),
    ensures
        r is Err <==> !has_email(store.users(), email@),
        r is Err ==> r == Err::<User, StoreError>(StoreError::NotFound),
        r matches Ok(u) ==> exists|i: int|
            user_at(store.users(), email@, i) && same_user(u, #[trigger] store.users()[i]),
{
    match store.find_email(email) {
        Some(i) => Ok(store.users[i].duplicate()),
        None => Err(StoreError::NotFound),
    }
}

/// The user that the session with token `key` stands for at time `now`, if
/// that session exists and has not expired.
pub open spec fn resolves_to(sessions: Seq<Session>, key: Seq<char>, now: i64) -> Option<u64> {
    if exists|i: int| session_at(sessions, key, i) && now < #[trigger] sessions[i].expires {
        let i = choose|i: int| session_at(sessions, key, i) && now < #[trigger] sessions[i].expires;
        Some(sessions[i].user)
    } else {
        None
    }
}

/// Opens a session with token `key` for the user `user`, valid before time
/// `expires`. Fails, and leaves the store as it was, when the token is already
/// in use or no such user exists.
pub fn issue_session(store: &mut Store, user: u64, key: String, expires: i64) -> (r: bool)
    requires
        old(store).wf(),
    ensures
        final(store).wf(),
        r == (!has_key(old(store).sessions(), key@) && has_user_id(old(store).users(), user)),
        !r ==> *final(store) == *old(store),
        r ==> final(store).sessions() == old(store).sessions().push((Session { user, key, expires })),
        final(store).links() == old(store).links(),
        final(store).hits() == old(store).hits(),
        final(store).users() == old(store).users(),
        final(store).next_user_id() == old(store).next_user_id(),
        ids_kept(*old(store), *final(store)),
{
    if store.find_key(key.as_str()).is_some() {
        return false;
    }
    if store.find_user_id(user).is_none() {
        return false;
    }
    let ghost before = store.sessions@;
    let ghost k = key@;
    store.sessions.push(Session { user, key, expires });
    proof {
        let after = store.sessions@;
        assert forall|a: int, b: int|
            0 <= a < after.len() && 0 <= b < after.len() && #[trigger] after[a].key@
                == #[trigger] after[b].key@ implies a == b by {
            if a < before.len() && b == before.len() {
                assert(session_at(before, k, a));
            }
            if b < before.len() && a == before.len() {
                assert(session_at(before, k, b));
            }
        }
    }
    true
}

/// The user that the session token `key` stands for at time `now`.
pub fn resolve_session(store: &Store, key: &str, now: i64) -> (r: Option<u64>)
    requires
        store.wf(),
    ensures
        r == resolves_to(store.sessions(), key@, now),
{
    match store.find_key(key) {
        Some(i) => {
            if now < store.sessions[i].expires {
                Some(store.sessions[i].user)
            } else {
                None
            }
        },
        None => None,
    }
}

/// Ends the session with token `key`; reports whether there was one.
pub fn revoke_session(store: &mut Store, key: &str) -> (r: bool)
    requires
        old(store).wf(),
    ensures
        final(store).wf(),
        r == has_key(old(store).sessions(), key@),
        !has_key(final(store).sessions(), key@),
        !r ==> *final(store) == *old(store),
        r ==> exists|i: int|
            session_at(old(store).sessions(), key@, i) && final(store).sessions()
                == #[trigger] old(store).sessions().remove(i),
        final(store).links() == old(store).links(),
        final(store).hits() == old(store).hits(),
        final(store).users() == old(store).users(),
        final(store).next_user_id() == old(store).next_user_id(),
        ids_kept(*old(store), *final(store)),
{
    match store.find_key(key) {
        Some(i) => {
            let ghost before = store.sessions@;
            let _gone = store.sessions.remove(i);
            proof {
                let after = store.sessions@;
                assert forall|a: int, b: int|
                    0 <= a < after.len() && 0 <= b < after.len() && #[trigger] after[a].key@
                        == #[trigger] after[b].key@ implies a == b by {
                    let a0 = if a < i { a } else { a + 1 };
                    let b0 = if b < i { b } else { b + 1 };
                    assert(after[a] == before[a0]);
                    assert(after[b] == before[b0]);
                }
                assert forall|a: int| 0 <= a < after.len() implies !session_at(after, key@, a) by {
                    let a0 = if a < i { a } else { a + 1 };
                    assert(after[a] == before[a0]);
                    assert(before[a0].key@ == before[i as int].key@ ==> a0 == i);
                }
            }
            true
        },
        None => false,
    }
}

/// Opens an empty store with bcrypt's default work factor.
pub fn create_db() -> (r: Store)
    ensures
        r.wf(),
        r.links().len() == 0,
        r.hits().len() == 0,
        r.users().len() == 0,
        r.sessions().len() == 0,
        r.next_link_id() == 1,
        r.next_hit_id() == 1,
        r.next_user_id() == 1,
        r.hash_cost() == DEFAULT_HASH_COST,
{
    Store::with_cost(DEFAULT_HASH_COST)
}

} // verus!
