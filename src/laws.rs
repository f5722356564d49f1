//! Properties that relate several operations of the store.

use vstd::prelude::*;
use crate::db::{
    counted_once, has_email, has_key, has_short, link_added, link_at, resolves_to, user_at,
    Session, Store,
};

verus! {

/// A link added under a token that was free is the only link with that
/// token, and it leads to the URL it was added with, with no hits yet.
pub proof fn law_added_link_resolves(before: Store, after: Store, short: Seq<char>, original: Seq<char>)
    requires
        before.wf(),
        after.wf(),
        !has_short(before.links(), short),
        link_added(before, after, short, original),
    ensures
        has_short(after.links(), short),
        forall|i: int|
            link_at(after.links(), short, i) ==> i == before.links().len() && after.links()[i].original@
                == original && after.links()[i].hit_count == 0,
{
    let n = before.links().len() as int;
    assert(link_at(after.links(), short, n));
    assert forall|i: int| link_at(after.links(), short, i) implies i == n by {
        if i < n {
            assert(after.links()[i] == after.links().take(n)[i]);
            assert(link_at(before.links(), short, i));
        }
    }
}

/// One recorded visit raises the count of the visited link by exactly one
/// and leaves every other link's count as it was.
pub proof fn law_visit_counts_once(before: Store, after: Store, link_id: u64, i: int)
    requires
        counted_once(before.links(), after.links(), link_id),
        0 <= i < before.links().len(),
    ensures
        after.links()[i].short == before.links()[i].short,
        before.links()[i].id == link_id ==> after.links()[i].hit_count == before.links()[i].hit_count
            + 1,
        before.links()[i].id != link_id ==> after.links()[i].hit_count
            == before.links()[i].hit_count,
{
}

/// Once an account with `email` exists, the email is taken, so registering it
/// again is refused.
pub proof fn law_registered_email_taken(before: Store, after: Store, email: Seq<char>)
    requires
        after.users().len() == before.users().len() + 1,
        after.users().last().email@ == email,
    ensures
        has_email(after.users(), email),
{
    assert(user_at(after.users(), email, after.users().len() - 1));
}

/// A session just opened with a fresh token resolves, before it expires, to
/// the user it was opened for, and to no one else.
pub proof fn law_session_resolves_to_its_user(
    before: Store,
    after: Store,
    session: Session,
    now: i64,
)
    requires
        before.wf(),
        after.wf(),
        !has_key(before.sessions(), session.key@),
        after.sessions() == before.sessions().push(session),
        now < session.expires,
    ensures
        resolves_to(after.sessions(), session.key@, now) == Some(session.user),
{
    let s = after.sessions();
    let n = before.sessions().len() as int;
    assert(crate::db::session_at(s, session.key@, n) && now < s[n].expires);
    let i = choose|i: int| crate::db::session_at(s, session.key@, i) && now < #[trigger] s[i].expires;
    assert(s[i].key@ == s[n].key@);
}

/// A token whose session has ended resolves to no one, at any time.
pub proof fn law_revoked_session_resolves_to_none(store: Store, key: Seq<char>, now: i64)
    requires
        !has_key(store.sessions(), key),
    ensures
        resolves_to(store.sessions(), key, now) is None,
{
}

} // verus!
