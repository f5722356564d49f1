//! The request handlers: what each route reads, changes and answers, apart
//! from the transport and the page rendering.

use vstd::prelude::*;
use crate::agent::UserAgent;
use crate::db::{
    counted_once, ids_kept, link_added, create_link, create_user, delete_link, get_all_links, get_link,
    get_total_hit_count, get_user_profile, get_user_profile_by_id, has_email, has_key,
    has_short, has_user_id, issue_session, link_at, revoke_session, same_link,
    same_user, user_at, write_hit, Hit, Link, Session, Store, StoreError, User,
};
use crate::users::{bcrypt_verdict, validate_login, UserID};

verus! {

/// The fields of the form that adds a link.
pub struct LinkFormSubmission {
    pub url: String,
    pub short: String,
}

/// The fields of the form that opens an account.
pub struct CreateAccountFormSubmission {
    pub email: String,
    pub password: String,
    pub invite: String,
}

/// The fields of the login form.
pub struct LoginFormSubmission {
    pub email: String,
    pub password: String,
}

/// Where a handler sends the client next.
pub enum Target {
    /// The index page.
    Home,
    /// The page that says a token is unknown.
    NotFound,
    /// The target of a link.
    Url(String),
}

#[derive(Clone, Copy, Debug, PartialEq, Eq, Structural)]
pub enum FlashKind {
    Success,
    Error,
}

/// The one-off messages shown on the next page.
#[derive(Clone, Copy, Debug, PartialEq, Eq, Structural)]
pub enum Message {
    Deleted,
    LoginRequired,
    LinkCreated,
    LinkRefused,
    InvalidLogin,
    SessionRefused,
    NoInvite,
    BadInvite,
    AccountCreated,
    AccountRefused(StoreError),
    LoggedOut,
}

impl Message {
    pub open spec fn spec_text(&self) -> Seq<char> {
        match *self {
            Message::Deleted => "Deleted successfully!"@,
            Message::LoginRequired => "Please log in first"@,
            Message::LinkCreated => "Link created"@,
            Message::LinkRefused => "That short link is already taken"@,
            Message::InvalidLogin => "Invalid username or password"@,
            Message::SessionRefused => "Could not start a session"@,
            Message::NoInvite => "no invite set!"@,
            Message::BadInvite => "invalid invite code"@,
            Message::AccountCreated => "Created account successfully"@,
            Message::AccountRefused(e) => e.spec_message(),
            Message::LoggedOut => "Logged out successfully!"@,
        }
    }

    pub fn text(&self) -> (r: &'static str)
        ensures
            r@ == self.spec_text(),
    {
        match self {
            Message::Deleted => "Deleted successfully!",
            Message::LoginRequired => "Please log in first",
            Message::LinkCreated => "Link created",
            Message::LinkRefused => "That short link is already taken",
            Message::InvalidLogin => "Invalid username or password",
            Message::SessionRefused => "Could not start a session",
            Message::NoInvite => "no invite set!",
            Message::BadInvite => "invalid invite code",
            Message::AccountCreated => "Created account successfully",
            Message::AccountRefused(e) => e.message(),
            Message::LoggedOut => "Logged out successfully!",
        }
    }
}

/// A message and whether it reports success or an error.
#[derive(Clone, Copy, Debug, PartialEq, Eq, Structural)]
pub struct Flash {
    pub kind: FlashKind,
    pub msg: Message,
}

/// What becomes of the client's session token.
pub enum SessionChange {
    Keep,
    Start(String),
    Clear,
}

/// A redirect, with the message to show after it and what to do with the
/// client's session token.
pub struct Response {
    pub target: Target,
    pub flash: Option<Flash>,
    pub session: SessionChange,
}

/// What the index page shows.
pub struct TemplateContext {
    pub all: Vec<Link>,
    pub total_hits: u64,
    pub user: Option<User>,
    pub flash_msg: Option<String>,
}

pub open spec fn error_flash(msg: Message) -> Option<Flash> {
    Some(Flash { kind: FlashKind::Error, msg })
}

pub open spec fn success_flash(msg: Message) -> Option<Flash> {
    Some(Flash { kind: FlashKind::Success, msg })
}

fn respond(target: Target, kind: FlashKind, msg: Message) -> (r: Response)
    ensures
        r.target == target,
        r.flash == Some(Flash { kind, msg }),
        r.session is Keep,
{
    Response { target, flash: Some(Flash { kind, msg }), session: SessionChange::Keep }
}

/// The text of a pending message, if there is one.
pub fn get_flash_string(flash: Option<Flash>) -> (r: Option<String>)
    ensures
        flash is None ==> r is None,
        flash matches Some(f) ==> r matches Some(s) && s@ == f.msg.spec_text(),
{
    match flash {
        Some(f) => Some(f.msg.text().to_owned()),
        None => None,
    }
}

/// The index page for a visitor who is not logged in.
pub fn index(store: &Store, flash: Option<Flash>) -> (r: TemplateContext)
    requires
        store.wf(),
    ensures
        r.all@.len() == store.links().len(),
        forall|i: int| 0 <= i < r.all@.len() ==> same_link(#[trigger] r.all@[i], store.links()[i]),
        r.total_hits == store.hits().len(),
        r.user is None,
        flash is None ==> r.flash_msg is None,
        flash matches Some(f) ==> r.flash_msg matches Some(s) && s@ == f.msg.spec_text(),
{
    TemplateContext {
        all: get_all_links(store),
        total_hits: get_total_hit_count(store),
        user: None,
        flash_msg: get_flash_string(flash),
    }
}

/// The index page for the logged-in user `user_id`, with that user's record
/// when it exists.
pub fn index_admin(store: &Store, user_id: UserID, flash: Option<Flash>) -> (r: TemplateContext)
    requires
        store.wf(),
    ensures
        r.all@.len() == store.links().len(),
        forall|i: int| 0 <= i < r.all@.len() ==> same_link(#[trigger] r.all@[i], store.links()[i]),
        r.total_hits == store.hits().len(),
        r.user is None <==> !has_user_id(store.users(), user_id.0),
        r.user matches Some(u) ==> exists|i: int|
            0 <= i < store.users().len() && store.users()[i].id == user_id.0 && same_user(
                u,
                #[trigger] store.users()[i],
            ),
        flash is None ==> r.flash_msg is None,
        flash matches Some(f) ==> r.flash_msg matches Some(s) && s@ == f.msg.spec_text(),
{
    TemplateContext {
        all: get_all_links(store),
        total_hits: get_total_hit_count(store),
        user: match get_user_profile_by_id(store, user_id.0) {
            Ok(user) => Some(user),
            Err(_) => None,
        },
        flash_msg: get_flash_string(flash),
    }
}

/// Follows the token `short` at time `now`: the target of its link, with the
/// visit recorded, or the not-found page. A visit that cannot be recorded does
/// not stop the redirect.
pub fn handle_link(store: &mut Store, short: &str, agent: UserAgent, now: i64) -> (r: Target)
    requires
        old(store).wf(),
    ensures
        final(store).wf(),
        !has_short(old(store).links(), short@) ==> r is NotFound && *final(store) == *old(store),
        has_short(old(store).links(), short@) ==> exists|i: int|
            #![trigger old(store).links()[i]]
            {
                let link = old(store).links()[i];
                &&& link_at(old(store).links(), short@, i)
                &&& r matches Target::Url(u) && u@ == link.original@
                &&& old(store).next_hit_id() < u64::MAX ==> {
                    &&& final(store).hits() == old(store).hits().push(
                        (Hit { id: old(store).next_hit_id(), link: link.id, time: now, user_agent: agent.ua }),
                    )
                    &&& counted_once(old(store).links(), final(store).links(), link.id)
                }
                &&& old(store).next_hit_id() == u64::MAX ==> *final(store) == *old(store)
            },
        final(store).users() == old(store).users(),
        final(store).sessions() == old(store).sessions(),
        final(store).next_link_id() == old(store).next_link_id(),
        final(store).next_user_id() == old(store).next_user_id(),
        final(store).hash_cost() == old(store).hash_cost(),
{
    match get_link(store, short) {
        Ok(link) => {
            let _recorded = write_hit(store, link.id, agent.ua, now);
            Target::Url(link.original)
        },
        Err(()) => Target::NotFound,
    }
}

/// Deletes the link with token `short` for the logged-in `user`; without a
/// user nothing changes.
pub fn handle_link_delete(store: &mut Store, short: &str, user: Option<UserID>) -> (r: Response)
    requires
        old(store).wf(),
    ensures
        final(store).wf(),
        r.target is Home,
        r.session is Keep,
        user is None ==> r.flash == error_flash(Message::LoginRequired) && *final(store) == *old(
            store,
        ),
        user is Some ==> r.flash == success_flash(Message::Deleted),
        user is Some && !has_short(old(store).links(), short@) ==> *final(store) == *old(store),
        user is Some && has_short(old(store).links(), short@) ==> exists|i: int|
            link_at(old(store).links(), short@, i) && final(store).links()
                == #[trigger] old(store).links().remove(i),
        final(store).hits() == old(store).hits(),
        final(store).users() == old(store).users(),
        final(store).sessions() == old(store).sessions(),
        final(store).next_user_id() == old(store).next_user_id(),
        ids_kept(*old(store), *final(store)),
{
    match user {
        None => respond(Target::Home, FlashKind::Error, Message::LoginRequired),
        Some(_) => {
            let _count = delete_link(store, short);
            respond(Target::Home, FlashKind::Success, Message::Deleted)
        },
    }
}

/// The text of the not-found page.
pub fn handle_notfound() -> (r: &'static str)
    ensures
        r@ == "The specified shortlink was not found."@,
{
    "The specified shortlink was not found."
}

/// Adds the link of `form` for the logged-in `user`; without a user nothing
/// changes.
pub fn handle_submit(store: &mut Store, form: &LinkFormSubmission, user: Option<UserID>) -> (r:
    Response)
    requires
        old(store).wf(),
    ensures
        final(store).wf(),
        r.target is Home,
        r.session is Keep,
        user is None ==> r.flash == error_flash(Message::LoginRequired) && *final(store) == *old(
            store,
        ),
        user is Some ==> {
            let created = !has_short(old(store).links(), form.short@) && old(store).next_link_id()
                < u64::MAX;
            &&& created ==> r.flash == success_flash(Message::LinkCreated)
            &&& created ==> link_added(*old(store), *final(store), form.short@, form.url@)
            &&& !created ==> r.flash == error_flash(Message::LinkRefused)
            &&& !created ==> *final(store) == *old(store)
        },
        final(store).hits() == old(store).hits(),
        final(store).users() == old(store).users(),
        final(store).sessions() == old(store).sessions(),
        final(store).next_hit_id() == old(store).next_hit_id(),
        final(store).next_user_id() == old(store).next_user_id(),
        final(store).hash_cost() == old(store).hash_cost(),
{
    match user {
        None => respond(Target::Home, FlashKind::Error, Message::LoginRequired),
        Some(_) => {
            if create_link(store, form.short.as_str(), form.url.as_str()) {
                respond(Target::Home, FlashKind::Success, Message::LinkCreated)
            } else {
                respond(Target::Home, FlashKind::Error, Message::LinkRefused)
            }
        },
    }
}

/// Logs in with the credentials of `form`. On success a session with token
/// `key`, valid before `expires`, is opened and handed to the client. An
/// unknown email and a wrong password get the same answer.
pub fn handle_login(store: &mut Store, form: &LoginFormSubmission, key: String, expires: i64) -> (r:
    Response)
    requires
        old(store).wf(),
    ensures
        final(store).wf(),
        r.target is Home,
        final(store).links() == old(store).links(),
        final(store).hits() == old(store).hits(),
        final(store).users() == old(store).users(),
        final(store).next_user_id() == old(store).next_user_id(),
        ids_kept(*old(store), *final(store)),
        !has_email(old(store).users(), form.email@) ==> r.flash == error_flash(Message::InvalidLogin)
            && r.session is Keep && *final(store) == *old(store),
        has_email(old(store).users(), form.email@) ==> exists|i: int|
            #![trigger old(store).users()[i]]
            {
                let u = old(store).users()[i];
                let accepted = bcrypt_verdict(form.password@, u.hash@) == Some(true);
                &&& user_at(old(store).users(), form.email@, i)
                &&& !accepted ==> r.flash == error_flash(Message::InvalidLogin) && r.session is Keep
                    && *final(store) == *old(store)
                &&& accepted && has_key(old(store).sessions(), key@) ==> r.flash == error_flash(
                    Message::SessionRefused,
                ) && r.session is Keep && *final(store) == *old(store)
                &&& accepted && !has_key(old(store).sessions(), key@) ==> {
                    &&& r.flash is None
                    &&& (r.session matches SessionChange::Start(k) && k@ == key@)
                    &&& final(store).sessions() == old(store).sessions().push(
                        (Session { user: u.id, key, expires }),
                    )
                }
            },
{
    let profile = match get_user_profile(store, &form.email) {
        Ok(p) => p,
        Err(_) => return respond(Target::Home, FlashKind::Error, Message::InvalidLogin),
    };
    if !validate_login(&profile, &form.password) {
        return respond(Target::Home, FlashKind::Error, Message::InvalidLogin);
    }
    let token = key.clone();
    if issue_session(store, profile.id, key, expires) {
        Response { target: Target::Home, flash: None, session: SessionChange::Start(token) }
    } else {
        respond(Target::Home, FlashKind::Error, Message::SessionRefused)
    }
}

/// Opens an account with the fields of `form` when its invite matches the
/// configured `invite_code`, and logs it in with a session with token `key`,
/// valid before `expires`. No invite code configured, or another one given,
/// is refused before anything else is done.
pub fn handle_register(
    store: &mut Store,
    form: &CreateAccountFormSubmission,
    invite_code: Option<&str>,
    key: String,
    expires: i64,
) -> (r: Response)
    requires
        old(store).wf(),
    ensures
        final(store).wf(),
        r.target is Home,
        final(store).links() == old(store).links(),
        final(store).hits() == old(store).hits(),
        invite_code is None ==> r.flash == error_flash(Message::NoInvite) && r.session is Keep
            && *final(store) == *old(store),
        invite_code matches Some(c) && c@ != form.invite@ ==> r.flash == error_flash(
            Message::BadInvite,
        ) && r.session is Keep && *final(store) == *old(store),
        ids_kept(*old(store), *final(store)),
        invite_code matches Some(c) && c@ == form.invite@ && has_email(old(store).users(), form.email@)
            ==> r.flash == error_flash(Message::AccountRefused(StoreError::Duplicate))
            && r.session is Keep && *final(store) == *old(store),
        invite_code matches Some(c) && c@ == form.invite@ && !has_email(old(store).users(), form.email@)
            && old(store).next_user_id() == u64::MAX ==> r.flash == error_flash(
            Message::AccountRefused(StoreError::IdsExhausted),
        ),
        invite_code matches Some(c) && c@ == form.invite@ && !has_email(old(store).users(), form.email@)
            && old(store).next_user_id() < u64::MAX ==> (r.flash == success_flash(
            Message::AccountCreated,
        ) || r.flash == error_flash(Message::AccountRefused(StoreError::HashFailed))),
        r.flash == error_flash(Message::AccountRefused(StoreError::Duplicate)) ==> has_email(
            old(store).users(),
            form.email@,
        ),
        r.flash != success_flash(Message::AccountCreated) ==> r.session is Keep && *final(store)
            == *old(store),
        r.flash == success_flash(Message::AccountCreated) ==> {
            let before = old(store).users();
            let after = final(store).users();
            let u = after.last();
            &&& (invite_code matches Some(c) && c@ == form.invite@)
            &&& !has_email(before, form.email@)
            &&& after.len() == before.len() + 1
            &&& after.take(before.len() as int) == before
            &&& u.email@ == form.email@
            &&& bcrypt_verdict(form.password@, u.hash@) == Some(true)
            &&& !has_key(old(store).sessions(), key@) ==> (r.session matches SessionChange::Start(
                k,
            ) && k@ == key@) && final(store).sessions() == old(store).sessions().push(
                (Session { user: u.id, key, expires }),
            )
            &&& has_key(old(store).sessions(), key@) ==> r.session is Keep && final(store).sessions()
                == old(store).sessions()
        },
{
    let code = match invite_code {
        Some(c) => c.to_owned(),
        None => return respond(Target::Home, FlashKind::Error, Message::NoInvite),
    };
    if !form.invite.eq(&code) {
        return respond(Target::Home, FlashKind::Error, Message::BadInvite);
    }
    match create_user(store, &form.email, &form.password) {
        Ok(profile) => {
            let token = key.clone();
            let session = if issue_session(store, profile.id, key, expires) {
                SessionChange::Start(token)
            } else {
                SessionChange::Keep
            };
            Response {
                target: Target::Home,
                flash: Some(Flash { kind: FlashKind::Success, msg: Message::AccountCreated }),
                session,
            }
        },
        Err(e) => respond(Target::Home, FlashKind::Error, Message::AccountRefused(e)),
    }
}

/// Logs out: the session with token `token`, if any, ends, and the client is
/// told to drop its token.
pub fn handle_logout(store: &mut Store, token: Option<&str>) -> (r: Response)
    requires
        old(store).wf(),
    ensures
        final(store).wf(),
        r.target is Home,
        r.flash == success_flash(Message::LoggedOut),
        r.session is Clear,
        token is None ==> *final(store) == *old(store),
        token matches Some(t) ==> !has_key(final(store).sessions(), t@),
        final(store).links() == old(store).links(),
        final(store).hits() == old(store).hits(),
        final(store).users() == old(store).users(),
        final(store).next_user_id() == old(store).next_user_id(),
        ids_kept(*old(store), *final(store)),
{
    if let Some(t) = token {
        let _ended = revoke_session(store, t);
    }
    Response {
        target: Target::Home,
        flash: Some(Flash { kind: FlashKind::Success, msg: Message::LoggedOut }),
        session: SessionChange::Clear,
    }
}

} // verus!
