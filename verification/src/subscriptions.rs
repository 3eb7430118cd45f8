//! The subscription workflow: validate a raw form, create the pending
//! subscriber and its confirmation token atomically, then send the
//! confirmation email.
//!
//! Persistence is committed before the email call on purpose: a transient
//! email-provider outage never rolls back an otherwise successful write, so
//! a send failure leaves the subscriber behind in `pending_confirmation`.

use vstd::prelude::*;
use vstd::string::StrSliceExecFns;
use vstd::string::StringExecFns;
use rand::Rng;
use crate::domain::NewSubscriber;
use crate::domain::SubscriberEmail;
use crate::domain::SubscriberName;
use crate::domain::email_chars_ok;
use crate::domain::name_chars_ok;
use crate::sender::EmailSender;
use crate::sender::SendRecordView;
use crate::sender::addr_fails;
use crate::store::Store;
use crate::store::StoreView;
use crate::store::SubscriberStatus;
use crate::store::SubscriberView;
use crate::store::TokenView;
use crate::store::count_email;
use crate::store::count_tokens_for;
use crate::store::has_email;
use crate::store::has_subscriber_id;
use crate::store::has_token;
use crate::store::lemma_count_email_zero;
use crate::store::lemma_count_tokens_zero;
use crate::store::store_inv;
use crate::store::token_subscriber;

verus! {

/// The raw subscription form, exactly as submitted.
pub struct FormData {
    pub email: String,
    pub name: String,
}

/// Failures of the subscription workflow. Malformed input is the caller's
/// fault; everything else surfaces as an unexpected error wrapping a
/// description of the failing step.
#[derive(Debug)]
pub enum SubscribeError {
    ValidationError(String),
    UnexpectedError(String),
}

impl SubscribeError {
    /// HTTP status class of the failure: validation errors are client
    /// errors, everything else is a server error.
    pub fn status_code(&self) -> (r: u16)
        ensures
            self is ValidationError ==> r == 400,
            self is UnexpectedError ==> r == 500,
    {
        match self {
            SubscribeError::ValidationError(_) => 400,
            SubscribeError::UnexpectedError(_) => 500,
        }
    }

    /// The wrapped message.
    pub fn message(&self) -> (r: &String)
        ensures
            self matches SubscribeError::ValidationError(m) ==> r@ == m@,
            self matches SubscribeError::UnexpectedError(m) ==> r@ == m@,
    {
        match self {
            SubscribeError::ValidationError(m) => m,
            SubscribeError::UnexpectedError(m) => m,
        }
    }
}

/// Parses a raw form into a validated subscriber, name first: the reported
/// failure is the first one encountered.
pub fn parse_subscriber(form: FormData) -> (r: Result<NewSubscriber, String>)
    ensures
        r is Ok <==> name_chars_ok(form.name@) && email_chars_ok(form.email@),
        r matches Ok(ns) ==> ns.name@ == form.name@ && ns.email@ == form.email@,
        r matches Err(m) ==> if !name_chars_ok(form.name@) {
            m@ == form.name@ + " is not a valid subscriber name."@
        } else {
            m@ == form.email@ + " is not a valid subscriber email."@
        },
{
    let name = match SubscriberName::parse(form.name) {
        Ok(n) => n,
        Err(m) => {
            return Err(m);
        },
    };
    let email = match SubscriberEmail::parse(form.email) {
        Ok(e) => e,
        Err(m) => {
            return Err(m);
        },
    };
    Ok(NewSubscriber { email, name })
}

/// A token character: an ASCII letter or digit.
pub open spec fn is_token_char(c: char) -> bool {
    (65 <= c as u32 <= 90) || (97 <= c as u32 <= 122) || (48 <= c as u32 <= 57)
}

/// A well-formed confirmation token: 25 ASCII alphanumeric characters.
pub open spec fn token_ok(s: Seq<char>) -> bool {
    s.len() == 25 && forall|i: int| 0 <= i < s.len() ==> is_token_char(s[i])
}

/// Relies on rand's `Alphanumeric` distribution: sampling it with the thread
/// rng yields one byte drawn uniformly from the ASCII letters and digits
/// (`A`-`Z`, `a`-`z`, `0`-`9`), returned here as a one-character string.
#[verifier::external_body]
fn random_alphanumeric() -> (r: String)
    ensures
        r@.len() == 1,
        is_token_char(r@[0]),
{
    let b: u8 = rand::thread_rng().sample(rand::distributions::Alphanumeric);
    char::from(b).to_string()
}

/// Relies on uuid's `Uuid::new_v4`: a freshly generated random identifier,
/// carried as its 128-bit value. Its value depends on chance, so nothing is
/// promised of it.
#[verifier::external_body]
fn generate_subscriber_id() -> u128 {
    uuid::Uuid::new_v4().as_u128()
}

/// Relies on chrono's `Utc::now` and `DateTime::timestamp_millis`: the
/// current time as milliseconds since the Unix epoch. Its value depends on
/// the clock, so nothing is promised of it.
#[verifier::external_body]
fn now_utc_millis() -> i64 {
    chrono::Utc::now().timestamp_millis()
}

/// A fixed-length, URL-safe, high-entropy opaque credential. It is never
/// parsed on redemption, only compared for exact equality.
pub fn generate_subscription_token() -> (r: String)
    ensures
        token_ok(r@),
{
    let mut t = String::new();
    let mut i: usize = 0;
    while i < 25
        invariant
            0 <= i <= 25,
            t@.len() == i,
            forall|j: int| 0 <= j < t@.len() ==> is_token_char(t@[j]),
        decreases 25 - i,
    {
        let c = random_alphanumeric();
        t.append(c.as_str());
        i = i + 1;
    }
    t
}

/// The confirmation link for a token, under a base URL.
pub open spec fn confirmation_link_of(base_url: Seq<char>, token: Seq<char>) -> Seq<char> {
    base_url + "/subscriptions/confirm?subscription_token="@ + token
}

/// The fixed HTML body of the confirmation email for a token.
pub open spec fn confirmation_html_of(base_url: Seq<char>, token: Seq<char>) -> Seq<char> {
    "Welcome to our newsletter!<br />Click <a href=\""@ + confirmation_link_of(base_url, token)
        + "\">here</a> to confirm your subscription."@
}

/// Composes the confirmation link a new subscriber must follow.
pub fn confirmation_link(base_url: &str, token: &str) -> (r: String)
    ensures
        r@ == confirmation_link_of(base_url@, token@),
{
    let mut r = String::from_str(base_url);
    r.append("/subscriptions/confirm?subscription_token=");
    r.append(token);
    r
}

/// Composes the fixed confirmation message containing the link.
pub fn confirmation_email_html(base_url: &str, token: &str) -> (r: String)
    ensures
        r@ == confirmation_html_of(base_url@, token@),
{
    let mut r = String::from_str("Welcome to our newsletter!<br />Click <a href=\"");
    let link = confirmation_link(base_url, token);
    r.append(link.as_str());
    r.append("\">here</a> to confirm your subscription.");
    r
}

/// The store after a subscription for `id`, `email`, `name` and `token` is
/// applied at time `now`.
pub open spec fn subscription_applied(
    pre: StoreView,
    id: u128,
    email: Seq<char>,
    name: Seq<char>,
    token: Seq<char>,
    now: i64,
) -> StoreView {
    StoreView {
        subscribers: pre.subscribers.push(
            (SubscriberView {
                id,
                email,
                name,
                status: SubscriberStatus::PendingConfirmation,
                subscribed_at: now,
            }),
        ),
        tokens: pre.tokens.push((TokenView { token, subscriber_id: id })),
    }
}

/// A fresh subscriber row plus its token preserve the store's invariant.
pub proof fn lemma_subscription_preserves_inv(
    pre: StoreView,
    id: u128,
    email: Seq<char>,
    name: Seq<char>,
    token: Seq<char>,
    now: i64,
)
    requires
        store_inv(pre),
        !has_email(pre.subscribers, email),
        !has_subscriber_id(pre.subscribers, id),
        !has_token(pre.tokens, token),
    ensures
        store_inv(subscription_applied(pre, id, email, name, token, now)),
{
    let post = subscription_applied(pre, id, email, name, token, now);
    let n = pre.subscribers.len() as int;
    let m = pre.tokens.len() as int;
    assert forall|i: int, j: int| 0 <= i < j < post.subscribers.len() implies #[trigger] post
        .subscribers[i].id != #[trigger] post.subscribers[j].id by {
        if j < n {
            assert(pre.subscribers[i].id != pre.subscribers[j].id);
        } else {
            assert(post.subscribers[i] == pre.subscribers[i]);
            assert(!(pre.subscribers[i].id == id));
        }
    }
    assert forall|i: int, j: int| 0 <= i < j < post.subscribers.len() implies #[trigger] post
        .subscribers[i].email != #[trigger] post.subscribers[j].email by {
        if j < n {
            assert(pre.subscribers[i].email != pre.subscribers[j].email);
        } else {
            assert(post.subscribers[i] == pre.subscribers[i]);
            assert(!(pre.subscribers[i].email == email));
        }
    }
    assert forall|i: int, j: int| 0 <= i < j < post.tokens.len() implies #[trigger] post.tokens[i]
        .token != #[trigger] post.tokens[j].token by {
        if j < m {
            assert(pre.tokens[i].token != pre.tokens[j].token);
        } else {
            assert(post.tokens[i] == pre.tokens[i]);
            assert(!(pre.tokens[i].token == token));
        }
    }
    assert forall|i: int| 0 <= i < post.tokens.len() implies has_subscriber_id(
        post.subscribers,
        #[trigger] post.tokens[i].subscriber_id,
    ) by {
        if i < m {
            assert(has_subscriber_id(pre.subscribers, pre.tokens[i].subscriber_id));
            let k = choose|k: int|
                0 <= k < pre.subscribers.len() && #[trigger] pre.subscribers[k].id
                    == pre.tokens[i].subscriber_id;
            assert(post.subscribers[k].id == post.tokens[i].subscriber_id);
        } else {
            assert(post.subscribers[n].id == id);
        }
    }
}

/// Atomically creates the pending subscriber and its confirmation token:
/// both writes run in one transaction, committed only when both succeed,
/// so no partial state is ever visible. On failure the store is unchanged
/// and the error names the failing step.
pub fn apply_subscription(
    store: &mut Store,
    subscriber: &NewSubscriber,
    id: u128,
    token: &str,
    now: i64,
) -> (r: Result<(), SubscribeError>)
    requires
        store_inv(old(store)@),
    ensures
        store_inv(final(store)@),
        r is Ok <==> !has_email(old(store)@.subscribers, subscriber.email@)
            && !has_subscriber_id(old(store)@.subscribers, id) && !has_token(
            old(store)@.tokens,
            token@,
        ),
        r is Ok ==> final(store)@ == subscription_applied(
            old(store)@,
            id,
            subscriber.email@,
            subscriber.name@,
            token@,
            now,
        ),
        r is Err ==> final(store)@ == old(store)@,
        r is Err ==> r matches Err(SubscribeError::UnexpectedError(_)),
        (has_email(old(store)@.subscribers, subscriber.email@) || has_subscriber_id(
            old(store)@.subscribers,
            id,
        )) ==> (r matches Err(SubscribeError::UnexpectedError(m)) && m@
            == "Failed to insert new subscriber in the database."@),
        r is Err && !has_email(old(store)@.subscribers, subscriber.email@)
            && !has_subscriber_id(old(store)@.subscribers, id) ==> (r matches Err(
            SubscribeError::UnexpectedError(m),
        ) && m@ == "Failed to store the confirmation token for a new subscriber."@),
{
    let mut txn = store.begin_transaction();
    match txn.insert_subscriber(id, subscriber.email.as_str(), subscriber.name.as_str(), now) {
        Ok(()) => {},
        Err(_) => {
            txn.rollback();
            return Err(
                SubscribeError::UnexpectedError(
                    String::from_str("Failed to insert new subscriber in the database."),
                ),
            );
        },
    }
    proof {
        assert(txn@.subscribers[old(store)@.subscribers.len() as int].id == id);
        assert(has_subscriber_id(txn@.subscribers, id));
    }
    match txn.store_token(id, token) {
        Ok(()) => {},
        Err(_) => {
            txn.rollback();
            return Err(
                SubscribeError::UnexpectedError(
                    String::from_str("Failed to store the confirmation token for a new subscriber."),
                ),
            );
        },
    }
    proof {
        lemma_subscription_preserves_inv(
            old(store)@,
            id,
            subscriber.email@,
            subscriber.name@,
            token@,
            now,
        );
        assert(txn@ =~= subscription_applied(
            old(store)@,
            id,
            subscriber.email@,
            subscriber.name@,
            token@,
            now,
        ));
    }
    store.commit(txn);
    Ok(())
}

/// What a successful subscription hands back: the new subscriber's id and
/// the confirmation token that was emailed out.
pub struct PendingSubscription {
    pub subscriber_id: u128,
    pub token: String,
}

/// Onboards a subscriber: validates the form, atomically creates the
/// pending subscriber row and its confirmation token, commits, then sends
/// the fixed confirmation message through the sender.
///
/// Validation failures never reach the store. A send failure is reported as
/// an unexpected error, but the already committed subscriber row stays
/// behind in `pending_confirmation`, so a token can be issued again later.
pub fn subscribe(
    store: &mut Store,
    sender: &mut EmailSender,
    form: FormData,
    base_url: &str,
) -> (r: Result<PendingSubscription, SubscribeError>)
    requires
        store_inv(old(store)@),
    ensures
        store_inv(final(store)@),
        final(sender)@.failing == old(sender)@.failing,
        r is Err && r matches Err(SubscribeError::ValidationError(_)) <==> !(name_chars_ok(
            form.name@,
        ) && email_chars_ok(form.email@)),
        r matches Err(SubscribeError::ValidationError(m)) ==> final(store)@ == old(store)@
            && final(sender)@ == old(sender)@ && (if !name_chars_ok(form.name@) {
            m@ == form.name@ + " is not a valid subscriber name."@
        } else {
            m@ == form.email@ + " is not a valid subscriber email."@
        }),
        name_chars_ok(form.name@) && email_chars_ok(form.email@) && has_email(
            old(store)@.subscribers,
            form.email@,
        ) ==> (r matches Err(SubscribeError::UnexpectedError(m)) && m@
            == "Failed to insert new subscriber in the database."@ && final(store)@ == old(store)@
            && final(sender)@ == old(sender)@),
        r matches Ok(p) ==> name_chars_ok(form.name@) && email_chars_ok(form.email@) && !has_email(
            old(store)@.subscribers,
            form.email@,
        ) && !has_subscriber_id(old(store)@.subscribers, p.subscriber_id) && token_ok(p.token@)
            && !has_token(old(store)@.tokens, p.token@) && (exists|now: i64|
            final(store)@ == subscription_applied(
                old(store)@,
                p.subscriber_id,
                form.email@,
                form.name@,
                p.token@,
                now,
            )) && final(sender)@.sent == old(sender)@.sent.push(
            (SendRecordView {
                to: form.email@,
                subject: "Welcome!"@,
                html_body: confirmation_html_of(base_url@, p.token@),
            }),
        ) && !addr_fails(old(sender)@.failing, form.email@),
        r matches Err(SubscribeError::UnexpectedError(_)) ==> name_chars_ok(form.name@)
            && email_chars_ok(form.email@),
        name_chars_ok(form.name@) && email_chars_ok(form.email@) && old(
            store,
        )@.subscribers.len() == 0 && old(store)@.tokens.len() == 0 && !addr_fails(
            old(sender)@.failing,
            form.email@,
        ) ==> r is Ok,
        (r matches Err(SubscribeError::UnexpectedError(_))) && !has_email(
            old(store)@.subscribers,
            form.email@,
        ) && !addr_fails(old(sender)@.failing, form.email@) ==> old(store)@.subscribers.len() > 0
            || old(store)@.tokens.len() > 0,
        r matches Err(SubscribeError::UnexpectedError(m)) ==> (final(store)@ == old(store)@
            && final(sender)@ == old(sender)@ && (m@
            == "Failed to insert new subscriber in the database."@ || m@
            == "Failed to store the confirmation token for a new subscriber."@)) || (addr_fails(
            old(sender)@.failing,
            form.email@,
        ) && m@ == "Failed to send a confirmation email."@ && (exists|id: u128, tok: Seq<char>, now: i64|
            token_ok(tok) && !has_subscriber_id(old(store)@.subscribers, id) && !has_token(
                old(store)@.tokens,
                tok,
            ) && final(store)@ == subscription_applied(
                old(store)@,
                id,
                form.email@,
                form.name@,
                tok,
                now,
            ) && final(sender)@.sent == old(sender)@.sent.push(
                (SendRecordView {
                    to: form.email@,
                    subject: "Welcome!"@,
                    html_body: confirmation_html_of(base_url@, tok),
                }),
            ))),
{
    let new_subscriber = match parse_subscriber(form) {
        Ok(ns) => ns,
        Err(m) => {
            return Err(SubscribeError::ValidationError(m));
        },
    };
    let id = generate_subscriber_id();
    let token = generate_subscription_token();
    let now = now_utc_millis();
    match apply_subscription(store, &new_subscriber, id, token.as_str(), now) {
        Ok(()) => {},
        Err(e) => {
            return Err(e);
        },
    }
    let html = confirmation_email_html(base_url, token.as_str());
    let delivered = sender.send(new_subscriber.email.as_str(), "Welcome!", html.as_str());
    if !delivered {
        proof {
            assert(store@ == subscription_applied(
                old(store)@,
                id,
                form.email@,
                form.name@,
                token@,
                now,
            ));
            assert(sender@.sent =~= old(sender)@.sent.push(
                (SendRecordView {
                    to: form.email@,
                    subject: "Welcome!"@,
                    html_body: confirmation_html_of(base_url@, token@),
                }),
            ));
        }
        return Err(
            SubscribeError::UnexpectedError(String::from_str("Failed to send a confirmation email.")),
        );
    }
    let receipt = PendingSubscription { subscriber_id: id, token };
    proof {
        assert(store@ == subscription_applied(
            old(store)@,
            receipt.subscriber_id,
            form.email@,
            form.name@,
            receipt.token@,
            now,
        ));
        assert(sender@.sent =~= old(sender)@.sent.push(
            (SendRecordView {
                to: form.email@,
                subject: "Welcome!"@,
                html_body: confirmation_html_of(base_url@, receipt.token@),
            }),
        ));
    }
    Ok(receipt)
}

/// For every valid subscription applied to a store whose invariant holds
/// and that does not yet hold the email, the id or the token: afterwards
/// exactly one subscriber row holds that email, every row holding it is in
/// `pending_confirmation`, the token resolves to the new subscriber, and
/// exactly one token resolves to it.
pub proof fn lemma_subscription_creates_single_pending(
    pre: StoreView,
    id: u128,
    email: Seq<char>,
    name: Seq<char>,
    token: Seq<char>,
    now: i64,
)
    requires
        store_inv(pre),
        !has_email(pre.subscribers, email),
        !has_subscriber_id(pre.subscribers, id),
        !has_token(pre.tokens, token),
    ensures
        ({
            let post = subscription_applied(pre, id, email, name, token, now);
            &&& count_email(post.subscribers, email) == 1
            &&& forall|i: int|
                0 <= i < post.subscribers.len() && post.subscribers[i].email == email
                    ==> #[trigger] post.subscribers[i].status
                    == SubscriberStatus::PendingConfirmation
            &&& token_subscriber(post, token) == Some(id)
            &&& count_tokens_for(post.tokens, id) == 1
        }),
{
    let post = subscription_applied(pre, id, email, name, token, now);
    let n = pre.subscribers.len() as int;
    let m = pre.tokens.len() as int;
    lemma_count_email_zero(pre.subscribers, email);
    assert(post.subscribers.drop_last() =~= pre.subscribers);
    assert(post.subscribers.last().email == email);
    assert(count_email(post.subscribers, email) == 1);
    assert forall|i: int|
        0 <= i < post.subscribers.len() && post.subscribers[i].email == email implies #[trigger] post
        .subscribers[i].status == SubscriberStatus::PendingConfirmation by {
        if i < n {
            assert(pre.subscribers[i].email == email);
            assert(has_email(pre.subscribers, email));
        }
    }
    assert(post.tokens[m].token == token);
    assert(has_token(post.tokens, token));
    let k = choose|k: int| 0 <= k < post.tokens.len() && #[trigger] post.tokens[k].token == token;
    if k < m {
        assert(pre.tokens[k].token == token);
        assert(has_token(pre.tokens, token));
    }
    assert(token_subscriber(post, token) == Some(id));
    assert forall|i: int| 0 <= i < m implies #[trigger] pre.tokens[i].subscriber_id != id by {
        assert(has_subscriber_id(pre.subscribers, pre.tokens[i].subscriber_id));
        let w = choose|w: int|
            0 <= w < pre.subscribers.len() && #[trigger] pre.subscribers[w].id
                == pre.tokens[i].subscriber_id;
        if pre.tokens[i].subscriber_id == id {
            assert(pre.subscribers[w].id == id);
        }
    }
    lemma_count_tokens_zero(pre.tokens, id);
    assert(post.tokens.drop_last() =~= pre.tokens);
    assert(count_tokens_for(post.tokens, id) == 1);
}

} // verus!

