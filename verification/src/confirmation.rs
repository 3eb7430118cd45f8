//! The confirmation workflow: redeem a confirmation token and transition
//! its subscriber from `pending_confirmation` to `confirmed`.
//!
//! `confirmed` is terminal: re-confirmation is a no-op success, and an
//! unrecognized token is rejected without touching the store.

use vstd::prelude::*;
use crate::store::Store;
use crate::store::SubscriberView;
use crate::store::confirmed_emails;
use crate::store::count_addr;
use crate::store::count_confirmed_email;
use crate::store::has_email;
use crate::store::has_subscriber_id;
use crate::store::has_token;
use crate::store::lemma_confirmed_emails_count;
use crate::store::lemma_count_confirmed_email_zero;
use crate::subscriptions::lemma_subscription_creates_single_pending;
use crate::subscriptions::subscription_applied;
use crate::store::StoreView;
use crate::store::SubscriberStatus;
use crate::store::confirm_one;
use crate::store::lemma_with_confirmed_preserves_inv;
use crate::store::store_inv;
use crate::store::token_subscriber;
use crate::store::with_confirmed;

verus! {

/// Failures of the confirmation workflow: the token resolved to no
/// subscriber.
#[derive(Debug)]
pub enum ConfirmError {
    UnknownToken,
}

impl ConfirmError {
    /// HTTP status class of the failure: an unknown token is the caller's
    /// fault, a client error.
    pub fn status_code(&self) -> (r: u16)
        ensures
            r == 400,
    {
        match self {
            ConfirmError::UnknownToken => 400,
        }
    }
}

/// The store after a confirmation attempt with `token`: unchanged when the
/// token is unknown, otherwise with the resolved subscriber confirmed.
pub open spec fn confirm_applied(v: StoreView, token: Seq<char>) -> StoreView {
    match token_subscriber(v, token) {
        Some(id) => with_confirmed(v, id),
        None => v,
    }
}

/// Redeems a token. Succeeds exactly when the token resolves to a
/// subscriber, who is then confirmed (idempotently); an unrecognized token
/// always fails with `UnknownToken`, whatever the store holds, and changes
/// nothing. No other side effect: nothing is re-sent or dispatched.
pub fn confirm(store: &mut Store, token: &str) -> (r: Result<(), ConfirmError>)
    requires
        store_inv(old(store)@),
    ensures
        store_inv(final(store)@),
        final(store)@ == confirm_applied(old(store)@, token@),
        r is Ok <==> token_subscriber(old(store)@, token@) is Some,
        r is Err ==> (r matches Err(ConfirmError::UnknownToken) && final(store)@ == old(store)@),
{
    match store.find_subscriber_by_token(token) {
        Some(id) => {
            store.confirm_subscriber(id);
            proof {
                lemma_with_confirmed_preserves_inv(old(store)@, id);
            }
            Ok(())
        },
        None => Err(ConfirmError::UnknownToken),
    }
}

/// For every store holding a token, redemption confirms exactly the
/// subscriber the token resolves to: that subscriber's rows end up
/// `confirmed`, and every other row is untouched.
pub proof fn lemma_confirm_transitions(v: StoreView, token: Seq<char>, id: u128)
    requires
        store_inv(v),
        token_subscriber(v, token) == Some(id),
    ensures
        ({
            let post = confirm_applied(v, token);
            &&& post.subscribers.len() == v.subscribers.len()
            &&& post.tokens == v.tokens
            &&& forall|i: int|
                0 <= i < v.subscribers.len() && v.subscribers[i].id == id
                    ==> #[trigger] post.subscribers[i].status == SubscriberStatus::Confirmed
            &&& forall|i: int|
                0 <= i < v.subscribers.len() && v.subscribers[i].id != id
                    ==> #[trigger] post.subscribers[i] == v.subscribers[i]
        }),
{
}

/// Redeeming the same token twice is idempotent: the second redemption
/// also succeeds and leaves the store exactly as the first one did.
pub proof fn lemma_confirm_idempotent(v: StoreView, token: Seq<char>)
    requires
        store_inv(v),
    ensures
        token_subscriber(confirm_applied(v, token), token) == token_subscriber(v, token),
        confirm_applied(confirm_applied(v, token), token) == confirm_applied(v, token),
{
    match token_subscriber(v, token) {
        Some(id) => {
            let w = confirm_applied(v, token);
            assert(w.tokens == v.tokens);
            let k1 = choose|i: int|
                0 <= i < v.tokens.len() && #[trigger] v.tokens[i].token == token;
            assert(v.tokens[k1].token == token);
            let k2 = choose|i: int|
                0 <= i < w.tokens.len() && #[trigger] w.tokens[i].token == token;
            assert(w.tokens[k2].token == token);
            if k1 < k2 {
                assert(v.tokens[k1].token != v.tokens[k2].token);
            }
            if k2 < k1 {
                assert(v.tokens[k2].token != v.tokens[k1].token);
            }
            assert(token_subscriber(w, token) == Some(id));
            let w2 = confirm_applied(w, token);
            assert forall|i: int| 0 <= i < w2.subscribers.len() implies #[trigger] w2.subscribers[i]
                == w.subscribers[i] by {
                assert(w.subscribers[i] == confirm_one(v.subscribers[i], id));
                assert(w2.subscribers[i] == confirm_one(w.subscribers[i], id));
            }
            assert(w2.subscribers =~= w.subscribers);
            assert(w2 =~= w);
        },
        None => {
        },
    }
}


/// A subscriber whose subscription was applied under a fresh email, id and
/// token, and whose token was then redeemed, appears among the confirmed
/// subscribers: the confirmed listing holds that email exactly once, the new
/// row is unchanged but for its status, and every prior row is untouched.
pub proof fn lemma_confirmed_subscriber_listed(
    pre: StoreView,
    id: u128,
    email: Seq<char>,
    name: Seq<char>,
    token: Seq<char>,
    now: i64,
)
    requires
        store_inv(pre),
        !has_email(pre.subscribers, email),
        !has_subscriber_id(pre.subscribers, id),
        !has_token(pre.tokens, token),
    ensures
        ({
            let once = subscription_applied(pre, id, email, name, token, now);
            let post = confirm_applied(once, token);
            &&& token_subscriber(once, token) == Some(id)
            &&& post.subscribers.len() == pre.subscribers.len() + 1
            &&& post.subscribers.last() == (SubscriberView {
                id,
                email,
                name,
                status: SubscriberStatus::Confirmed,
                subscribed_at: now,
            })
            &&& forall|i: int|
                0 <= i < pre.subscribers.len() ==> #[trigger] post.subscribers[i]
                    == pre.subscribers[i]
            &&& count_addr(confirmed_emails(post.subscribers), email) == 1
        }),
{
    let once = subscription_applied(pre, id, email, name, token, now);
    lemma_subscription_creates_single_pending(pre, id, email, name, token, now);
    assert(token_subscriber(once, token) == Some(id));
    let post = confirm_applied(once, token);
    let n = pre.subscribers.len() as int;
    assert(once.subscribers[n].id == id);
    assert(post.subscribers[n] == confirm_one(once.subscribers[n], id));
    assert(post.subscribers.last() == (SubscriberView {
        id,
        email,
        name,
        status: SubscriberStatus::Confirmed,
        subscribed_at: now,
    }));
    assert forall|i: int| 0 <= i < n implies #[trigger] post.subscribers[i]
        == pre.subscribers[i] by {
        assert(once.subscribers[i] == pre.subscribers[i]);
        assert(pre.subscribers[i].id != id);
    }
    assert(post.subscribers.drop_last() =~= pre.subscribers);
    lemma_count_confirmed_email_zero(pre.subscribers, email);
    assert(count_confirmed_email(post.subscribers, email) == 1);
    lemma_confirmed_emails_count(post.subscribers, email);
}

} // verus!
