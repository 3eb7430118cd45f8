//! The subscriber store: an in-memory model of the two logical tables
//! (subscribers and confirmation tokens) behind the service.
//!
//! The store owns all durable state. Writes go through a [`Transaction`],
//! which stages changes against a snapshot and publishes them atomically on
//! [`Store::commit`]: no partial state (a subscriber without its token, or
//! the reverse) is ever visible on the store itself.

use vstd::prelude::*;
use crate::domain::SubscriberEmail;
use crate::domain::email_chars_ok;
use crate::text::str_eq;

verus! {

/// Lifecycle state of a subscriber. The only transition is
/// pending -> confirmed; it never reverses.
#[derive(Clone, Copy, PartialEq, Eq, Structural, Debug)]
pub enum SubscriberStatus {
    PendingConfirmation,
    Confirmed,
}

/// One subscriber row. The email is kept in its raw stored form: the store
/// does not assume it is well-formed, so readers re-validate it.
pub struct Subscriber {
    pub id: u128,
    pub email: String,
    pub name: String,
    pub status: SubscriberStatus,
    pub subscribed_at: i64,
}

/// Mathematical model of a subscriber row.
#[verifier::ext_equal]
pub struct SubscriberView {
    pub id: u128,
    pub email: Seq<char>,
    pub name: Seq<char>,
    pub status: SubscriberStatus,
    pub subscribed_at: i64,
}

impl View for Subscriber {
    type V = SubscriberView;

    open spec fn view(&self) -> SubscriberView {
        SubscriberView {
            id: self.id,
            email: self.email@,
            name: self.name@,
            status: self.status,
            subscribed_at: self.subscribed_at,
        }
    }
}

impl Clone for Subscriber {
    fn clone(&self) -> (r: Self)
        ensures
            r@ == self@,
    {
        Subscriber {
            id: self.id,
            email: self.email.clone(),
            name: self.name.clone(),
            status: self.status,
            subscribed_at: self.subscribed_at,
        }
    }
}

/// One confirmation-token row: an opaque credential resolving to exactly one
/// subscriber.
pub struct StoredToken {
    pub token: String,
    pub subscriber_id: u128,
}

/// Mathematical model of a token row.
#[verifier::ext_equal]
pub struct TokenView {
    pub token: Seq<char>,
    pub subscriber_id: u128,
}

impl View for StoredToken {
    type V = TokenView;

    open spec fn view(&self) -> TokenView {
        TokenView { token: self.token@, subscriber_id: self.subscriber_id }
    }
}

impl Clone for StoredToken {
    fn clone(&self) -> (r: Self)
        ensures
            r@ == self@,
    {
        StoredToken { token: self.token.clone(), subscriber_id: self.subscriber_id }
    }
}

/// Mathematical model of the whole store.
#[verifier::ext_equal]
pub struct StoreView {
    pub subscribers: Seq<SubscriberView>,
    pub tokens: Seq<TokenView>,
}

/// Some subscriber holds this email.
pub open spec fn has_email(subs: Seq<SubscriberView>, email: Seq<char>) -> bool {
    exists|i: int| 0 <= i < subs.len() && #[trigger] subs[i].email == email
}

/// Some subscriber holds this id.
pub open spec fn has_subscriber_id(subs: Seq<SubscriberView>, id: u128) -> bool {
    exists|i: int| 0 <= i < subs.len() && #[trigger] subs[i].id == id
}

/// Some token row holds this token string.
pub open spec fn has_token(toks: Seq<TokenView>, token: Seq<char>) -> bool {
    exists|i: int| 0 <= i < toks.len() && #[trigger] toks[i].token == token
}

/// The store's invariant: emails, ids and tokens are unique, and every token
/// resolves to an existing subscriber (referential integrity).
pub open spec fn store_inv(v: StoreView) -> bool {
    &&& forall|i: int, j: int|
        0 <= i < j < v.subscribers.len() ==> #[trigger] v.subscribers[i].id
            != #[trigger] v.subscribers[j].id
    &&& forall|i: int, j: int|
        0 <= i < j < v.subscribers.len() ==> #[trigger] v.subscribers[i].email
            != #[trigger] v.subscribers[j].email
    &&& forall|i: int, j: int|
        0 <= i < j < v.tokens.len() ==> #[trigger] v.tokens[i].token
            != #[trigger] v.tokens[j].token
    &&& forall|i: int|
        0 <= i < v.tokens.len() ==> has_subscriber_id(
            v.subscribers,
            #[trigger] v.tokens[i].subscriber_id,
        )
}


/// The subscriber a token resolves to, when the token is present.
pub open spec fn token_subscriber(v: StoreView, token: Seq<char>) -> Option<u128> {
    if has_token(v.tokens, token) {
        Some(
            v.tokens[choose|i: int|
                0 <= i < v.tokens.len() && #[trigger] v.tokens[i].token == token].subscriber_id,
        )
    } else {
        None
    }
}

/// One subscriber row after a confirmation aimed at `id`.
pub open spec fn confirm_one(s: SubscriberView, id: u128) -> SubscriberView {
    if s.id == id {
        SubscriberView { status: SubscriberStatus::Confirmed, ..s }
    } else {
        s
    }
}

/// The store after the subscriber with `id` (if any) is confirmed.
pub open spec fn with_confirmed(v: StoreView, id: u128) -> StoreView {
    StoreView {
        subscribers: Seq::new(v.subscribers.len(), |i: int| confirm_one(v.subscribers[i], id)),
        tokens: v.tokens,
    }
}

/// Confirming a subscriber changes no email, id or token, so the store's
/// invariant survives it.
pub proof fn lemma_with_confirmed_preserves_inv(v: StoreView, id: u128)
    requires
        store_inv(v),
    ensures
        store_inv(with_confirmed(v, id)),
{
    let w = with_confirmed(v, id);
    assert forall|i: int| 0 <= i < w.tokens.len() implies has_subscriber_id(
        w.subscribers,
        #[trigger] w.tokens[i].subscriber_id,
    ) by {
        assert(has_subscriber_id(v.subscribers, v.tokens[i].subscriber_id));
        let k = choose|k: int|
            0 <= k < v.subscribers.len() && #[trigger] v.subscribers[k].id
                == v.tokens[i].subscriber_id;
        assert(w.subscribers[k].id == v.tokens[i].subscriber_id);
    }
}

/// The raw emails of the confirmed subscribers, in store order.
pub open spec fn confirmed_emails(subs: Seq<SubscriberView>) -> Seq<Seq<char>>
    decreases subs.len(),
{
    if subs.len() == 0 {
        Seq::empty()
    } else if subs.last().status == SubscriberStatus::Confirmed {
        confirmed_emails(subs.drop_last()).push(subs.last().email)
    } else {
        confirmed_emails(subs.drop_last())
    }
}

/// Number of confirmed subscribers.
pub open spec fn count_confirmed(subs: Seq<SubscriberView>) -> nat
    decreases subs.len(),
{
    if subs.len() == 0 {
        0
    } else {
        count_confirmed(subs.drop_last()) + if subs.last().status
            == SubscriberStatus::Confirmed {
            1nat
        } else {
            0nat
        }
    }
}

/// Number of subscriber rows holding this email.
pub open spec fn count_email(subs: Seq<SubscriberView>, email: Seq<char>) -> nat
    decreases subs.len(),
{
    if subs.len() == 0 {
        0
    } else {
        count_email(subs.drop_last(), email) + if subs.last().email == email {
            1nat
        } else {
            0nat
        }
    }
}

/// Number of token rows resolving to this subscriber id.
pub open spec fn count_tokens_for(toks: Seq<TokenView>, id: u128) -> nat
    decreases toks.len(),
{
    if toks.len() == 0 {
        0
    } else {
        count_tokens_for(toks.drop_last(), id) + if toks.last().subscriber_id == id {
            1nat
        } else {
            0nat
        }
    }
}


/// Number of listing rows equal to this address.
pub open spec fn count_addr(rows: Seq<Seq<char>>, addr: Seq<char>) -> nat
    decreases rows.len(),
{
    if rows.len() == 0 {
        0
    } else {
        count_addr(rows.drop_last(), addr) + if rows.last() == addr {
            1nat
        } else {
            0nat
        }
    }
}

/// Number of confirmed subscriber rows holding this email.
pub open spec fn count_confirmed_email(subs: Seq<SubscriberView>, email: Seq<char>) -> nat
    decreases subs.len(),
{
    if subs.len() == 0 {
        0
    } else {
        count_confirmed_email(subs.drop_last(), email) + if subs.last().status
            == SubscriberStatus::Confirmed && subs.last().email == email {
            1nat
        } else {
            0nat
        }
    }
}

/// An email appears in the confirmed listing once per confirmed row that
/// holds it.
pub proof fn lemma_confirmed_emails_count(subs: Seq<SubscriberView>, email: Seq<char>)
    ensures
        count_addr(confirmed_emails(subs), email) == count_confirmed_email(subs, email),
    decreases subs.len(),
{
    if subs.len() > 0 {
        lemma_confirmed_emails_count(subs.drop_last(), email);
        if subs.last().status == SubscriberStatus::Confirmed {
            assert(confirmed_emails(subs) == confirmed_emails(subs.drop_last()).push(
                subs.last().email,
            ));
            assert(confirmed_emails(subs).drop_last() =~= confirmed_emails(subs.drop_last()));
            assert(confirmed_emails(subs).last() == subs.last().email);
        }
    }
}

/// No confirmed row holds an email that no row holds at all.
pub proof fn lemma_count_confirmed_email_zero(subs: Seq<SubscriberView>, email: Seq<char>)
    requires
        !has_email(subs, email),
    ensures
        count_confirmed_email(subs, email) == 0,
    decreases subs.len(),
{
    if subs.len() > 0 {
        assert(!has_email(subs.drop_last(), email));
        lemma_count_confirmed_email_zero(subs.drop_last(), email);
        assert(subs.last() == subs[subs.len() - 1]);
    }
}

/// An absent email is held by no row.
pub proof fn lemma_count_email_zero(subs: Seq<SubscriberView>, email: Seq<char>)
    requires
        !has_email(subs, email),
    ensures
        count_email(subs, email) == 0,
    decreases subs.len(),
{
    if subs.len() > 0 {
        assert(!has_email(subs.drop_last(), email));
        lemma_count_email_zero(subs.drop_last(), email);
        assert(subs.last() == subs[subs.len() - 1]);
    }
}

/// An id no token row references has no tokens resolving to it.
pub proof fn lemma_count_tokens_zero(toks: Seq<TokenView>, id: u128)
    requires
        forall|i: int| 0 <= i < toks.len() ==> #[trigger] toks[i].subscriber_id != id,
    ensures
        count_tokens_for(toks, id) == 0,
    decreases toks.len(),
{
    if toks.len() > 0 {
        lemma_count_tokens_zero(toks.drop_last(), id);
        assert(toks.last() == toks[toks.len() - 1]);
    }
}

proof fn lemma_confirmed_emails_step(subs: Seq<SubscriberView>, i: int)
    requires
        0 <= i < subs.len(),
    ensures
        confirmed_emails(subs.take(i + 1)) == if subs[i].status == SubscriberStatus::Confirmed {
            confirmed_emails(subs.take(i)).push(subs[i].email)
        } else {
            confirmed_emails(subs.take(i))
        },
{
    assert(subs.take(i + 1).drop_last() =~= subs.take(i));
    assert(subs.take(i + 1).last() == subs[i]);
}

/// Errors of the storage layer: a duplicate email is a conflict; any other
/// violated constraint (duplicate id or token, missing referent) surfaces as
/// a constraint failure.
#[derive(Clone, Copy, PartialEq, Eq, Structural, Debug)]
pub enum StoreError {
    Conflict,
    Constraint,
}

/// The in-memory subscriber store.
pub struct Store {
    subscribers: Vec<Subscriber>,
    tokens: Vec<StoredToken>,
}

impl View for Store {
    type V = StoreView;

    closed spec fn view(&self) -> StoreView {
        StoreView {
            subscribers: Seq::new(self.subscribers@.len(), |i: int| self.subscribers@[i]@),
            tokens: Seq::new(self.tokens@.len(), |i: int| self.tokens@[i]@),
        }
    }
}

/// A transactional context: a snapshot of the store that stages writes until
/// they are committed in one step.
pub struct Transaction {
    state: Store,
}

impl View for Transaction {
    type V = StoreView;

    closed spec fn view(&self) -> StoreView {
        self.state@
    }
}

fn clone_subscribers(v: &Vec<Subscriber>) -> (r: Vec<Subscriber>)
    ensures
        r@.len() == v@.len(),
        forall|i: int| 0 <= i < v@.len() ==> #[trigger] r@[i]@ == v@[i]@,
{
    let mut r: Vec<Subscriber> = Vec::new();
    let mut i: usize = 0;
    while i < v.len()
        invariant
            0 <= i <= v@.len(),
            r@.len() == i,
            forall|j: int| 0 <= j < i ==> #[trigger] r@[j]@ == v@[j]@,
        decreases v@.len() - i,
    {
        r.push(v[i].clone());
        i = i + 1;
    }
    r
}

fn clone_tokens(v: &Vec<StoredToken>) -> (r: Vec<StoredToken>)
    ensures
        r@.len() == v@.len(),
        forall|i: int| 0 <= i < v@.len() ==> #[trigger] r@[i]@ == v@[i]@,
{
    let mut r: Vec<StoredToken> = Vec::new();
    let mut i: usize = 0;
    while i < v.len()
        invariant
            0 <= i <= v@.len(),
            r@.len() == i,
            forall|j: int| 0 <= j < i ==> #[trigger] r@[j]@ == v@[j]@,
        decreases v@.len() - i,
    {
        r.push(v[i].clone());
        i = i + 1;
    }
    r
}

impl Store {
    /// An empty store.
    pub fn new() -> (r: Store)
        ensures
            r@.subscribers.len() == 0,
            r@.tokens.len() == 0,
            store_inv(r@),
    {
        Store { subscribers: Vec::new(), tokens: Vec::new() }
    }

    /// Scoped acquisition of a transactional context. The transaction starts
    /// from the store's current state; nothing staged against it is visible
    /// on the store before `commit`.
    pub fn begin_transaction(&self) -> (t: Transaction)
        ensures
            t@ == self@,
    {
        let state = Store {
            subscribers: clone_subscribers(&self.subscribers),
            tokens: clone_tokens(&self.tokens),
        };
        proof {
            assert(state@.subscribers =~= self@.subscribers);
            assert(state@.tokens =~= self@.tokens);
            assert(state@ =~= self@);
        }
        Transaction { state }
    }

    /// Atomic, all-or-nothing application of everything issued against the
    /// transaction: the store takes the staged state in a single step.
    pub fn commit(&mut self, t: Transaction)
        ensures
            final(self)@ == t@,
    {
        *self = t.state;
    }

    /// Point lookup of a token. An absent token is not an error: it is an
    /// empty result.
    pub fn find_subscriber_by_token(&self, token: &str) -> (r: Option<u128>)
        requires
            store_inv(self@),
        ensures
            r == token_subscriber(self@, token@),
    {
        let n = self.tokens.len();
        let mut i: usize = 0;
        while i < n
            invariant
                0 <= i <= n,
                n == self.tokens@.len(),
                store_inv(self@),
                forall|j: int| 0 <= j < i ==> #[trigger] self@.tokens[j].token != token@,
            decreases n - i,
        {
            if str_eq(self.tokens[i].token.as_str(), token) {
                proof {
                    assert(self@.tokens[i as int].token == token@);
                    let k = choose|k: int|
                        0 <= k < self@.tokens.len() && #[trigger] self@.tokens[k].token == token@;
                    if k < i {
                        assert(self@.tokens[k].token != self@.tokens[i as int].token);
                    }
                    if i < k {
                        assert(self@.tokens[i as int].token != self@.tokens[k].token);
                    }
                }
                return Some(self.tokens[i].subscriber_id);
            }
            i = i + 1;
        }
        None
    }

    /// Sets the subscriber's status to confirmed. Idempotent: confirming an
    /// already confirmed subscriber, or an absent id, changes nothing and
    /// succeeds silently.
    pub fn confirm_subscriber(&mut self, id: u128)
        ensures
            final(self)@ == with_confirmed(old(self)@, id),
    {
        let n = self.subscribers.len();
        let mut updated: Vec<Subscriber> = Vec::new();
        let mut i: usize = 0;
        while i < n
            invariant
                0 <= i <= n,
                *self == *old(self),
                n == self.subscribers@.len(),
                updated@.len() == i,
                forall|j: int|
                    0 <= j < i ==> #[trigger] updated@[j]@ == confirm_one(
                        self@.subscribers[j],
                        id,
                    ),
            decreases n - i,
        {
            let s = self.subscribers[i].clone();
            assert(s@ == self@.subscribers[i as int]);
            if s.id == id {
                let c = Subscriber {
                    id: s.id,
                    email: s.email,
                    name: s.name,
                    status: SubscriberStatus::Confirmed,
                    subscribed_at: s.subscribed_at,
                };
                updated.push(c);
            } else {
                updated.push(s);
            }
            i = i + 1;
        }
        self.subscribers = updated;
        proof {
            assert(self@.subscribers =~= with_confirmed(old(self)@, id).subscribers);
            assert(self@.tokens =~= with_confirmed(old(self)@, id).tokens);
            assert(self@ =~= with_confirmed(old(self)@, id));
        }
    }

    /// Returns every confirmed subscriber's email in store order, each
    /// re-validated at read time: a malformed stored address surfaces as a
    /// per-row parse failure instead of aborting the whole listing.
    pub fn list_confirmed_subscriber_emails(&self) -> (r: Vec<Result<SubscriberEmail, String>>)
        ensures
            r@.len() == confirmed_emails(self@.subscribers).len(),
            forall|k: int|
                0 <= k < r@.len() ==> (#[trigger] r@[k] is Ok <==> email_chars_ok(
                    confirmed_emails(self@.subscribers)[k],
                )),
            forall|k: int|
                0 <= k < r@.len() ==> (#[trigger] r@[k] matches Ok(e) ==> e@ == confirmed_emails(
                    self@.subscribers,
                )[k]),
            forall|k: int|
                0 <= k < r@.len() ==> (#[trigger] r@[k] matches Err(m) ==> m@ == confirmed_emails(
                    self@.subscribers,
                )[k] + " is not a valid subscriber email."@),
    {
        let n = self.subscribers.len();
        let mut r: Vec<Result<SubscriberEmail, String>> = Vec::new();
        let mut i: usize = 0;
        while i < n
            invariant
                0 <= i <= n,
                n == self.subscribers@.len(),
                r@.len() == confirmed_emails(self@.subscribers.take(i as int)).len(),
                forall|k: int|
                    0 <= k < r@.len() ==> (#[trigger] r@[k] is Ok <==> email_chars_ok(
                        confirmed_emails(self@.subscribers.take(i as int))[k],
                    )),
                forall|k: int|
                    0 <= k < r@.len() ==> (#[trigger] r@[k] matches Ok(e) ==> e@
                        == confirmed_emails(self@.subscribers.take(i as int))[k]),
                forall|k: int|
                    0 <= k < r@.len() ==> (#[trigger] r@[k] matches Err(m) ==> m@
                        == confirmed_emails(self@.subscribers.take(i as int))[k]
                        + " is not a valid subscriber email."@),
            decreases n - i,
        {
            proof {
                lemma_confirmed_emails_step(self@.subscribers, i as int);
            }
            let is_confirmed = match self.subscribers[i].status {
                SubscriberStatus::Confirmed => true,
                SubscriberStatus::PendingConfirmation => false,
            };
            if is_confirmed {
                let raw = self.subscribers[i].email.clone();
                r.push(SubscriberEmail::parse(raw));
            }
            i = i + 1;
        }
        proof {
            assert(self@.subscribers.take(n as int) =~= self@.subscribers);
        }
        r
    }

    /// Point lookup of a subscriber row by its (unique) email.
    pub fn find_subscriber_by_email(&self, email: &str) -> (r: Option<Subscriber>)
        requires
            store_inv(self@),
        ensures
            r is Some <==> has_email(self@.subscribers, email@),
            r matches Some(s) ==> exists|i: int|
                0 <= i < self@.subscribers.len() && #[trigger] self@.subscribers[i] == s@
                    && s@.email == email@,
    {
        let n = self.subscribers.len();
        let mut i: usize = 0;
        while i < n
            invariant
                0 <= i <= n,
                n == self.subscribers@.len(),
                forall|j: int| 0 <= j < i ==> #[trigger] self@.subscribers[j].email != email@,
            decreases n - i,
        {
            if str_eq(self.subscribers[i].email.as_str(), email) {
                let s = self.subscribers[i].clone();
                assert(self@.subscribers[i as int].email == email@);
                assert(self@.subscribers[i as int] == s@);
                return Some(s);
            }
            i = i + 1;
        }
        None
    }

    /// Number of subscriber rows.
    pub fn subscriber_count(&self) -> (r: usize)
        ensures
            r == self@.subscribers.len(),
    {
        self.subscribers.len()
    }

    /// Number of token rows.
    pub fn token_count(&self) -> (r: usize)
        ensures
            r == self@.tokens.len(),
    {
        self.tokens.len()
    }
}

impl Transaction {
    /// Discards every staged write; the store is left exactly as it was when
    /// the transaction began.
    pub fn rollback(self) {
    }

    /// Stages a new subscriber row in `pending_confirmation` state.
    /// Fails with `Conflict` when the email is already present and with
    /// `Constraint` when the id is; on failure nothing is staged.
    pub fn insert_subscriber(&mut self, id: u128, email: &str, name: &str, now: i64) -> (r: Result<
        (),
        StoreError,
    >)
        ensures
            r is Ok <==> !has_email(old(self)@.subscribers, email@) && !has_subscriber_id(
                old(self)@.subscribers,
                id,
            ),
            r is Ok ==> final(self)@.subscribers == old(self)@.subscribers.push(
                SubscriberView {
                    id,
                    email: email@,
                    name: name@,
                    status: SubscriberStatus::PendingConfirmation,
                    subscribed_at: now,
                },
            ) && final(self)@.tokens == old(self)@.tokens,
            r matches Err(e) ==> final(self)@ == old(self)@ && (e == StoreError::Conflict <==> has_email(
                old(self)@.subscribers,
                email@,
            )),
    {
        let n = self.state.subscribers.len();
        let mut i: usize = 0;
        while i < n
            invariant
                0 <= i <= n,
                n == self.state.subscribers@.len(),
                *self == *old(self),
                forall|j: int| 0 <= j < i ==> #[trigger] self@.subscribers[j].email != email@,
            decreases n - i,
        {
            if str_eq(self.state.subscribers[i].email.as_str(), email) {
                assert(self@.subscribers[i as int].email == email@);
                return Err(StoreError::Conflict);
            }
            i = i + 1;
        }
        let mut i: usize = 0;
        while i < n
            invariant
                0 <= i <= n,
                n == self.state.subscribers@.len(),
                *self == *old(self),
                forall|j: int| 0 <= j < n ==> #[trigger] self@.subscribers[j].email != email@,
                forall|j: int| 0 <= j < i ==> #[trigger] self@.subscribers[j].id != id,
            decreases n - i,
        {
            if self.state.subscribers[i].id == id {
                assert(self@.subscribers[i as int].id == id);
                return Err(StoreError::Constraint);
            }
            i = i + 1;
        }
        let sub = Subscriber {
            id,
            email: String::from_str(email),
            name: String::from_str(name),
            status: SubscriberStatus::PendingConfirmation,
            subscribed_at: now,
        };
        self.state.subscribers.push(sub);
        proof {
            assert(self@.subscribers =~= old(self)@.subscribers.push(
                SubscriberView {
                    id,
                    email: email@,
                    name: name@,
                    status: SubscriberStatus::PendingConfirmation,
                    subscribed_at: now,
                },
            ));
            assert(self@.tokens =~= old(self)@.tokens);
        }
        Ok(())
    }

    /// Stages a confirmation-token row for an already staged or stored
    /// subscriber. Fails with `Constraint` when the subscriber id is absent
    /// (referential integrity) or the token string is already present; on
    /// failure nothing is staged.
    pub fn store_token(&mut self, subscriber_id: u128, token: &str) -> (r: Result<(), StoreError>)
        ensures
            r is Ok <==> has_subscriber_id(old(self)@.subscribers, subscriber_id) && !has_token(
                old(self)@.tokens,
                token@,
            ),
            r is Ok ==> final(self)@.tokens == old(self)@.tokens.push(
                TokenView { token: token@, subscriber_id },
            ) && final(self)@.subscribers == old(self)@.subscribers,
            r is Err ==> final(self)@ == old(self)@,
    {
        let n = self.state.subscribers.len();
        let mut found: bool = false;
        let mut i: usize = 0;
        while i < n
            invariant
                0 <= i <= n,
                n == self.state.subscribers@.len(),
                *self == *old(self),
                found == exists|j: int|
                    0 <= j < i && #[trigger] self@.subscribers[j].id == subscriber_id,
            decreases n - i,
        {
            if self.state.subscribers[i].id == subscriber_id {
                assert(self@.subscribers[i as int].id == subscriber_id);
                found = true;
            } else {
                assert(self@.subscribers[i as int].id != subscriber_id);
            }
            i = i + 1;
        }
        if !found {
            return Err(StoreError::Constraint);
        }
        let m = self.state.tokens.len();
        let mut i: usize = 0;
        while i < m
            invariant
                0 <= i <= m,
                m == self.state.tokens@.len(),
                *self == *old(self),
                forall|j: int| 0 <= j < i ==> #[trigger] self@.tokens[j].token != token@,
            decreases m - i,
        {
            if str_eq(self.state.tokens[i].token.as_str(), token) {
                assert(self@.tokens[i as int].token == token@);
                return Err(StoreError::Constraint);
            }
            i = i + 1;
        }
        self.state.tokens.push(StoredToken { token: String::from_str(token), subscriber_id });
        proof {
            assert(self@.tokens =~= old(self)@.tokens.push(
                TokenView { token: token@, subscriber_id },
            ));
            assert(self@.subscribers =~= old(self)@.subscribers);
        }
        Ok(())
    }
}

} // verus!
