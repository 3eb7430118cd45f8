//! The broadcast workflow: fan out one newsletter issue to every confirmed
//! subscriber, sequentially and in store order.
//!
//! Per-recipient failure isolation is asymmetric on purpose: a malformed
//! stored email is skipped (one bad legacy record never blocks the issue),
//! while a provider failure aborts the whole broadcast at once, because a
//! provider outage is taken to affect the following sends too.

use vstd::prelude::*;
use vstd::string::StringExecFns;
use crate::domain::email_chars_ok;
use crate::sender::EmailSender;
use crate::sender::SendRecordView;
use crate::sender::addr_fails;
use crate::store::Store;
use crate::store::SubscriberView;
use crate::store::confirmed_emails;
use crate::store::count_confirmed;
use crate::store::SubscriberStatus;

verus! {

/// A newsletter issue: a title and an HTML body.
pub struct BodyData {
    pub title: String,
    pub content: String,
}

/// Failures of the broadcast workflow, wrapping a description of the
/// failing step.
#[derive(Debug)]
pub enum PublishError {
    UnexpectedError(String),
}

impl PublishError {
    /// HTTP status class of the failure: always a server error.
    pub fn status_code(&self) -> (r: u16)
        ensures
            r == 500,
    {
        match self {
            PublishError::UnexpectedError(_) => 500,
        }
    }

    /// The wrapped message.
    pub fn message(&self) -> (r: &String)
        ensures
            self matches PublishError::UnexpectedError(m) ==> r@ == m@,
    {
        match self {
            PublishError::UnexpectedError(m) => m,
        }
    }
}

/// The delivery record for one address of one issue.
pub open spec fn send_record_of(addr: Seq<char>, subject: Seq<char>, html: Seq<char>)
    -> SendRecordView {
    SendRecordView { to: addr, subject: subject, html_body: html }
}

/// The delivery records for a sequence of addresses of one issue, in order.
pub open spec fn records_of(addrs: Seq<Seq<char>>, subject: Seq<char>, html: Seq<char>)
    -> Seq<SendRecordView> {
    Seq::new(addrs.len(), |i: int| send_record_of(addrs[i], subject, html))
}

/// The state of a broadcast: the addresses attempted so far, and the
/// address whose send failed, if one did.
#[verifier::ext_equal]
pub struct BroadcastRun {
    pub attempts: Seq<Seq<char>>,
    pub failed: Option<Seq<char>>,
}

/// The broadcast over the first `n` rows of the confirmed listing: each row
/// is skipped when malformed, attempted otherwise, and the run stops at the
/// first attempt whose address the provider fails for.
pub open spec fn broadcast_run(rows: Seq<Seq<char>>, failing: Seq<Seq<char>>, n: int)
    -> BroadcastRun
    decreases n,
{
    if n <= 0 {
        BroadcastRun { attempts: Seq::empty(), failed: None }
    } else {
        let prev = broadcast_run(rows, failing, n - 1);
        if prev.failed is Some {
            prev
        } else if !email_chars_ok(rows[n - 1]) {
            prev
        } else if addr_fails(failing, rows[n - 1]) {
            BroadcastRun { attempts: prev.attempts.push(rows[n - 1]), failed: Some(rows[n - 1]) }
        } else {
            BroadcastRun { attempts: prev.attempts.push(rows[n - 1]), failed: None }
        }
    }
}

/// Once a run has failed it is frozen: later rows change nothing.
proof fn lemma_run_frozen(rows: Seq<Seq<char>>, failing: Seq<Seq<char>>, m: int, n: int)
    requires
        0 <= m <= n,
        broadcast_run(rows, failing, m).failed is Some,
    ensures
        broadcast_run(rows, failing, n) == broadcast_run(rows, failing, m),
    decreases n - m,
{
    if m < n {
        lemma_run_frozen(rows, failing, m, n - 1);
    }
}

/// Publishes one issue: fetches the confirmed listing, skips rows whose
/// stored email no longer parses, and sends the issue to every remaining
/// address in order, aborting on the first failed send with an error naming
/// the failing recipient.
pub fn publish_newsletter(store: &Store, sender: &mut EmailSender, body: &BodyData) -> (r: Result<
    (),
    PublishError,
>)
    ensures
        ({
            let rows = confirmed_emails(store@.subscribers);
            let run = broadcast_run(rows, old(sender)@.failing, rows.len() as int);
            &&& final(sender)@.failing == old(sender)@.failing
            &&& final(sender)@.sent == old(sender)@.sent + records_of(
                run.attempts,
                body.title@,
                body.content@,
            )
            &&& r is Ok <==> run.failed is None
            &&& (r matches Err(PublishError::UnexpectedError(m)) ==> (run.failed matches Some(a)
                && m@ == "Failed to send newsletter issue to "@ + a))
        }),
{
    let ghost rows = confirmed_emails(store@.subscribers);
    let ghost failing = old(sender)@.failing;
    let listing = store.list_confirmed_subscriber_emails();
    let n = listing.len();
    let mut i: usize = 0;
    while i < n
        invariant
            0 <= i <= n,
            n == rows.len(),
            rows == confirmed_emails(store@.subscribers),
            failing == old(sender)@.failing,
            listing@.len() == rows.len(),
            forall|k: int|
                0 <= k < rows.len() ==> (#[trigger] listing@[k] is Ok <==> email_chars_ok(
                    rows[k],
                )),
            forall|k: int|
                0 <= k < rows.len() ==> (#[trigger] listing@[k] matches Ok(e) ==> e@ == rows[k]),
            sender@.failing == old(sender)@.failing,
            broadcast_run(rows, failing, i as int).failed is None,
            sender@.sent == old(sender)@.sent + records_of(
                broadcast_run(rows, failing, i as int).attempts,
                body.title@,
                body.content@,
            ),
        decreases n - i,
    {
        let ghost prev = broadcast_run(rows, failing, i as int);
        let ghost next = broadcast_run(rows, failing, i as int + 1);
        match &listing[i] {
            Ok(email) => {
                assert(email_chars_ok(rows[i as int]));
                let delivered = sender.send(email.as_str(), body.title.as_str(),
                    body.content.as_str());
                proof {
                    assert(next.attempts == prev.attempts.push(rows[i as int]));
                    assert(records_of(next.attempts, body.title@, body.content@) =~= records_of(
                        prev.attempts,
                        body.title@,
                        body.content@,
                    ).push(send_record_of(rows[i as int], body.title@, body.content@)));
                    assert(sender@.sent =~= old(sender)@.sent + records_of(
                        next.attempts,
                        body.title@,
                        body.content@,
                    ));
                }
                if !delivered {
                    proof {
                        assert(next.failed == Some(rows[i as int]));
                        lemma_run_frozen(rows, failing, i as int + 1, rows.len() as int);
                    }
                    let mut m = String::from_str("Failed to send newsletter issue to ");
                    m.append(email.as_str());
                    return Err(PublishError::UnexpectedError(m));
                }
            },
            Err(_) => {
                proof {
                    assert(!email_chars_ok(rows[i as int]));
                    assert(next == prev);
                }
            },
        }
        i = i + 1;
    }
    Ok(())
}

/// `addr` is the stored email of some confirmed subscriber.
pub open spec fn is_confirmed_email_of(subs: Seq<SubscriberView>, addr: Seq<char>) -> bool {
    exists|i: int|
        0 <= i < subs.len() && #[trigger] subs[i].status == SubscriberStatus::Confirmed
            && subs[i].email == addr
}

proof fn lemma_confirmed_emails_members(subs: Seq<SubscriberView>)
    ensures
        forall|k: int|
            0 <= k < confirmed_emails(subs).len() ==> is_confirmed_email_of(
                subs,
                #[trigger] confirmed_emails(subs)[k],
            ),
    decreases subs.len(),
{
    if subs.len() > 0 {
        lemma_confirmed_emails_members(subs.drop_last());
        let ce = confirmed_emails(subs);
        let ced = confirmed_emails(subs.drop_last());
        assert forall|k: int| 0 <= k < ce.len() implies is_confirmed_email_of(
            subs,
            #[trigger] ce[k],
        ) by {
            if k < ced.len() {
                assert(ce[k] == ced[k]);
                assert(is_confirmed_email_of(subs.drop_last(), ced[k]));
                let w = choose|i: int|
                    0 <= i < subs.drop_last().len() && #[trigger] subs.drop_last()[i].status
                        == SubscriberStatus::Confirmed && subs.drop_last()[i].email == ced[k];
                assert(subs[w].status == SubscriberStatus::Confirmed && subs[w].email == ce[k]);
            } else {
                assert(subs.last().status == SubscriberStatus::Confirmed);
                assert(subs[subs.len() - 1].status == SubscriberStatus::Confirmed && subs[subs.len()
                    - 1].email == ce[k]);
            }
        }
    }
}

/// The confirmed listing has exactly one row per confirmed subscriber.
pub proof fn lemma_confirmed_emails_len(subs: Seq<SubscriberView>)
    ensures
        confirmed_emails(subs).len() == count_confirmed(subs),
    decreases subs.len(),
{
    if subs.len() > 0 {
        lemma_confirmed_emails_len(subs.drop_last());
    }
}

proof fn lemma_run_attempts_from_rows(rows: Seq<Seq<char>>, failing: Seq<Seq<char>>, n: int)
    requires
        n <= rows.len(),
    ensures
        forall|k: int|
            #![trigger broadcast_run(rows, failing, n).attempts[k]]
            0 <= k < broadcast_run(rows, failing, n).attempts.len() ==> exists|j: int|
                0 <= j < n && #[trigger] rows[j] == broadcast_run(rows, failing, n).attempts[k],
    decreases n,
{
    if n > 0 {
        lemma_run_attempts_from_rows(rows, failing, n - 1);
        let prev = broadcast_run(rows, failing, n - 1);
        let run = broadcast_run(rows, failing, n);
        assert forall|k: int| #![trigger run.attempts[k]] 0 <= k < run.attempts.len() implies exists|j: int|
            0 <= j < n && #[trigger] rows[j] == run.attempts[k] by {
            if k < prev.attempts.len() {
                let w = choose|j: int| 0 <= j < n - 1 && #[trigger] rows[j] == prev.attempts[k];
                assert(rows[w] == run.attempts[k]);
            } else {
                assert(rows[n - 1] == run.attempts[k]);
            }
        }
    }
}

/// The broadcast never reaches a pending subscriber: every attempted
/// address is the stored email of some confirmed subscriber.
pub proof fn lemma_publish_never_reaches_pending(subs: Seq<SubscriberView>, failing: Seq<
    Seq<char>,
>)
    ensures
        ({
            let rows = confirmed_emails(subs);
            let run = broadcast_run(rows, failing, rows.len() as int);
            forall|k: int|
                0 <= k < run.attempts.len() ==> is_confirmed_email_of(
                    subs,
                    #[trigger] run.attempts[k],
                )
        }),
{
    let rows = confirmed_emails(subs);
    let run = broadcast_run(rows, failing, rows.len() as int);
    lemma_confirmed_emails_members(subs);
    lemma_run_attempts_from_rows(rows, failing, rows.len() as int);
    assert forall|k: int| 0 <= k < run.attempts.len() implies is_confirmed_email_of(
        subs,
        #[trigger] run.attempts[k],
    ) by {
        let j = choose|j: int| 0 <= j < rows.len() && #[trigger] rows[j] == run.attempts[k];
        assert(is_confirmed_email_of(subs, rows[j]));
    }
}

proof fn lemma_run_all_valid(rows: Seq<Seq<char>>, failing: Seq<Seq<char>>, n: int)
    requires
        0 <= n <= rows.len(),
        forall|j: int|
            0 <= j < n ==> email_chars_ok(#[trigger] rows[j]) && !addr_fails(failing, rows[j]),
    ensures
        broadcast_run(rows, failing, n).failed is None,
        broadcast_run(rows, failing, n).attempts == rows.take(n),
    decreases n,
{
    if n > 0 {
        lemma_run_all_valid(rows, failing, n - 1);
        assert(broadcast_run(rows, failing, n).attempts =~= rows.take(n));
    } else {
        assert(broadcast_run(rows, failing, n).attempts =~= rows.take(n));
    }
}

/// When every confirmed subscriber's stored email is well formed and the
/// provider fails for none of them, the broadcast attempts exactly one
/// delivery per confirmed subscriber — however many pending subscribers the
/// store also holds — and succeeds.
pub proof fn lemma_publish_reaches_every_confirmed(subs: Seq<SubscriberView>, failing: Seq<
    Seq<char>,
>)
    requires
        forall|i: int|
            0 <= i < subs.len() && #[trigger] subs[i].status == SubscriberStatus::Confirmed
                ==> email_chars_ok(subs[i].email) && !addr_fails(failing, subs[i].email),
    ensures
        ({
            let rows = confirmed_emails(subs);
            let run = broadcast_run(rows, failing, rows.len() as int);
            &&& run.failed is None
            &&& run.attempts == rows
            &&& run.attempts.len() == count_confirmed(subs)
        }),
{
    let rows = confirmed_emails(subs);
    lemma_confirmed_emails_members(subs);
    assert forall|j: int| 0 <= j < rows.len() implies email_chars_ok(#[trigger] rows[j])
        && !addr_fails(failing, rows[j]) by {
        let i = choose|i: int|
            0 <= i < subs.len() && #[trigger] subs[i].status == SubscriberStatus::Confirmed
                && subs[i].email == rows[j];
        assert(email_chars_ok(subs[i].email));
    }
    lemma_run_all_valid(rows, failing, rows.len() as int);
    assert(rows.take(rows.len() as int) =~= rows);
    lemma_confirmed_emails_len(subs);
}

proof fn lemma_run_one_invalid(rows: Seq<Seq<char>>, failing: Seq<Seq<char>>, k: int, n: int)
    requires
        0 <= k < rows.len(),
        0 <= n <= rows.len(),
        !email_chars_ok(rows[k]),
        forall|j: int| 0 <= j < rows.len() && j != k ==> email_chars_ok(#[trigger] rows[j]),
        forall|j: int| 0 <= j < rows.len() ==> !addr_fails(failing, #[trigger] rows[j]),
    ensures
        broadcast_run(rows, failing, n).failed is None,
        broadcast_run(rows, failing, n).attempts == if n <= k {
            rows.take(n)
        } else {
            rows.take(k) + rows.subrange(k + 1, n)
        },
    decreases n,
{
    if n > 0 {
        lemma_run_one_invalid(rows, failing, k, n - 1);
        if n <= k {
            assert(broadcast_run(rows, failing, n).attempts =~= rows.take(n));
        } else if n - 1 == k {
            assert(broadcast_run(rows, failing, n).attempts =~= rows.take(k) + rows.subrange(
                k + 1,
                n,
            ));
        } else {
            assert(broadcast_run(rows, failing, n).attempts =~= rows.take(k) + rows.subrange(
                k + 1,
                n,
            ));
        }
    } else {
        assert(broadcast_run(rows, failing, n).attempts =~= rows.take(n));
    }
}

/// A single malformed stored email among otherwise valid confirmed rows
/// causes exactly one skip: the broadcast still succeeds and attempts every
/// other row, in order. `rows` is the confirmed listing.
pub proof fn lemma_publish_skips_single_malformed(
    rows: Seq<Seq<char>>,
    failing: Seq<Seq<char>>,
    k: int,
)
    requires
        0 <= k < rows.len(),
        !email_chars_ok(rows[k]),
        forall|j: int| 0 <= j < rows.len() && j != k ==> email_chars_ok(#[trigger] rows[j]),
        forall|j: int| 0 <= j < rows.len() ==> !addr_fails(failing, #[trigger] rows[j]),
    ensures
        ({
            let run = broadcast_run(rows, failing, rows.len() as int);
            &&& run.failed is None
            &&& run.attempts == rows.take(k) + rows.subrange(k + 1, rows.len() as int)
            &&& run.attempts.len() == rows.len() - 1
        }),
{
    lemma_run_one_invalid(rows, failing, k, rows.len() as int);
}

} // verus!
