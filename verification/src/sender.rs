//! In-memory model of the outbound email capability: one operation that
//! sends a subject and an HTML body to one address and reports success or
//! failure. The model records every attempted delivery and can be primed
//! with addresses for which the provider fails.

use vstd::prelude::*;
use vstd::string::StringExecFns;
use crate::text::str_eq;

verus! {

/// One attempted delivery, as handed to the provider.
pub struct SendRecord {
    pub to: String,
    pub subject: String,
    pub html_body: String,
}

/// Mathematical model of an attempted delivery.
#[verifier::ext_equal]
pub struct SendRecordView {
    pub to: Seq<char>,
    pub subject: Seq<char>,
    pub html_body: Seq<char>,
}

impl View for SendRecord {
    type V = SendRecordView;

    open spec fn view(&self) -> SendRecordView {
        SendRecordView { to: self.to@, subject: self.subject@, html_body: self.html_body@ }
    }
}

/// The provider fails for this address.
pub open spec fn addr_fails(failing: Seq<Seq<char>>, addr: Seq<char>) -> bool {
    exists|i: int| 0 <= i < failing.len() && failing[i] == addr
}

/// The in-memory email sender.
pub struct EmailSender {
    failing: Vec<String>,
    sent: Vec<SendRecord>,
}

/// Mathematical model of the sender: the failing addresses and the log of
/// attempted deliveries, in order.
#[verifier::ext_equal]
pub struct EmailSenderView {
    pub failing: Seq<Seq<char>>,
    pub sent: Seq<SendRecordView>,
}

impl View for EmailSender {
    type V = EmailSenderView;

    closed spec fn view(&self) -> EmailSenderView {
        EmailSenderView {
            failing: Seq::new(self.failing@.len(), |i: int| self.failing@[i]@),
            sent: Seq::new(self.sent@.len(), |i: int| self.sent@[i]@),
        }
    }
}

impl EmailSender {
    /// A sender that delivers everything.
    pub fn new() -> (r: EmailSender)
        ensures
            r@.failing.len() == 0,
            r@.sent.len() == 0,
    {
        EmailSender { failing: Vec::new(), sent: Vec::new() }
    }

    /// A sender whose provider fails for exactly the given addresses.
    pub fn with_failures(failing: Vec<String>) -> (r: EmailSender)
        ensures
            r@.failing.len() == failing@.len(),
            forall|i: int| 0 <= i < failing@.len() ==> #[trigger] r@.failing[i] == failing@[i]@,
            r@.sent.len() == 0,
    {
        EmailSender { failing, sent: Vec::new() }
    }

    /// Attempts one delivery. The attempt is always recorded; it succeeds
    /// exactly when the address is not in the failing set.
    pub fn send(&mut self, to: &str, subject: &str, html_body: &str) -> (ok: bool)
        ensures
            final(self)@.failing == old(self)@.failing,
            final(self)@.sent == old(self)@.sent.push(
                SendRecordView { to: to@, subject: subject@, html_body: html_body@ },
            ),
            ok == !addr_fails(old(self)@.failing, to@),
    {
        let n = self.failing.len();
        let mut fails: bool = false;
        let mut i: usize = 0;
        while i < n
            invariant
                0 <= i <= n,
                n == self.failing@.len(),
                *self == *old(self),
                fails == exists|j: int| 0 <= j < i && #[trigger] self@.failing[j] == to@,
            decreases n - i,
        {
            if str_eq(self.failing[i].as_str(), to) {
                assert(self@.failing[i as int] == to@);
                fails = true;
            } else {
                assert(self@.failing[i as int] != to@);
            }
            i = i + 1;
        }
        self.sent.push(
            SendRecord {
                to: String::from_str(to),
                subject: String::from_str(subject),
                html_body: String::from_str(html_body),
            },
        );
        proof {
            assert(self@.sent =~= old(self)@.sent.push(
                SendRecordView { to: to@, subject: subject@, html_body: html_body@ },
            ));
            assert(self@.failing =~= old(self)@.failing);
        }
        !fails
    }

    /// The log of attempted deliveries, in order.
    pub fn sent(&self) -> (r: &Vec<SendRecord>)
        ensures
            r@.len() == self@.sent.len(),
            forall|i: int| 0 <= i < r@.len() ==> #[trigger] r@[i]@ == self@.sent[i],
    {
        &self.sent
    }

    /// Number of attempted deliveries so far.
    pub fn sent_count(&self) -> (r: usize)
        ensures
            r == self@.sent.len(),
    {
        self.sent.len()
    }
}

} // verus!
