//! Validated value objects: subscriber names and email addresses.
//!
//! Both types follow parse-don't-validate: the only way to obtain a value is
//! through `parse`, which rejects malformed input at the boundary.

use vstd::prelude::*;
use vstd::string::StrSliceExecFns;
use vstd::string::StringExecFns;

verus! {

/// ASCII whitespace, the only whitespace these rules recognise.
pub open spec fn is_whitespace_char(c: char) -> bool {
    c == ' ' || c == '\t' || c == '\n' || c == '\r'
}

/// Characters that may not appear in a subscriber name.
pub open spec fn is_forbidden_name_char(c: char) -> bool {
    c == '/' || c == '(' || c == ')' || c == '"' || c == '<' || c == '>' || c == '\\' || c == '{'
        || c == '}'
}

/// A subscriber name is valid when it is at most 256 characters long,
/// contains at least one non-whitespace character, and contains no
/// forbidden character.
pub open spec fn name_chars_ok(s: Seq<char>) -> bool {
    &&& s.len() <= 256
    &&& exists|i: int| 0 <= i < s.len() && !is_whitespace_char(s[i])
    &&& forall|i: int| 0 <= i < s.len() ==> !is_forbidden_name_char(s[i])
}

/// Number of `@` signs in a character sequence.
pub open spec fn at_sign_count(s: Seq<char>) -> nat
    decreases s.len(),
{
    if s.len() == 0 {
        0
    } else {
        at_sign_count(s.drop_last()) + if s.last() == '@' {
            1nat
        } else {
            0nat
        }
    }
}

/// An email address is valid when it is non-empty, free of whitespace, and
/// contains exactly one `@` sign that is neither its first nor its last
/// character.
pub open spec fn email_chars_ok(s: Seq<char>) -> bool {
    &&& 0 < s.len()
    &&& at_sign_count(s) == 1
    &&& s[0] != '@'
    &&& s[s.len() - 1] != '@'
    &&& forall|i: int| 0 <= i < s.len() ==> !is_whitespace_char(s[i])
}

proof fn lemma_at_sign_count_step(s: Seq<char>, i: int)
    requires
        0 <= i < s.len(),
    ensures
        at_sign_count(s.take(i + 1)) == at_sign_count(s.take(i)) + if s[i] == '@' {
            1nat
        } else {
            0nat
        },
{
    assert(s.take(i + 1).drop_last() =~= s.take(i));
    assert(s.take(i + 1).last() == s[i]);
}

fn check_email(s: &str) -> (b: bool)
    ensures
        b == email_chars_ok(s@),
{
    let n = s.unicode_len();
    if n == 0 {
        return false;
    }
    if s.get_char(0) == '@' || s.get_char(n - 1) == '@' {
        return false;
    }
    let mut ats: usize = 0;
    let mut i: usize = 0;
    while i < n
        invariant
            0 <= i <= n,
            n == s@.len(),
            ats == at_sign_count(s@.take(i as int)),
            ats <= i,
            forall|j: int| 0 <= j < i ==> !is_whitespace_char(s@[j]),
        decreases n - i,
    {
        let c = s.get_char(i);
        if c == ' ' || c == '\t' || c == '\n' || c == '\r' {
            return false;
        }
        proof {
            lemma_at_sign_count_step(s@, i as int);
        }
        if c == '@' {
            ats = ats + 1;
        }
        i = i + 1;
    }
    proof {
        assert(s@.take(n as int) =~= s@);
    }
    ats == 1
}

fn check_name(s: &str) -> (b: bool)
    ensures
        b == name_chars_ok(s@),
{
    let n = s.unicode_len();
    if n > 256 {
        return false;
    }
    let mut seen_non_ws: bool = false;
    let mut i: usize = 0;
    while i < n
        invariant
            0 <= i <= n,
            n == s@.len(),
            seen_non_ws == exists|j: int| 0 <= j < i && !is_whitespace_char(s@[j]),
            forall|j: int| 0 <= j < i ==> !is_forbidden_name_char(s@[j]),
        decreases n - i,
    {
        let c = s.get_char(i);
        if c == '/' || c == '(' || c == ')' || c == '"' || c == '<' || c == '>' || c == '\\' || c
            == '{' || c == '}' {
            return false;
        }
        if !(c == ' ' || c == '\t' || c == '\n' || c == '\r') {
            seen_non_ws = true;
        }
        i = i + 1;
    }
    seen_non_ws
}

/// A validated email address; its view is the address itself.
pub struct SubscriberEmail {
    inner: String,
}

impl View for SubscriberEmail {
    type V = Seq<char>;

    closed spec fn view(&self) -> Seq<char> {
        self.inner@
    }
}

impl SubscriberEmail {
    /// Accepts exactly the inputs that `email_chars_ok` admits; the error
    /// message names the rejected input.
    pub fn parse(s: String) -> (r: Result<SubscriberEmail, String>)
        ensures
            r is Ok <==> email_chars_ok(s@),
            r matches Ok(e) ==> e@ == s@,
            r matches Err(m) ==> m@ == s@ + " is not a valid subscriber email."@,
    {
        if check_email(s.as_str()) {
            Ok(SubscriberEmail { inner: s })
        } else {
            Err(s.concat(" is not a valid subscriber email."))
        }
    }

    pub fn as_str(&self) -> (r: &str)
        ensures
            r@ == self@,
    {
        self.inner.as_str()
    }
}

/// A validated display name; its view is the name itself.
pub struct SubscriberName {
    inner: String,
}

impl View for SubscriberName {
    type V = Seq<char>;

    closed spec fn view(&self) -> Seq<char> {
        self.inner@
    }
}

impl SubscriberName {
    /// Accepts exactly the inputs that `name_chars_ok` admits; the error
    /// message names the rejected input.
    pub fn parse(s: String) -> (r: Result<SubscriberName, String>)
        ensures
            r is Ok <==> name_chars_ok(s@),
            r matches Ok(e) ==> e@ == s@,
            r matches Err(m) ==> m@ == s@ + " is not a valid subscriber name."@,
    {
        if check_name(s.as_str()) {
            Ok(SubscriberName { inner: s })
        } else {
            Err(s.concat(" is not a valid subscriber name."))
        }
    }

    pub fn as_str(&self) -> (r: &str)
        ensures
            r@ == self@,
    {
        self.inner.as_str()
    }
}

/// A fully validated subscription request: the output of parsing a raw form.
pub struct NewSubscriber {
    pub email: SubscriberEmail,
    pub name: SubscriberName,
}

} // verus!
