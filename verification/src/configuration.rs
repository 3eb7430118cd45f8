//! The configurable values the core works with. Reading configuration files
//! and building connection options belong to the adapters around the
//! library; the library only models the values and the environment name.

use vstd::prelude::*;
use vstd::string::StrSliceExecFns;
use vstd::string::StringExecFns;

verus! {

/// Settings of the HTTP application around the service.
pub struct ApplicationSettings {
    pub host: String,
    pub port: u16,
    pub base_url: String,
}

/// The deployment environment.
#[derive(Clone, Copy, PartialEq, Eq, Structural, Debug)]
pub enum Environment {
    Dev,
    Prod,
}

/// `b` is `a` with an ASCII uppercase letter lowered, and `a` otherwise.
pub open spec fn lowered_char(a: char, b: char) -> bool {
    if 65 <= a as u32 <= 90 {
        b as u32 == a as u32 + 32
    } else {
        b == a
    }
}

/// `t` is `s` lowercased, character by character (ASCII case folding).
pub open spec fn lowered(s: Seq<char>, t: Seq<char>) -> bool {
    s.len() == t.len() && forall|i: int| 0 <= i < s.len() ==> lowered_char(s[i], #[trigger] t[i])
}

fn matches_lowered(s: &str, t: &str) -> (b: bool)
    ensures
        b == lowered(s@, t@),
{
    let ns = s.unicode_len();
    let nt = t.unicode_len();
    if ns != nt {
        return false;
    }
    let mut i: usize = 0;
    while i < ns
        invariant
            0 <= i <= ns,
            ns == s@.len(),
            nt == t@.len(),
            ns == nt,
            forall|j: int| 0 <= j < i ==> lowered_char(s@[j], #[trigger] t@[j]),
        decreases ns - i,
    {
        let a = s.get_char(i);
        let c = t.get_char(i);
        let au = a as u32;
        let ok = if 65 <= au && au <= 90 {
            c as u32 == au + 32
        } else {
            a == c
        };
        if !ok {
            assert(!lowered_char(s@[i as int], t@[i as int]));
            return false;
        }
        i = i + 1;
    }
    true
}

impl Environment {
    /// The canonical name of the environment.
    pub fn as_str(self) -> (r: &'static str)
        ensures
            self is Dev ==> r@ == "dev"@,
            self is Prod ==> r@ == "prod"@,
    {
        match self {
            Environment::Dev => "dev",
            Environment::Prod => "prod",
        }
    }

    /// Parses an environment name, ignoring ASCII case; anything but `dev`
    /// and `prod` is rejected with a message naming the input.
    pub fn parse(s: &str) -> (r: Result<Environment, String>)
        ensures
            r == Ok::<Environment, String>(Environment::Dev) <==> lowered(s@, "dev"@),
            r == Ok::<Environment, String>(Environment::Prod) <==> lowered(s@, "prod"@),
            r matches Err(m) ==> m@ == s@
                + " is not a supported environment. Use either `dev` or `prod`."@,
    {
        proof {
            reveal_strlit("dev");
            reveal_strlit("prod");
        }
        if matches_lowered(s, "dev") {
            return Ok(Environment::Dev);
        }
        if matches_lowered(s, "prod") {
            return Ok(Environment::Prod);
        }
        Err(
            String::from_str(s).concat(
                " is not a supported environment. Use either `dev` or `prod`.",
            ),
        )
    }
}

} // verus!
