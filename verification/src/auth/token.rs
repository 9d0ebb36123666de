//! Bearer tokens: opaque printable text that names a login session.

use vstd::prelude::*;
use vstd::string::{StrSliceExecFns, StringExecFns};
use rand::Rng;

verus! {

/// How many characters a generated token has. Each carries a little over
/// six bits, so twenty of them carry more than 128.
pub const TOKEN_WIDTH: usize = 20;

/// The first printable ASCII character, the space.
pub const PRINTABLE_LOW: u8 = 0x20;

/// The end of the range that token characters are drawn from; the range
/// does not include it.
pub const PRINTABLE_HIGH: u8 = 0x7e;

/// A bearer credential. It is kept apart from other text so that it is not
/// logged or compared by accident.
#[derive(Clone, PartialEq, Eq)]
pub struct AuthToken {
    pub token: String,
}

/// The scheme under which a token travels in an `Authorization` header.
pub const SCHEME: &'static str = "Bearer";

/// Whether `c` is a space or a tab: the blanks that a header can hold.
pub open spec fn is_blank(c: char) -> bool {
    c == ' ' || c == '\t'
}

/// How many blanks `s` starts with.
pub open spec fn spec_leading_blanks(s: Seq<char>) -> nat
    decreases s.len(),
{
    if s.len() > 0 && is_blank(s[0]) {
        1 + spec_leading_blanks(s.skip(1))
    } else {
        0
    }
}

/// The token that the header text `header` carries: what follows the
/// scheme and the blanks after it.
pub open spec fn spec_decode(header: Seq<char>) -> Seq<char> {
    let rest = header.skip(SCHEME@.len() as int);
    rest.skip(spec_leading_blanks(rest) as int)
}

/// A text that starts with `k` blanks and goes on with something else
/// starts with exactly `k` blanks.
pub proof fn lemma_leading_blanks(s: Seq<char>, k: int)
    requires
        0 <= k <= s.len(),
        forall|j: int| 0 <= j < k ==> is_blank(s[j]),
        k < s.len() ==> !is_blank(s[k]),
    ensures
        spec_leading_blanks(s) == k,
    decreases k,
{
    if k > 0 {
        let rest = s.skip(1);
        assert forall|j: int| 0 <= j < k - 1 implies is_blank(rest[j]) by {
            assert(rest[j] == s[j + 1]);
        }
        if k - 1 < rest.len() {
            assert(rest[k - 1] == s[k]);
        }
        lemma_leading_blanks(rest, k - 1);
    }
}

/// Whether `c` is one of the characters that tokens are made of.
pub open spec fn is_token_char(c: char) -> bool {
    PRINTABLE_LOW <= c as u32 && (c as u32) < PRINTABLE_HIGH
}

/// Draws a byte from `low..high` with the thread's random number generator.
/// Trusted: `rand::Rng::gen_range` on a half-open range returns a member
/// of the range.
#[verifier::external_body]
fn random_byte(low: u8, high: u8) -> (b: u8)
    requires
        low < high,
    ensures
        low <= b < high,
{
    rand::thread_rng().gen_range(low..high)
}

impl AuthToken {
    /// A token is well formed if it has the width and the characters of a
    /// generated one.
    pub open spec fn wf(self) -> bool {
        &&& self.token@.len() == TOKEN_WIDTH
        &&& forall|i: int| 0 <= i < self.token@.len() ==> is_token_char(#[trigger] self.token@[i])
    }

    /// Reads the token from the text of an `Authorization` header, which
    /// starts with the scheme.
    pub fn decode(header: &str) -> (t: AuthToken)
        requires
            header@.len() >= SCHEME@.len(),
            header@.take(SCHEME@.len() as int) == SCHEME@,
        ensures
            t.token@ == spec_decode(header@),
    {
        proof {
            reveal_strlit("Bearer");
        }
        let len = header.unicode_len();
        let start: usize = 6;
        let ghost rest = header@.skip(6);
        let mut i: usize = start;
        while i < len && (header.get_char(i) == ' ' || header.get_char(i) == '\t')
            invariant
                start <= i <= len,
                start == 6,
                len == header@.len(),
                rest == header@.skip(6),
                forall|j: int| 0 <= j < i - start ==> is_blank(rest[j]),
            decreases len - i,
        {
            i += 1;
        }
        proof {
            lemma_leading_blanks(rest, i - start);
            assert(header@.subrange(i as int, len as int) =~= rest.skip(i - start));
        }
        AuthToken { token: header.substring_char(i, len).to_owned() }
    }

    /// The text of the `Authorization` header that carries this token.
    pub fn encode(&self) -> (header: String)
        ensures
            header@ == SCHEME@ + " "@ + self.token@,
    {
        let mut header = SCHEME.to_owned();
        header.append(" ");
        header.append(self.token.as_str());
        header
    }

    /// A fresh random token of [`TOKEN_WIDTH`] printable characters.
    pub fn generate() -> (t: AuthToken)
        ensures
            t.wf(),
    {
        let mut token = String::new();
        let mut i: usize = 0;
        while i < TOKEN_WIDTH
            invariant
                i <= TOKEN_WIDTH,
                token@.len() == i,
                forall|k: int| 0 <= k < token@.len() ==> is_token_char(#[trigger] token@[k]),
            decreases TOKEN_WIDTH - i,
        {
            let c = random_byte(PRINTABLE_LOW, PRINTABLE_HIGH);
            token.push(c as char);
            i += 1;
        }
        AuthToken { token }
    }
}

} // verus!
