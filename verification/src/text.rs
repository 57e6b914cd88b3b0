use vstd::prelude::*;
use vstd::string::StrSliceExecFns;

verus! {

/// The uppercase image of a single character: the ASCII letters `a`..`z` map
/// to `A`..`Z`, every other character is left unchanged.
pub open spec fn upper_char(c: char) -> char {
    if 97 <= c as u32 && c as u32 <= 122 {
        ((c as u32) - 32) as char
    } else {
        c
    }
}

/// The uppercase image of a character sequence, character by character.
pub open spec fn upper_seq(s: Seq<char>) -> Seq<char> {
    Seq::new(s.len(), |i: int| upper_char(s[i]))
}

/// Uppercasing a character twice is the same as uppercasing it once.
pub proof fn lemma_upper_char_idempotent(c: char)
    ensures
        upper_char(upper_char(c)) == upper_char(c),
{
    broadcast use vstd::utf8::char_u32_cast;

    if 97 <= c as u32 && c as u32 <= 122 {
        let u: u32 = (c as u32 - 32) as u32;
        assert((u as char) as u32 == u);
    }
}

/// Uppercasing a character sequence twice is the same as uppercasing it once.
pub proof fn lemma_upper_seq_idempotent(s: Seq<char>)
    ensures
        upper_seq(upper_seq(s)) == upper_seq(s),
{
    assert forall|i: int| 0 <= i < s.len() implies #[trigger] upper_seq(upper_seq(s))[i]
        == upper_seq(s)[i] by {
        lemma_upper_char_idempotent(s[i]);
    }
    assert(upper_seq(upper_seq(s)) =~= upper_seq(s));
}

/// Relies on String::push: appends the given character at the end of the string.
#[verifier::external_body]
fn push_char(s: &mut String, c: char)
    ensures
        final(s)@ == old(s)@.push(c),
{
    s.push(c);
}

fn upper_char_exec(c: char) -> (r: char)
    ensures
        r == upper_char(c),
{
    let u: u32 = c as u32;
    if 97 <= u && u <= 122 {
        proof {
            broadcast use vstd::utf8::char_u32_cast;
        }
        ((u - 32) as u8) as char
    } else {
        c
    }
}

/// Returns the uppercase form of a string, character by character.
pub fn to_upper(s: &str) -> (r: String)
    ensures
        r@ == upper_seq(s@),
{
    let n = s.unicode_len();
    let mut out = String::new();
    let mut i: usize = 0;
    while i < n
        invariant
            i <= n,
            n == s@.len(),
            out@ == upper_seq(s@).take(i as int),
        decreases n - i,
    {
        let c = s.get_char(i);
        push_char(&mut out, upper_char_exec(c));
        proof {
            assert(out@ =~= upper_seq(s@).take(i + 1));
        }
        i = i + 1;
    }
    proof {
        assert(upper_seq(s@).take(n as int) =~= upper_seq(s@));
    }
    out
}

} // verus!
