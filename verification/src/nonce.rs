//! Random alphanumeric nonces.
use vstd::prelude::*;

verus! {

/// An ASCII letter or digit.
pub open spec fn alphanumeric(c: char) -> bool {
    ('0' <= c && c <= '9') || ('a' <= c && c <= 'z') || ('A' <= c && c <= 'Z')
}

/// One sample of `rand`'s `Alphanumeric` distribution from the thread-local
/// generator. Trusted: whatever is drawn is the code of an ASCII letter or
/// digit.
#[verifier::external_body]
fn sample_alphanumeric() -> (c: char)
    ensures
        alphanumeric(c),
{
    let code: u8 = rand::Rng::sample(&mut rand::thread_rng(), rand::distributions::Alphanumeric);
    char::from(code)
}

/// `String::push`.
#[verifier::external_body]
fn push_char(text: &mut String, c: char)
    ensures
        final(text)@ == old(text)@.push(c),
{
    text.push(c)
}

/// Generate a random alphanumeric nonce of size `len`. Uses the
/// thread-local generator.
pub fn mk_nonce(len: usize) -> (nonce: String)
    ensures
        nonce@.len() == len,
        forall|i: int| 0 <= i < len ==> alphanumeric(#[trigger] nonce@[i]),
{
    let mut nonce = String::new();
    let mut i: usize = 0;
    while i < len
        invariant
            i <= len,
            nonce@.len() == i,
            forall|k: int| 0 <= k < i ==> alphanumeric(#[trigger] nonce@[k]),
        decreases len - i,
    {
        let c = sample_alphanumeric();
        push_char(&mut nonce, c);
        i += 1;
    }
    nonce
}

} // verus!
