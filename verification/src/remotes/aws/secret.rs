//! Credentials that are kept out of sight and wiped from memory.

use secrecy::{ExposeSecret, SecretString};
use vstd::prelude::*;
use zeroize::Zeroize;

verus! {

/// A text that is only handed out on request. It is held in a `secrecy::SecretString`, whose own `Drop`
/// wipes it from memory; no contract speaks of that.
#[verifier::external_body]
pub struct Secret {
    inner: SecretString,
}

/// The text that a secret holds: what `secrecy::ExposeSecret::expose_secret` returns.
pub uninterp spec fn exposed(secret: Secret) -> Seq<char>;

/// A text of NUL characters, as long as the UTF-8 encoding of the given one.
pub open spec fn wiped(text: Seq<char>) -> Seq<char> {
    Seq::new(vstd::utf8::encode_utf8(text).len(), |i: int| '\0')
}

impl View for Secret {
    type V = Seq<char>;

    open spec fn view(&self) -> Seq<char> {
        exposed(*self)
    }
}

impl Secret {
    /// Calls `secrecy::SecretString::new`. Claims that the secret holds the given text.
    #[verifier::external_body]
    pub(crate) fn new(text: String) -> (secret: Secret)
        ensures
            exposed(secret) == text@,
    {
        Secret { inner: SecretString::new(text.into()) }
    }

    /// Calls `secrecy::ExposeSecret::expose_secret`. Claims that it returns the text that the secret
    /// holds.
    #[verifier::external_body]
    pub(crate) fn expose_secret(&self) -> (text: &str)
        ensures
            text@ == exposed(*self),
    {
        self.inner.expose_secret()
    }

    /// Calls `zeroize::Zeroize::zeroize`. Claims that it overwrites every byte of the text with
    /// zero.
    #[verifier::external_body]
    pub(crate) fn zeroize(&mut self)
        ensures
            exposed(*final(self)) == wiped(exposed(*old(self))),
    {
        self.inner.zeroize()
    }
}

/// A wiped text has one NUL for each byte that the text had, and nothing else.
pub proof fn law_wiped_text_is_blank(text: Seq<char>)
    ensures
        wiped(text).len() == vstd::utf8::encode_utf8(text).len(),
        forall|i: int| 0 <= i < wiped(text).len() ==> #[trigger] wiped(text)[i] == '\0',
{
}

} // verus!
