//! The state that every request handler of a service shares: the service's
//! signing key pair beside the service's own state.
use vstd::prelude::*;
use crate::material::SigningKeyPair;

verus! {

/// The cryptographic part of the shared state.
#[derive(Clone, Copy)]
pub struct CryptoState {
    /// The key pair that the service signs with.
    pub key: SigningKeyPair,
}

/// The shared state of a service: the cryptographic part, and `inner`, which
/// is the service's own.
#[derive(Clone)]
pub struct BaseState<T> where T: Send + Sync {
    /// The cryptographic part.
    pub crypto: CryptoState,
    /// The service's own state.
    pub inner: T,
}

impl CryptoState {
    /// The cryptographic part of a shared state, as a copy.
    pub fn from_ref<T>(st: &BaseState<T>) -> (crypto: CryptoState) where T: Send + Sync
        ensures
            crypto == st.crypto,
    {
        st.crypto
    }
}

/// A shared state stands for the service's own state wherever that is
/// asked for.
impl<T> std::ops::Deref for BaseState<T> where T: Send + Sync {
    type Target = T;

    fn deref(&self) -> (inner: &T)
        ensures
            *inner == self.inner,
    {
        &self.inner
    }
}

/// The shared state made of a key pair and the service's own state.
pub fn new<T>(sk: SigningKeyPair, t: T) -> (state: BaseState<T>) where T: Send + Sync
    ensures
        state.crypto.key == sk,
        state.inner == t,
{
    BaseState { crypto: CryptoState { key: sk }, inner: t }
}

} // verus!
