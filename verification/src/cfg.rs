//! The configuration of a service.
use vstd::prelude::*;
use std::marker::PhantomData;
use std::path::PathBuf;
use vstd::string::StringExecFns;
use crate::b64e::Base64;
use crate::material::SigningKeyPair;

verus! {

/// A path of the file system; nothing inside it is looked into.
#[verifier::external_type_specification]
#[verifier::external_body]
pub struct ExPathBuf(PathBuf);

/// Names the type of a service's own settings where no value of it is at
/// hand.
pub struct ConfigType<T>(PhantomData<T>);

impl<T> ConfigType<T> {
    /// The one value of the type.
    pub closed spec fn marker() -> Self {
        ConfigType(PhantomData)
    }

    /// The marker for `T`.
    pub fn new() -> (marker: Self)
        ensures
            marker == Self::marker(),
    {
        Self(PhantomData)
    }
}

/// The address that a service listens on unless it is told another.
pub open spec fn default_address() -> Seq<char> {
    "127.0.0.1:8080"@
}

/// The configuration of a service: what every service has, and `etc`, the
/// service's own settings.
pub struct Config<T> {
    /// The address to listen on.
    pub address: String,
    /// The signing key pair, once there is one.
    pub keypair: Option<Base64<SigningKeyPair>>,
    /// The directory of the configuration files.
    pub root: PathBuf,
    /// The service's own settings.
    pub etc: T,
}

impl<T> Config<T> {
    /// The configuration that a service starts from: the default address, no
    /// key pair, and the given directory and settings.
    pub fn with_root(root: PathBuf, etc: T) -> (config: Self)
        ensures
            config.address@ == default_address(),
            config.keypair is None,
            config.root == root,
            config.etc == etc,
    {
        Config { address: String::from_str("127.0.0.1:8080"), keypair: None, root, etc }
    }
}

} // verus!
