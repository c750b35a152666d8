//! The decisions of a service's start: which files a first run writes, what
//! goes into them, and whether the configuration is loaded at all.
use vstd::prelude::*;
use vstd::string::StringExecFns;
use crate::b64e::{encoded_object, members, Base64, Member};
use crate::base64url::encode_spec;
use crate::material::SigningKeyPair;

verus! {

/// What a start has to do.
#[derive(Clone, Copy, Debug, PartialEq, Eq)]
pub struct SetupPlan {
    /// Write the main configuration file with the defaults.
    pub write_config: bool,
    /// Make a key pair and write the local configuration and the public key.
    pub write_keypair: bool,
    /// Load the configuration and go on; otherwise the start ends here.
    pub load: bool,
}

/// The command after which a start only writes what is missing.
pub open spec fn init_command() -> Seq<char> {
    "init"@
}

/// The first argument after the program's name is the `init` command.
pub open spec fn asks_init(args: Seq<String>) -> bool {
    args.len() > 1 && args[1]@ == init_command()
}

/// Plans a start: a file is written where it does not exist yet, and the
/// configuration is loaded unless the command is `init`.
pub fn plan_setup(config_exists: bool, local_exists: bool, args: &Vec<String>) -> (plan: SetupPlan)
    ensures
        plan.write_config == !config_exists,
        plan.write_keypair == !local_exists,
        plan.load == !asks_init(args@),
{
    let init = args.len() > 1 && args[1] == String::from_str("init");
    SetupPlan { write_config: !config_exists, write_keypair: !local_exists, load: !init }
}

/// What a first run writes about its new key pair.
pub struct FreshKeys {
    /// The pair.
    pub pair: Base64<SigningKeyPair>,
    /// The text of the public half, for the public-key file.
    pub public_text: String,
    /// The members of the pair's object, for the local configuration.
    pub object: Vec<Member>,
}

/// Makes the key pair of a first run. Whatever secret was drawn, the public
/// text is that of the key derived from it, and the object is the pair's.
pub fn fresh_keys() -> (keys: FreshKeys)
    ensures
        keys.pair.0@.wf(),
        keys.public_text@ == encode_spec(keys.pair.0@.public),
        members(keys.object@) == encoded_object(keys.pair.0@),
{
    let pair = Base64(SigningKeyPair::generate());
    let public_text = Base64(pair.0.verifying_key()).encode();
    let object = pair.to_members();
    FreshKeys { pair, public_text, object }
}

} // verus!
