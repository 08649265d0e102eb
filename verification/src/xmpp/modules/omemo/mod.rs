//! OMEMO end-to-end encryption (XEP-0384): device lists, key bundles and
//! encrypted message stanzas.
pub mod bundle;
pub mod device;
pub mod message;
pub mod session;

use vstd::prelude::*;

verus! {

/// Namespace of bundles and encrypted messages.
pub const NS_OMEMO: &'static str = "eu.siacs.conversations.axolotl";

/// Prefix of the PubSub node of a device's bundle; the device id follows a `:`.
pub const NS_OMEMO_BUNDLES: &'static str = "eu.siacs.conversations.axolotl.bundles";

} // verus!
