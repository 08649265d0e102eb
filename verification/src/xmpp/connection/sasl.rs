//! SASL mechanism selection.
use vstd::prelude::*;
use crate::util::strs::str_eq;

verus! {

/// SASL mechanism to use for authentication.
#[derive(Debug, Clone, PartialEq, Eq, Structural)]
pub enum SaslMechanism {
    Plain,
    ScramSha1,
    ScramSha256,
}

pub open spec fn offers(offered: Seq<String>, name: Seq<char>) -> bool {
    exists|i: int| 0 <= i < offered.len() && offered[i]@ == name
}

/// Whether the server offered the mechanism named `name`.
fn offered_has(offered: &[String], name: &str) -> (r: bool)
    ensures
        r == offers(offered@, name@),
{
    let mut i: usize = 0;
    while i < offered.len()
        invariant
            i <= offered.len(),
            forall|j: int| 0 <= j < i ==> offered@[j]@ != name@,
        decreases offered.len() - i,
    {
        if str_eq(offered[i].as_str(), name) {
            return true;
        }
        i += 1;
    }
    false
}

impl SaslMechanism {
    /// The best mechanism the server offers: SCRAM-SHA-256, then SCRAM-SHA-1, then PLAIN.
    pub fn select(offered: &[String]) -> (r: Option<Self>)
        ensures
            offers(offered@, "SCRAM-SHA-256"@) ==> r == Some(SaslMechanism::ScramSha256),
            !offers(offered@, "SCRAM-SHA-256"@) && offers(offered@, "SCRAM-SHA-1"@) ==> r == Some(SaslMechanism::ScramSha1),
            !offers(offered@, "SCRAM-SHA-256"@) && !offers(offered@, "SCRAM-SHA-1"@) && offers(offered@, "PLAIN"@) ==> r == Some(SaslMechanism::Plain),
            !offers(offered@, "SCRAM-SHA-256"@) && !offers(offered@, "SCRAM-SHA-1"@) && !offers(offered@, "PLAIN"@) ==> r is None,
    {
        if offered_has(offered, "SCRAM-SHA-256") {
            Some(SaslMechanism::ScramSha256)
        } else if offered_has(offered, "SCRAM-SHA-1") {
            Some(SaslMechanism::ScramSha1)
        } else if offered_has(offered, "PLAIN") {
            Some(SaslMechanism::Plain)
        } else {
            None
        }
    }
}

} // verus!
