//! Long-lived credentials provisioned by a classic TRÅDFRI gateway.
use vstd::prelude::*;
use vstd::string::*;
use crate::error::Error;
use crate::text::{debug_quoted, debug_text, text3};

verus! {

/// Long-lived credentials provisioned by a classic TRADFRI gateway.
///
/// Both parts are non-empty. The type has no `Debug`, so the pre-shared key
/// is not printed by accident; `description` gives a debug text with the key
/// redacted.
#[derive(PartialEq, Eq)]
pub struct Credentials {
    identity: String,
    pre_shared_key: String,
}

/// The debug text of credentials with identity `identity`: the key is
/// replaced by `<redacted>`, so the text depends on the identity alone.
pub open spec fn credentials_description(identity: Seq<char>) -> Seq<char> {
    "Credentials { identity: "@ + debug_quoted(identity) + ", pre_shared_key: \"<redacted>\" }"@
}

impl Credentials {
    #[verifier::type_invariant]
    spec fn wf(self) -> bool {
        self.identity@.len() > 0 && self.pre_shared_key@.len() > 0
    }

    /// The identity.
    pub closed spec fn identity_text(&self) -> Seq<char> {
        self.identity@
    }

    /// The pre-shared key.
    pub closed spec fn key_text(&self) -> Seq<char> {
        self.pre_shared_key@
    }

    /// Construct credentials from an identity and pre-shared key.
    ///
    /// Fails if either value is empty; the identity is checked first.
    pub fn new(identity: &str, pre_shared_key: &str) -> (r: Result<Self, Error>)
        ensures
            r is Ok <==> identity@.len() > 0 && pre_shared_key@.len() > 0,
            r matches Ok(c) ==> c.identity_text() == identity@ && c.key_text() == pre_shared_key@,
            r matches Err(e) ==> e matches Error::EmptyCredential(field) && if identity@.len() == 0 {
                field@ == "identity"@
            } else {
                field@ == "pre-shared key"@
            },
    {
        if identity.is_empty() {
            return Err(Error::EmptyCredential("identity"));
        }
        if pre_shared_key.is_empty() {
            return Err(Error::EmptyCredential("pre-shared key"));
        }
        Ok(Credentials { identity: identity.to_owned(), pre_shared_key: pre_shared_key.to_owned() })
    }

    pub fn identity(&self) -> (r: &str)
        ensures
            r@ == self.identity_text(),
            r@.len() > 0,
    {
        proof {
            use_type_invariant(self);
        }
        self.identity.as_str()
    }

    /// The debug text, with the pre-shared key redacted.
    pub fn description(&self) -> (r: String)
        ensures
            r@ == credentials_description(self.identity_text()),
    {
        text3(
            "Credentials { identity: ",
            debug_text(self.identity.as_str()).as_str(),
            ", pre_shared_key: \"<redacted>\" }",
        )
    }

    pub fn pre_shared_key(&self) -> (r: &str)
        ensures
            r@ == self.key_text(),
            r@.len() > 0,
    {
        proof {
            use_type_invariant(self);
        }
        self.pre_shared_key.as_str()
    }
}

impl Clone for Credentials {
    fn clone(&self) -> (r: Self)
        ensures
            r == *self,
    {
        proof {
            use_type_invariant(self);
        }
        Credentials { identity: self.identity.clone(), pre_shared_key: self.pre_shared_key.clone() }
    }
}

} // verus!
