//! Sign-in-with-wallet: the decision core of signature login.
//!
//! Parsing the signed message and running the cryptographic verifier are the
//! work of an outside verifier at the application edge; the rules for which
//! response each combination of outcomes yields live here.

use vstd::prelude::*;

use crate::error::AppError;

verus! {

/// The signature login service.  It carries no state: the verifier is
/// invoked at the application edge and its outcomes are handed to
/// [`SiweServiceImpl::verification_outcome`].
pub struct SiweServiceImpl;

impl SiweServiceImpl {
    pub fn new() -> (r: Self)
        ensures
            r == SiweServiceImpl,
    {
        SiweServiceImpl
    }

    /// The response for each outcome of a signature login attempt:
    /// an unparsable message or signature is a bad request, a signature the
    /// verifier rejects is unauthorized, and only a verified signature
    /// yields the address the message names.
    pub fn verification_outcome(
        &self,
        parsed_address: Option<Vec<u8>>,
        signature_parsed: bool,
        verified: bool,
    ) -> (r: Result<Vec<u8>, AppError>)
        ensures
            parsed_address is None ==> (r matches Err(e) && e matches AppError::BadRequest(m)
                && m@ == "Invalid message"@),
            parsed_address is Some && !signature_parsed ==> (r matches Err(e)
                && e matches AppError::BadRequest(m) && m@ == "Invalid signature"@),
            parsed_address is Some && signature_parsed && !verified ==> (r matches Err(e)
                && e == AppError::Unauthorized),
            parsed_address is Some && signature_parsed && verified ==> (r matches Ok(out)
                && out == parsed_address->Some_0),
    {
        match parsed_address {
            None => Err(AppError::BadRequest("Invalid message".to_owned())),
            Some(address) => {
                if !signature_parsed {
                    Err(AppError::BadRequest("Invalid signature".to_owned()))
                } else if !verified {
                    Err(AppError::Unauthorized)
                } else {
                    Ok(address)
                }
            },
        }
    }
}

} // verus!
