//! The request that goes to the external signer.

use vstd::prelude::*;
use vstd::string::*;
use crate::error::PermissionError;
use crate::hexcode::hex_encode;
use crate::model::{
    key_domain,
    sign_request,
    PayloadModel,
    SignRequestModel,
    DOMAIN_ECDSA,
    DOMAIN_EDDSA,
};

verus! {

/// A payload in hexadecimal, under the tag of the scheme that signs it:
/// exactly one of the two fields is set.
#[derive(Debug)]
pub struct PayloadV2 {
    pub eddsa: Option<String>,
    pub ecdsa: Option<String>,
}

impl View for PayloadV2 {
    type V = PayloadModel;

    open spec fn view(&self) -> PayloadModel {
        PayloadModel {
            eddsa: match self.eddsa {
                Some(s) => Some(s@),
                None => None,
            },
            ecdsa: match self.ecdsa {
                Some(s) => Some(s@),
                None => None,
            },
        }
    }
}

impl Clone for PayloadV2 {
    fn clone(&self) -> (copy: Self)
        ensures
            copy@ == self@,
    {
        PayloadV2 {
            eddsa: match &self.eddsa {
                Some(s) => Some(s.clone()),
                None => None,
            },
            ecdsa: match &self.ecdsa {
                Some(s) => Some(s.clone()),
                None => None,
            },
        }
    }
}

/// What the external signer is asked to sign, and with which key.
#[derive(Debug)]
pub struct SignRequest {
    pub payload_v2: PayloadV2,
    /// The identity key whose signing key is used.
    pub path: String,
    /// 1 for EdDSA, 0 for ECDSA.
    pub domain_id: u8,
}

impl View for SignRequest {
    type V = SignRequestModel;

    open spec fn view(&self) -> SignRequestModel {
        SignRequestModel { payload_v2: self.payload_v2@, path: self.path@, domain_id: self.domain_id }
    }
}

impl Clone for SignRequest {
    fn clone(&self) -> (copy: Self)
        ensures
            copy@ == self@,
    {
        SignRequest {
            payload_v2: self.payload_v2.clone(),
            path: self.path.clone(),
            domain_id: self.domain_id,
        }
    }
}

/// Builds the request to sign `payload` with the key of `path`. A key type
/// other than `Eddsa` and `Ecdsa` is turned down.
pub fn build_sign_request(path: String, payload: &[u8], key_type: &String) -> (res: Result<
    SignRequest,
    PermissionError,
>)
    ensures
        match key_domain(key_type@) {
            Some(_) => res is Ok && res.unwrap()@ == sign_request(path@, payload@, key_type@),
            None => res == Err::<SignRequest, PermissionError>(PermissionError::InvalidKeyType),
        },
{
    let eddsa = String::from_str("Eddsa");
    let ecdsa = String::from_str("Ecdsa");
    if *key_type == eddsa {
        Ok(
            SignRequest {
                payload_v2: PayloadV2 { eddsa: Some(hex_encode(payload)), ecdsa: None },
                path,
                domain_id: DOMAIN_EDDSA,
            },
        )
    } else if *key_type == ecdsa {
        Ok(
            SignRequest {
                payload_v2: PayloadV2 { eddsa: None, ecdsa: Some(hex_encode(payload)) },
                path,
                domain_id: DOMAIN_ECDSA,
            },
        )
    } else {
        Err(PermissionError::InvalidKeyType)
    }
}

} // verus!
