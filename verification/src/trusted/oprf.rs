//! The oblivious pseudorandom function over P-256.
//!
//! Group elements, client states and keys cross this boundary as bytes in the
//! encoding of `voprf`: 33 bytes for an element, 32 for a state or a key. An
//! element travels on the wire in that same encoding.
use p256::NistP256;
use rand_core::OsRng;
use voprf::{BlindedElement, EvaluationElement, OprfClient, OprfServer};
use vstd::prelude::*;

verus! {

/// The error of `voprf`.
#[verifier::external_type_specification]
#[verifier::external_body]
pub struct ExOprfError(voprf::Error);

/// The blinded element that bytes from the wire hold, or nothing where
/// `bincode::deserialize` refuses them as a blinded element.
pub uninterp spec fn blinded_element_decoding(wire: Seq<u8>) -> Option<Seq<u8>>;

/// The evaluated element that bytes from the wire hold, or nothing where
/// `bincode::deserialize` refuses them as an evaluated element.
pub uninterp spec fn evaluation_element_decoding(wire: Seq<u8>) -> Option<Seq<u8>>;

/// The blinded element evaluated under a key, or nothing where the key or the
/// element is refused.
pub uninterp spec fn oprf_evaluation(key: Seq<u8>, element: Seq<u8>) -> Option<Seq<u8>>;

/// The output of the function for a client state, an input and an evaluated
/// element, or nothing where one of them is refused.
pub uninterp spec fn oprf_finalization(state: Seq<u8>, input: Seq<u8>, evaluation: Seq<u8>) -> Option<
    Seq<u8>,
>;

/// Calls `OprfClient::blind` with the operating system's random source.
///
/// Gives the blinded element and the client state, each in its encoding.
/// Nothing is claimed of them: the blinding factor is random.
#[verifier::external_body]
pub(crate) fn oprf_blind(input: &[u8]) -> (blinded: Result<(Vec<u8>, Vec<u8>), voprf::Error>) {
    let result = OprfClient::<NistP256>::blind(input, &mut OsRng)?;
    Ok((result.message.serialize().to_vec(), result.state.serialize().to_vec()))
}

/// Calls `bincode::deserialize` for a blinded element and gives its encoding.
///
/// Claimed: the result is a function of the bytes alone, named
/// `blinded_element_decoding`.
#[verifier::external_body]
pub(crate) fn parse_blinded_element(wire: &[u8]) -> (element: Result<Vec<u8>, bincode::Error>)
    ensures
        match element {
            Ok(e) => blinded_element_decoding(wire@) == Some(e@),
            Err(_) => blinded_element_decoding(wire@) is None,
        },
{
    match bincode::deserialize::<BlindedElement<NistP256>>(wire) {
        Ok(element) => Ok(element.serialize().to_vec()),
        Err(e) => Err(e),
    }
}

/// Calls `bincode::deserialize` for an evaluated element and gives its encoding.
///
/// Claimed: the result is a function of the bytes alone, named
/// `evaluation_element_decoding`.
#[verifier::external_body]
pub(crate) fn parse_evaluation_element(wire: &[u8]) -> (element: Result<Vec<u8>, bincode::Error>)
    ensures
        match element {
            Ok(e) => evaluation_element_decoding(wire@) == Some(e@),
            Err(_) => evaluation_element_decoding(wire@) is None,
        },
{
    match bincode::deserialize::<EvaluationElement<NistP256>>(wire) {
        Ok(element) => Ok(element.serialize().to_vec()),
        Err(e) => Err(e),
    }
}

/// Calls `OprfServer::blind_evaluate` on a server made by
/// `OprfServer::new_with_key`.
///
/// Claimed: the result is a function of the key and the element alone, named
/// `oprf_evaluation`.
#[verifier::external_body]
pub(crate) fn oprf_blind_evaluate(key: &[u8], element: &[u8]) -> (evaluation: Result<
    Vec<u8>,
    voprf::Error,
>)
    ensures
        match evaluation {
            Ok(e) => oprf_evaluation(key@, element@) == Some(e@),
            Err(_) => oprf_evaluation(key@, element@) is None,
        },
{
    let server = OprfServer::<NistP256>::new_with_key(key)?;
    let element = BlindedElement::<NistP256>::deserialize(element)?;
    Ok(server.blind_evaluate(&element).serialize().to_vec())
}

/// Calls `OprfClient::finalize`.
///
/// Claimed: the result is a function of the state, the input and the element
/// alone, named `oprf_finalization`.
#[verifier::external_body]
pub(crate) fn oprf_finalize(state: &[u8], input: &[u8], evaluation: &[u8]) -> (output: Result<
    Vec<u8>,
    voprf::Error,
>)
    ensures
        match output {
            Ok(o) => oprf_finalization(state@, input@, evaluation@) == Some(o@),
            Err(_) => oprf_finalization(state@, input@, evaluation@) is None,
        },
{
    let client = OprfClient::<NistP256>::deserialize(state)?;
    let evaluation = EvaluationElement::<NistP256>::deserialize(evaluation)?;
    Ok(client.finalize(input, &evaluation)?.to_vec())
}

} // verus!
