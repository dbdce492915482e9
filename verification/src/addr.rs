use vstd::prelude::*;

verus! {

/// The payload that `bech32_no_std::decode` extracts from `addr`: one byte
/// per 5-bit group of the data part, or nothing when `addr` is not a valid
/// bech32 string. The outcome depends on the input string alone.
pub uninterp spec fn bech32_payload(addr: Seq<char>) -> Option<Seq<u8>>;

/// The string that `bech32_no_std::encode` makes of a human-readable prefix
/// and a payload of 5-bit groups, or nothing when the prefix or the payload
/// is invalid. The outcome depends on the two arguments alone.
pub uninterp spec fn bech32_encoding(hrp: Seq<char>, data: Seq<u8>) -> Option<Seq<char>>;

/// Relies on bech32_no_std::decode, a pure parse of the address string that
/// yields its 5-bit payload groups; u5::to_u8 converts each group to a byte.
#[verifier::external_body]
fn bech32_decode(addr: &str) -> (r: Option<Vec<u8>>)
    ensures
        r is Some <==> bech32_payload(addr@) is Some,
        r matches Some(d) ==> bech32_payload(addr@) == Some(d@),
{
    match bech32_no_std::decode(addr) {
        Ok((_, data)) => Some(data.into_iter().map(|g| g.to_u8()).collect()),
        Err(_) => None,
    }
}

/// Relies on bech32_no_std::encode, a pure re-encoding of the payload under
/// the given prefix; u5::try_from_u8 converts each byte back to a 5-bit
/// group and refuses a value above 31, an outcome equally fixed by the
/// arguments alone.
#[verifier::external_body]
fn bech32_encode(hrp: &str, data: &Vec<u8>) -> (r: Option<String>)
    ensures
        r is Some <==> bech32_encoding(hrp@, data@) is Some,
        r matches Some(s) ==> bech32_encoding(hrp@, data@) == Some(s@),
{
    let groups: Result<Vec<bech32_no_std::u5>, _> = data.iter().map(
        |g| bech32_no_std::u5::try_from_u8(*g),
    ).collect();
    match groups {
        Ok(gs) => match bech32_no_std::encode(hrp, gs) {
            Ok(s) => Some(s),
            Err(_) => None,
        },
        Err(_) => None,
    }
}

/// The operator address derived from an account address: the same payload
/// reinterpreted under the validator-operator prefix, or nothing when the
/// address cannot be decoded or the payload cannot be re-encoded.
pub open spec fn derived_operator(addr: Seq<char>) -> Option<Seq<char>> {
    match bech32_payload(addr) {
        Some(data) => bech32_encoding("secretvaloper"@, data),
        None => None,
    }
}

/// Derive the validator-operator form of an account address.
pub fn derive_operator_address(addr: &String) -> (r: Option<String>)
    ensures
        r is Some <==> derived_operator(addr@) is Some,
        r matches Some(s) ==> derived_operator(addr@) == Some(s@),
{
    match bech32_decode(addr.as_str()) {
        Some(data) => bech32_encode("secretvaloper", &data),
        None => None,
    }
}

} // verus!
