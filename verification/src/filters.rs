//! The filters that claim-mapping templates apply to what an upstream
//! provider sends: Base64 in both directions, and tag-length-value decoding.

use std::collections::HashMap;
use base64ct::{Base64, Base64Unpadded, Base64Url, Base64UrlUnpadded, Encoding};
use vstd::prelude::*;

verus! {

broadcast use vstd::std_specs::hash::group_hash_axioms;

/// Why a filter refuses its input.
#[derive(Clone, Copy, Debug, PartialEq, Eq, Structural)]
pub enum FilterError {
    /// The input is Base64 in none of the four variants.
    InvalidBase64,
    /// The input ends in the middle of a tag-length-value entry.
    InvalidTlv,
}

impl FilterError {
    /// What the error says.
    pub fn message(&self) -> (s: &'static str)
        ensures
            s@ == match *self {
                FilterError::InvalidBase64 => "Failed to decode base64 string"@,
                FilterError::InvalidTlv => "Invalid ILV encoding"@,
            },
    {
        match self {
            FilterError::InvalidBase64 => "Failed to decode base64 string",
            FilterError::InvalidTlv => "Invalid ILV encoding",
        }
    }
}

/// The error type of `base64ct`. Nothing is known of a value of it but that
/// it is one.
#[verifier::external_type_specification]
#[verifier::external_body]
pub struct ExBase64Error(base64ct::Error);

/// What `base64ct::Base64::decode_vec` makes of `input`: the bytes, or
/// `None` where it returns an error.
pub uninterp spec fn base64_decoded(input: Seq<char>) -> Option<Seq<u8>>;

/// What `base64ct::Base64Url::decode_vec` makes of `input`.
pub uninterp spec fn base64_url_decoded(input: Seq<char>) -> Option<Seq<u8>>;

/// What `base64ct::Base64Unpadded::decode_vec` makes of `input`.
pub uninterp spec fn base64_unpadded_decoded(input: Seq<char>) -> Option<Seq<u8>>;

/// What `base64ct::Base64UrlUnpadded::decode_vec` makes of `input`.
pub uninterp spec fn base64_url_unpadded_decoded(input: Seq<char>) -> Option<Seq<u8>>;

/// What `base64ct::Base64::encode_string` makes of `input`.
pub uninterp spec fn base64_encoded(input: Seq<u8>) -> Seq<char>;

/// Calls `base64ct::Base64::decode_vec`: standard alphabet, with padding.
/// Trusted: the result is what `base64_decoded` names, a function of the
/// input alone.
#[verifier::external_body]
fn decode_padded(input: &str) -> (r: Result<Vec<u8>, base64ct::Error>)
    ensures
        match r {
            Ok(bytes) => base64_decoded(input@) == Some(bytes@),
            Err(_) => base64_decoded(input@) is None,
        },
{
    Base64::decode_vec(input)
}

/// Calls `base64ct::Base64Url::decode_vec`: URL-safe alphabet, with
/// padding. Trusted: the result is what `base64_url_decoded` names.
#[verifier::external_body]
fn decode_url(input: &str) -> (r: Result<Vec<u8>, base64ct::Error>)
    ensures
        match r {
            Ok(bytes) => base64_url_decoded(input@) == Some(bytes@),
            Err(_) => base64_url_decoded(input@) is None,
        },
{
    Base64Url::decode_vec(input)
}

/// Calls `base64ct::Base64Unpadded::decode_vec`: standard alphabet, no
/// padding. Trusted: the result is what `base64_unpadded_decoded` names.
#[verifier::external_body]
fn decode_unpadded(input: &str) -> (r: Result<Vec<u8>, base64ct::Error>)
    ensures
        match r {
            Ok(bytes) => base64_unpadded_decoded(input@) == Some(bytes@),
            Err(_) => base64_unpadded_decoded(input@) is None,
        },
{
    Base64Unpadded::decode_vec(input)
}

/// Calls `base64ct::Base64UrlUnpadded::decode_vec`: URL-safe alphabet, no
/// padding. Trusted: the result is what `base64_url_unpadded_decoded` names.
#[verifier::external_body]
fn decode_url_unpadded(input: &str) -> (r: Result<Vec<u8>, base64ct::Error>)
    ensures
        match r {
            Ok(bytes) => base64_url_unpadded_decoded(input@) == Some(bytes@),
            Err(_) => base64_url_unpadded_decoded(input@) is None,
        },
{
    Base64UrlUnpadded::decode_vec(input)
}

/// Calls `base64ct::Base64::encode_string`, which panics on an input of more
/// than `usize::MAX / 4` bytes. Trusted: the result is what `base64_encoded`
/// names.
#[verifier::external_body]
fn encode_padded(input: &[u8]) -> (r: String)
    requires
        input@.len() <= usize::MAX / 4,
    ensures
        r@ == base64_encoded(input@),
{
    Base64::encode_string(input)
}

/// The first of four decodings that succeeded.
pub open spec fn first_decoding(
    padded: Option<Seq<u8>>,
    url: Option<Seq<u8>>,
    unpadded: Option<Seq<u8>>,
    url_unpadded: Option<Seq<u8>>,
) -> Option<Seq<u8>> {
    if padded is Some {
        padded
    } else if url is Some {
        url
    } else if unpadded is Some {
        unpadded
    } else {
        url_unpadded
    }
}

/// What `b64decode` makes of `value`: the first decoding that succeeds among
/// standard Base64, URL-safe Base64, and the two without padding, in this
/// order.
pub open spec fn b64decoded(value: Seq<char>) -> Option<Seq<u8>> {
    first_decoding(
        base64_decoded(value),
        base64_url_decoded(value),
        base64_unpadded_decoded(value),
        base64_url_unpadded_decoded(value),
    )
}

/// The bytes of a list, if there is one.
pub open spec fn bytes_of(decoding: Option<Vec<u8>>) -> Option<Seq<u8>> {
    match decoding {
        Some(bytes) => Some(bytes@),
        None => None,
    }
}

fn decoding(r: Result<Vec<u8>, base64ct::Error>) -> (d: Option<Vec<u8>>)
    ensures
        match r {
            Ok(bytes) => d == Some(bytes),
            Err(_) => d is None,
        },
{
    match r {
        Ok(bytes) => Some(bytes),
        Err(_) => None,
    }
}

/// Picks, among the decodings of one input in the four variants, the first
/// that succeeded; refuses the input if none did.
pub fn choose_decoding(
    padded: Option<Vec<u8>>,
    url: Option<Vec<u8>>,
    unpadded: Option<Vec<u8>>,
    url_unpadded: Option<Vec<u8>>,
) -> (r: Result<Vec<u8>, FilterError>)
    ensures
        match r {
            Ok(bytes) => first_decoding(
                bytes_of(padded),
                bytes_of(url),
                bytes_of(unpadded),
                bytes_of(url_unpadded),
            ) == Some(bytes@),
            Err(e) => e == FilterError::InvalidBase64 && padded is None && url is None
                && unpadded is None && url_unpadded is None,
        },
{
    match padded {
        Some(bytes) => Ok(bytes),
        None => match url {
            Some(bytes) => Ok(bytes),
            None => match unpadded {
                Some(bytes) => Ok(bytes),
                None => match url_unpadded {
                    Some(bytes) => Ok(bytes),
                    None => Err(FilterError::InvalidBase64),
                },
            },
        },
    }
}

/// Decodes Base64, whichever of the four variants it is written in: with
/// the standard or the URL-safe alphabet, with or without padding.
pub fn b64decode(value: &str) -> (r: Result<Vec<u8>, FilterError>)
    ensures
        match r {
            Ok(bytes) => b64decoded(value@) == Some(bytes@),
            Err(e) => e == FilterError::InvalidBase64 && b64decoded(value@) is None,
        },
{
    let padded = decoding(decode_padded(value));
    let url = decoding(decode_url(value));
    let unpadded = decoding(decode_unpadded(value));
    let url_unpadded = decoding(decode_url_unpadded(value));
    choose_decoding(padded, url, unpadded, url_unpadded)
}

/// Encodes bytes as standard Base64 with padding.
pub fn b64encode(bytes: &[u8]) -> (text: String)
    requires
        bytes@.len() <= usize::MAX / 4,
    ensures
        text@ == base64_encoded(bytes@),
{
    encode_padded(bytes)
}

/// The entries of a tag-length-value encoding, in order: each entry is one
/// byte of tag, one byte of length, and as many bytes of value as the length
/// says. `None` if the input ends in the middle of an entry.
pub open spec fn tlv_entries(bytes: Seq<u8>) -> Option<Seq<(u8, Seq<u8>)>>
    decreases bytes.len(),
{
    if bytes.len() == 0 {
        Some(Seq::empty())
    } else if bytes.len() < 2 || bytes.len() < 2 + bytes[1] {
        None
    } else {
        let end = 2 + bytes[1];
        match tlv_entries(bytes.subrange(end, bytes.len() as int)) {
            Some(rest) => Some(seq![(bytes[0], bytes.subrange(2, end))] + rest),
            None => None,
        }
    }
}

/// The map from tag to value that the entries give. Where a tag occurs more
/// than once, its last value counts.
pub open spec fn tlv_map(entries: Seq<(u8, Seq<u8>)>) -> Map<u8, Seq<u8>>
    decreases entries.len(),
{
    if entries.len() == 0 {
        Map::empty()
    } else {
        tlv_map(entries.drop_last()).insert(entries.last().0, entries.last().1)
    }
}

/// What `tlvdecode` makes of `bytes`.
pub open spec fn tlv_decoded(bytes: Seq<u8>) -> Option<Map<u8, Seq<u8>>> {
    match tlv_entries(bytes) {
        Some(entries) => Some(tlv_map(entries)),
        None => None,
    }
}

/// A map from tag to value, each value as a sequence of bytes.
pub open spec fn tlv_view(map: Map<u8, Vec<u8>>) -> Map<u8, Seq<u8>> {
    map.map_values(|value: Vec<u8>| value@)
}

/// Decodes a tag-length-value encoded byte array into a map from tag to
/// value. Tag and length are one byte each.
pub fn tlvdecode(bytes: &[u8]) -> (r: Result<HashMap<u8, Vec<u8>>, FilterError>)
    ensures
        match r {
            Ok(map) => tlv_decoded(bytes@) == Some(tlv_view(map@)),
            Err(e) => e == FilterError::InvalidTlv && tlv_decoded(bytes@) is None,
        },
{
    let mut ret: HashMap<u8, Vec<u8>> = HashMap::new();
    let ghost mut done: Seq<(u8, Seq<u8>)> = Seq::empty();
    let mut pos: usize = 0;
    assert(bytes@.subrange(0, bytes@.len() as int) =~= bytes@);
    assert(tlv_view(ret@) =~= tlv_map(done));
    while pos < bytes.len()
        invariant
            pos <= bytes.len(),
            tlv_view(ret@) == tlv_map(done),
            tlv_entries(bytes@) == match tlv_entries(
                bytes@.subrange(pos as int, bytes@.len() as int),
            ) {
                Some(rest) => Some(done + rest),
                None => None,
            },
        decreases bytes.len() - pos,
    {
        let ghost tail = bytes@.subrange(pos as int, bytes@.len() as int);
        let tag = bytes[pos];
        if bytes.len() - pos < 2 {
            return Err(FilterError::InvalidTlv);
        }
        let len = bytes[pos + 1] as usize;
        if bytes.len() - pos - 2 < len {
            return Err(FilterError::InvalidTlv);
        }
        let start = pos + 2;
        let end = start + len;
        let mut value: Vec<u8> = Vec::with_capacity(len);
        let mut i: usize = start;
        while i < end
            invariant
                start <= i <= end <= bytes.len(),
                value@ == bytes@.subrange(start as int, i as int),
            decreases end - i,
        {
            value.push(bytes[i]);
            assert(value@ =~= bytes@.subrange(start as int, i + 1));
            i = i + 1;
        }
        proof {
            let entry = (tag, value@);
            let rest = tlv_entries(bytes@.subrange(end as int, bytes@.len() as int));
            assert(tail.subrange(2 + len, tail.len() as int) =~= bytes@.subrange(
                end as int,
                bytes@.len() as int,
            ));
            assert(tail.subrange(2, 2 + len) =~= value@);
            if rest is Some {
                assert(done + (seq![entry] + rest->0) =~= done.push(entry) + rest->0);
            }
            assert(done.push(entry).drop_last() =~= done);
            assert(tlv_view(ret@.insert(tag, value)) =~= tlv_map(done.push(entry)));
            done = done.push(entry);
        }
        ret.insert(tag, value);
        pos = end;
    }
    proof {
        assert(done + Seq::<(u8, Seq<u8>)>::empty() =~= done);
    }
    Ok(ret)
}

} // verus!
