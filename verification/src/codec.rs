use vstd::prelude::*;

use crate::ids::{id_bytes, InfoHash, NodeId, ID_LEN};

verus! {

/// The lower-case hexadecimal digit for a number below 16.
pub open spec fn hex_digit(n: u8) -> char {
    if n == 0 {
        '0'
    } else if n == 1 {
        '1'
    } else if n == 2 {
        '2'
    } else if n == 3 {
        '3'
    } else if n == 4 {
        '4'
    } else if n == 5 {
        '5'
    } else if n == 6 {
        '6'
    } else if n == 7 {
        '7'
    } else if n == 8 {
        '8'
    } else if n == 9 {
        '9'
    } else if n == 10 {
        'a'
    } else if n == 11 {
        'b'
    } else if n == 12 {
        'c'
    } else if n == 13 {
        'd'
    } else if n == 14 {
        'e'
    } else {
        'f'
    }
}

/// The two hexadecimal digits of each byte, the higher one first.
pub open spec fn hex_text(bytes: Seq<u8>) -> Seq<char> {
    Seq::new(
        2 * bytes.len(),
        |i: int|
            if i % 2 == 0 {
                hex_digit((bytes[i / 2] / 16) as u8)
            } else {
                hex_digit((bytes[i / 2] % 16) as u8)
            },
    )
}

/// The number that a hexadecimal digit of either case stands for.
pub open spec fn hex_value(digit: char) -> Option<u8> {
    if '0' <= digit && digit <= '9' {
        Some((digit as u32 - '0' as u32) as u8)
    } else if 'a' <= digit && digit <= 'f' {
        Some((digit as u32 - 'a' as u32 + 10) as u8)
    } else if 'A' <= digit && digit <= 'F' {
        Some((digit as u32 - 'A' as u32 + 10) as u8)
    } else {
        None
    }
}

/// Whether a text is made of pairs of hexadecimal digits.
pub open spec fn is_hex(text: Seq<char>) -> bool {
    text.len() % 2 == 0 && forall|i: int|
        0 <= i < text.len() ==> hex_value(#[trigger] text[i]).is_some()
}

/// The bytes that pairs of hexadecimal digits stand for.
pub open spec fn hex_bytes(text: Seq<char>) -> Seq<u8> {
    Seq::new(
        text.len() / 2,
        |i: int| (16 * hex_value(text[2 * i]).unwrap() + hex_value(text[2 * i + 1]).unwrap()) as u8,
    )
}

/// Calls `hex::encode`. Its contract claims that the text holds, for each byte in turn, its two
/// lower-case hexadecimal digits, the higher one first.
#[verifier::external_body]
fn hex_encode(bytes: &[u8]) -> (text: String)
    ensures
        text@ == hex_text(bytes@),
{
    hex::encode(bytes)
}

/// Calls `hex::decode` and drops the error's details. Its contract claims that it succeeds exactly
/// on pairs of hexadecimal digits of either case, and then gives one byte for each pair.
#[verifier::external_body]
fn hex_decode(text: &str) -> (bytes: Option<Vec<u8>>)
    ensures
        bytes.is_some() <==> is_hex(text@),
        bytes.is_some() ==> bytes.unwrap()@ == hex_bytes(text@),
{
    hex::decode(text).ok()
}

/// Calls `rand::random` for 20 bytes. Nothing is claimed of them.
#[verifier::external_body]
fn random_id() -> (bytes: [u8; 20]) {
    rand::random()
}

/// The first four bytes of an info hash in hexadecimal digits.
pub fn short_info_hash(info_hash: InfoHash) -> (text: String)
    ensures
        text@ == hex_text(info_hash.bytes@.take(4)),
{
    let mut head: Vec<u8> = Vec::new();
    head.push(info_hash.bytes[0]);
    head.push(info_hash.bytes[1]);
    head.push(info_hash.bytes[2]);
    head.push(info_hash.bytes[3]);
    assert(head@ =~= info_hash.bytes@.take(4));
    hex_encode(head.as_slice())
}

/// The label of an info hash, or no text where there is none.
pub fn optional_info_hash_label(info_hash: Option<InfoHash>) -> (text: String)
    ensures
        text@ == match info_hash {
            Some(info_hash) => hex_text(info_hash.bytes@.take(4)),
            None => Seq::<char>::empty(),
        },
{
    match info_hash {
        Some(info_hash) => short_info_hash(info_hash),
        None => String::new(),
    }
}

/// Whether a text is 20 bytes in hexadecimal digits.
pub open spec fn is_node_id_text(text: Seq<char>) -> bool {
    is_hex(text) && text.len() == 2 * ID_LEN
}

/// The node id that was configured as hexadecimal digits, where these are exactly 20 bytes.
pub fn configured_node_id(text: &str) -> (node_id: Option<NodeId>)
    ensures
        node_id.is_some() <==> is_node_id_text(text@),
        node_id.is_some() ==> node_id.unwrap().bytes@ =~= hex_bytes(text@),
{
    match hex_decode(text) {
        Some(bytes) => match id_bytes(&bytes) {
            Some(bytes) => Some(NodeId { bytes }),
            None => None,
        },
        None => None,
    }
}

/// The node id that is known beforehand: the configured one where it is one, else the persisted
/// one.
pub fn preferred_node_id(configured: Option<&str>, persisted: Option<NodeId>) -> (node_id: Option<
    NodeId,
>)
    ensures
        match configured {
            Some(text) if is_node_id_text(text@) => node_id.is_some() && node_id.unwrap().bytes@
                =~= hex_bytes(text@),
            _ => node_id == persisted,
        },
{
    if let Some(text) = configured {
        if let Some(node_id) = configured_node_id(text) {
            return Some(node_id);
        }
    }
    persisted
}

/// The service's own node id: the configured one, else the persisted one, else a random one. Of
/// the random one nothing is claimed.
pub fn configured_or_persisted_local_node_id(
    configured: Option<&str>,
    persisted: Option<NodeId>,
) -> (node_id: NodeId)
    ensures
        match configured {
            Some(text) if is_node_id_text(text@) => node_id.bytes@ =~= hex_bytes(text@),
            _ => match persisted {
                Some(persisted) => node_id == persisted,
                None => true,
            },
        },
{
    match preferred_node_id(configured, persisted) {
        Some(node_id) => node_id,
        None => NodeId { bytes: random_id() },
    }
}

/// Bytes that were written in hexadecimal digits are read back as they were.
pub proof fn hex_text_reads_back(bytes: Seq<u8>)
    ensures
        is_hex(hex_text(bytes)),
        hex_bytes(hex_text(bytes)) == bytes,
{
    let text = hex_text(bytes);
    assert forall|i: int| 0 <= i < text.len() implies hex_value(#[trigger] text[i]).is_some() by {
        lemma_hex_digit((bytes[i / 2] / 16) as u8);
        lemma_hex_digit((bytes[i / 2] % 16) as u8);
    }
    assert forall|i: int| 0 <= i < bytes.len() implies #[trigger] hex_bytes(text)[i] == bytes[i] by {
        assert(text[2 * i] == hex_digit((bytes[i] / 16) as u8));
        assert(text[2 * i + 1] == hex_digit((bytes[i] % 16) as u8));
        lemma_hex_digit((bytes[i] / 16) as u8);
        lemma_hex_digit((bytes[i] % 16) as u8);
    }
    assert(hex_bytes(text) =~= bytes);
}

proof fn lemma_hex_digit(n: u8)
    requires
        n < 16,
    ensures
        hex_value(hex_digit(n)) == Some(n),
{
}

} // verus!
