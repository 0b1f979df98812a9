//! The ids of DDS entities, written as hexadecimal text.
use vstd::prelude::*;

use crate::text::texts;

verus! {

/// The digit for a value below sixteen, in lower case.
pub open spec fn hex_digit(value: int) -> char {
    if value < 10 {
        (0x30 + value) as char
    } else {
        (0x61 + value - 10) as char
    }
}

/// The bytes as text, two digits for each.
pub open spec fn hex_text(bytes: Seq<u8>) -> Seq<char> {
    Seq::new(
        2 * bytes.len(),
        |i: int|
            hex_digit(
                if i % 2 == 0 {
                    bytes[i / 2] as int / 16
                } else {
                    bytes[i / 2] as int % 16
                },
            ),
    )
}

/// The value of a digit, of either case.
pub open spec fn hex_value(digit: u8) -> Option<int> {
    if 0x30 <= digit <= 0x39 {
        Some(digit - 0x30)
    } else if 0x61 <= digit <= 0x66 {
        Some(digit - 0x61 + 10)
    } else if 0x41 <= digit <= 0x46 {
        Some(digit - 0x41 + 10)
    } else {
        None
    }
}

/// The bytes that digits stand for, two digits for each.
pub open spec fn hex_bytes(digits: Seq<u8>) -> Seq<u8> {
    Seq::new(
        digits.len() / 2,
        |i: int| (16 * hex_value(digits[2 * i])->Some_0 + hex_value(digits[2 * i + 1])->Some_0) as u8,
    )
}

/// Whether bytes are made of pairs of hexadecimal digits.
pub open spec fn is_hex(digits: Seq<u8>) -> bool {
    &&& digits.len() % 2 == 0
    &&& forall|i: int| 0 <= i < digits.len() ==> hex_value(#[trigger] digits[i]) is Some
}

/// The bytes of a text.
pub open spec fn text_bytes(text: Seq<char>) -> Seq<u8> {
    vstd::utf8::encode_utf8(text)
}

/// Why a text does not stand for bytes.
#[derive(Clone, Copy, Debug, PartialEq, Eq, Structural)]
pub enum HexError {
    /// The byte at `index` is no digit.
    InvalidHexCharacter { c: char, index: usize },
    /// There is a digit too many.
    OddLength,
    /// The text does not have the length that is asked for.
    InvalidStringLength,
}

/// Whether `e` is why bytes are not pairs of hexadecimal digits: there is an odd number of them,
/// or else the first that is no digit is told.
pub open spec fn fails_with(digits: Seq<u8>, e: HexError) -> bool {
    match e {
        HexError::OddLength => digits.len() % 2 == 1,
        HexError::InvalidHexCharacter { c, index } => {
            &&& digits.len() % 2 == 0
            &&& index < digits.len()
            &&& hex_value(digits[index as int]) is None
            &&& forall|i: int| 0 <= i < index ==> hex_value(#[trigger] digits[i]) is Some
            &&& c as int == digits[index as int]
        },
        HexError::InvalidStringLength => false,
    }
}

/// Calls `hex::encode`, which writes two digits in lower case for each byte.
#[verifier::external_body]
fn encode(bytes: &[u8]) -> (text: String)
    ensures
        text@ == hex_text(bytes@),
{
    hex::encode(bytes)
}

/// Calls `hex::decode`, which reads the text's bytes as digits of either case. It fails on an odd number of them,
/// and else on the first that is no digit, telling that byte and its place.
#[verifier::external_body]
fn decode(text: &str) -> (bytes: Result<Vec<u8>, HexError>)
    ensures
        match bytes {
            Ok(read) => {
                &&& is_hex(text_bytes(text@))
                &&& read@ == hex_bytes(text_bytes(text@))
            },
            Err(e) => fails_with(text_bytes(text@), e),
        },
{
    hex::decode(text).map_err(|e| match e {
        hex::FromHexError::InvalidHexCharacter { c, index } => HexError::InvalidHexCharacter { c, index },
        hex::FromHexError::OddLength => HexError::OddLength,
        hex::FromHexError::InvalidStringLength => HexError::InvalidStringLength,
    })
}

/// The text of an id.
pub fn gid_text(bytes: &[u8]) -> (text: String)
    ensures
        text@ == hex_text(bytes@),
{
    encode(bytes)
}

/// How many bytes an id has in the messages of ROS.
pub const ROS_GID_LEN: usize = 24;

/// How many bytes an id has in DDS.
pub const DDS_GID_LEN: usize = 16;

/// What an id is in the messages of ROS: its bytes, cut or filled with zeros.
pub open spec fn ros_gid_of(bytes: Seq<u8>) -> Seq<u8> {
    Seq::new(
        ROS_GID_LEN as nat,
        |i: int|
            if i < bytes.len() {
                bytes[i]
            } else {
                0u8
            },
    )
}

/// The bytes for an id in the messages of ROS.
pub fn gid_to_ros(gid: &str) -> (bytes: Result<Vec<u8>, HexError>)
    ensures
        match bytes {
            Ok(ros) => {
                &&& is_hex(text_bytes(gid@))
                &&& ros@ == ros_gid_of(hex_bytes(text_bytes(gid@)))
            },
            Err(e) => fails_with(text_bytes(gid@), e),
        },
{
    match decode(gid) {
        Ok(read) => {
            let ghost all = read@;
            let mut bytes: Vec<u8> = read;
            if bytes.len() > ROS_GID_LEN {
                bytes.truncate(ROS_GID_LEN);
            }
            while bytes.len() < ROS_GID_LEN
                invariant
                    bytes@.len() <= ROS_GID_LEN,
                    forall|i: int|
                        0 <= i < bytes@.len() ==> #[trigger] bytes@[i] == (if i < all.len() {
                            all[i]
                        } else {
                            0u8
                        }),
                    all.len() <= bytes@.len() || bytes@.len() == ROS_GID_LEN,
                decreases ROS_GID_LEN - bytes@.len(),
            {
                bytes.push(0);
            }
            assert(bytes@ =~= ros_gid_of(all));
            Ok(bytes)
        },
        Err(e) => Err(e),
    }
}

/// The id for its bytes in a message of ROS: the last eight are not used.
pub fn gid_from_ros(bytes: &[u8; 24]) -> (gid: String)
    ensures
        gid@ == hex_text(bytes@.take(DDS_GID_LEN as int)),
{
    let mut first: Vec<u8> = Vec::new();
    let mut i: usize = 0;
    while i < DDS_GID_LEN
        invariant
            i <= DDS_GID_LEN,
            first@ == bytes@.take(i as int),
        decreases DDS_GID_LEN - i,
    {
        first.push(bytes[i]);
        assert(bytes@.take(i + 1) =~= bytes@.take(i as int).push(bytes@[i as int]));
        i += 1;
    }
    encode(first.as_slice())
}

/// What some ids are in the messages of ROS.
pub open spec fn ros_gids_of(gids: Seq<Seq<char>>) -> Seq<Seq<u8>> {
    gids.map_values(|gid: Seq<char>| ros_gid_of(hex_bytes(text_bytes(gid))))
}

/// The bytes for some ids in the messages of ROS. Where one is not hexadecimal, tells the first such and why.
pub fn gids_to_ros(gids: &Vec<String>) -> (bytes: Result<Vec<Vec<u8>>, (usize, HexError)>)
    ensures
        match bytes {
            Ok(list) => {
                &&& list@.map_values(|b: Vec<u8>| b@) == ros_gids_of(texts(gids@))
                &&& forall|i: int| 0 <= i < gids@.len() ==> is_hex(text_bytes((#[trigger] gids@[i])@))
            },
            Err((at, e)) => {
                &&& at < gids@.len()
                &&& fails_with(text_bytes(gids@[at as int]@), e)
                &&& forall|i: int| 0 <= i < at ==> is_hex(text_bytes((#[trigger] gids@[i])@))
            },
        },
{
    let ghost all = ros_gids_of(texts(gids@));
    let mut list: Vec<Vec<u8>> = Vec::new();
    let mut i: usize = 0;
    while i < gids.len()
        invariant
            i <= gids@.len(),
            all == ros_gids_of(texts(gids@)),
            list@.len() == i,
            forall|j: int| 0 <= j < i ==> is_hex(text_bytes((#[trigger] gids@[j])@)),
            forall|j: int| 0 <= j < i ==> (#[trigger] list@[j])@ == all[j],
        decreases gids@.len() - i,
    {
        match gid_to_ros(gids[i].as_str()) {
            Ok(bytes) => {
                assert(bytes@ == all[i as int]);
                list.push(bytes);
            },
            Err(e) => {
                return Err((i, e));
            },
        }
        i += 1;
    }
    assert(list@.map_values(|b: Vec<u8>| b@) =~= all);
    Ok(list)
}

/// The ids for their bytes in a message of ROS.
pub fn gids_from_ros(list: &Vec<[u8; 24]>) -> (gids: Vec<String>)
    ensures
        gids@.len() == list@.len(),
        forall|i: int| 0 <= i < list@.len() ==> (#[trigger] gids@[i])@ == hex_text(list@[i]@.take(DDS_GID_LEN as int)),
{
    let mut gids: Vec<String> = Vec::new();
    let mut i: usize = 0;
    while i < list.len()
        invariant
            i <= list@.len(),
            gids@.len() == i,
            forall|j: int| 0 <= j < i ==> (#[trigger] gids@[j])@ == hex_text(list@[j]@.take(DDS_GID_LEN as int)),
        decreases list@.len() - i,
    {
        gids.push(gid_from_ros(&list[i]));
        i += 1;
    }
    gids
}

/// The digits of a text of digits are its characters.
proof fn lemma_hex_text_bytes(bytes: Seq<u8>)
    ensures
        vstd::utf8::is_ascii_chars(hex_text(bytes)),
        vstd::utf8::encode_utf8(hex_text(bytes)).len() == 2 * bytes.len(),
        forall|i: int|
            0 <= i < 2 * bytes.len() ==> #[trigger] vstd::utf8::encode_utf8(hex_text(bytes))[i]
                == hex_text(bytes)[i] as u8,
{
    let text = hex_text(bytes);
    assert forall|i: int| 0 <= i < text.len() implies 0 <= (#[trigger] text[i]) as int <= 0x7f by {
        let b = bytes[i / 2] as int;
        assert(0 <= b / 16 < 16);
        assert(0 <= b % 16 < 16);
    }
    vstd::utf8::is_ascii_chars_encode_utf8(text);
}

/// The bytes that the text of an id stands for are those it was written from.
pub proof fn law_hex_round_trip(bytes: Seq<u8>)
    ensures
        is_hex(text_bytes(hex_text(bytes))),
        hex_bytes(text_bytes(hex_text(bytes))) == bytes,
{
    lemma_hex_text_bytes(bytes);
    let text = hex_text(bytes);
    let digits = vstd::utf8::encode_utf8(text);
    assert forall|i: int| 0 <= i < digits.len() implies hex_value(#[trigger] digits[i]) == Some(
        if i % 2 == 0 {
            bytes[i / 2] as int / 16
        } else {
            bytes[i / 2] as int % 16
        },
    ) by {
        let b = bytes[i / 2] as int;
        assert(digits[i] == text[i] as u8);
        assert(0 <= b / 16 < 16);
        assert(0 <= b % 16 < 16);
    }
    assert forall|i: int| 0 <= i < bytes.len() implies #[trigger] hex_bytes(digits)[i] == bytes[i] by {
        assert(hex_value(digits[2 * i]) == Some(bytes[i] as int / 16));
        assert(hex_value(digits[2 * i + 1]) == Some(bytes[i] as int % 16));
        let b = bytes[i] as int;
        assert(16 * (b / 16) + b % 16 == b);
    }
    assert(hex_bytes(digits) =~= bytes);
}

/// A DDS id survives its way through a message of ROS: the bytes of its text, filled up, begin with the id.
pub proof fn law_gid_round_trip(gid: Seq<u8>)
    requires
        gid.len() == DDS_GID_LEN,
    ensures
        hex_text(ros_gid_of(hex_bytes(text_bytes(hex_text(gid)))).take(DDS_GID_LEN as int)) == hex_text(
            gid,
        ),
{
    law_hex_round_trip(gid);
    assert(ros_gid_of(gid).take(DDS_GID_LEN as int) =~= gid);
}

} // verus!
