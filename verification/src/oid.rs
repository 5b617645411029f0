//! Twelve-byte identifiers of users, projects and avatars, and their hexadecimal text.

use vstd::prelude::*;
use vstd::std_specs::cmp::PartialEqSpecImpl;
use crate::errors::{AppError, AppErrorType, AppErrorView};

verus! {

/// The identifier of a record: twelve bytes, unique to the record.
#[derive(Clone, Copy, Debug, Eq, Hash)]
pub struct ObjectId {
    pub bytes: [u8; 12],
}

impl PartialEq for ObjectId {
    fn eq(&self, other: &ObjectId) -> (same: bool) {
        let mut i: usize = 0;
        while i < 12
            invariant
                i <= 12,
                forall|k: int| 0 <= k < i ==> self.bytes[k] == other.bytes[k],
            decreases 12 - i,
        {
            if self.bytes[i] != other.bytes[i] {
                return false;
            }
            i = i + 1;
        }
        assert(self.bytes =~= other.bytes);
        true
    }
}

impl PartialEqSpecImpl for ObjectId {
    open spec fn obeys_eq_spec() -> bool {
        true
    }

    open spec fn eq_spec(&self, other: &ObjectId) -> bool {
        *self == *other
    }
}

/// The sixteen digits of lower-case hexadecimal text.
pub open spec fn hex_digits() -> Seq<char> {
    seq!['0', '1', '2', '3', '4', '5', '6', '7', '8', '9', 'a', 'b', 'c', 'd', 'e', 'f']
}

/// The value of a hexadecimal digit in either case; no value for any other character.
pub open spec fn hex_value(c: char) -> Option<int> {
    if '0' <= c <= '9' {
        Some(c as int - '0' as int)
    } else if 'a' <= c <= 'f' {
        Some(c as int - 'a' as int + 10)
    } else if 'A' <= c <= 'F' {
        Some(c as int - 'A' as int + 10)
    } else {
        None
    }
}

/// The hexadecimal text of a run of bytes: two lower-case digits for each byte, the high
/// half first.
pub open spec fn hex_text(bytes: Seq<u8>) -> Seq<char> {
    Seq::new(
        2 * bytes.len(),
        |i: int|
            if i % 2 == 0 {
                hex_digits()[bytes[i / 2] as int / 16]
            } else {
                hex_digits()[bytes[i / 2] as int % 16]
            },
    )
}

/// Whether a text is the hexadecimal form of an identifier: twenty-four digits, in either
/// case.
pub open spec fn is_hex_id(text: Seq<char>) -> bool {
    &&& text.len() == 24
    &&& forall|i: int| 0 <= i < 24 ==> hex_value(#[trigger] text[i]) is Some
}

/// The twelve bytes that a hexadecimal text of twenty-four digits stands for.
pub open spec fn hex_bytes(text: Seq<char>) -> Seq<u8> {
    Seq::new(12, |k: int| (16 * hex_value(text[2 * k])->0 + hex_value(text[2 * k + 1])->0) as u8)
}

/// What `bson` says of a text that is not the hexadecimal form of an identifier.
pub uninterp spec fn hex_id_refusal(text: Seq<char>) -> Seq<char>;

/// The identifier that a text stands for, where it is the hexadecimal form of one.
pub open spec fn text_id(text: Seq<char>) -> Option<ObjectId> {
    if is_hex_id(text) {
        Some(choose|id: ObjectId| id.bytes@ == hex_bytes(text))
    } else {
        None
    }
}

/// The failure that reports a text that is not the hexadecimal form of an identifier.
pub open spec fn bad_id(text: Seq<char>) -> AppErrorView {
    AppErrorView { message: None, cause: Some(hex_id_refusal(text)), error_type: AppErrorType::DbError }
}

/// A digit of lower-case hexadecimal text has the value that it was written for.
proof fn lemma_hex_digit(n: int)
    requires
        0 <= n < 16,
    ensures
        hex_value(hex_digits()[n]) == Some(n),
{
    if n == 0 {
    } else if n == 1 {
    } else if n == 2 {
    } else if n == 3 {
    } else if n == 4 {
    } else if n == 5 {
    } else if n == 6 {
    } else if n == 7 {
    } else if n == 8 {
    } else if n == 9 {
    } else if n == 10 {
    } else if n == 11 {
    } else if n == 12 {
    } else if n == 13 {
    } else if n == 14 {
    } else {
    }
}

/// The text that an identifier is written as is read back as the same identifier.
pub proof fn law_hex_round_trip(id: ObjectId)
    ensures
        is_hex_id(hex_text(id.bytes@)),
        hex_bytes(hex_text(id.bytes@)) == id.bytes@,
        text_id(hex_text(id.bytes@)) == Some(id),
{
    let bytes = id.bytes@;
    let text = hex_text(bytes);
    assert(bytes.len() == 12);
    assert forall|i: int| 0 <= i < 24 implies hex_value(#[trigger] text[i]) is Some by {
        let b = bytes[i / 2] as int;
        lemma_hex_digit(b / 16);
        lemma_hex_digit(b % 16);
    }
    assert forall|k: int| 0 <= k < 12 implies #[trigger] hex_bytes(text)[k] == bytes[k] by {
        let b = bytes[k] as int;
        lemma_hex_digit(b / 16);
        lemma_hex_digit(b % 16);
        assert((2 * k) / 2 == k && (2 * k) % 2 == 0);
        assert((2 * k + 1) / 2 == k && (2 * k + 1) % 2 == 1);
        assert(text[2 * k] == hex_digits()[b / 16]);
        assert(text[2 * k + 1] == hex_digits()[b % 16]);
        assert(16 * (b / 16) + b % 16 == b);
    }
    assert(hex_bytes(text) =~= bytes);
    let read = text_id(text)->0;
    assert(read.bytes@ == hex_bytes(text));
    assert(read.bytes =~= id.bytes);
}

impl ObjectId {
    /// The identifier made of the given bytes.
    pub fn from_bytes(bytes: [u8; 12]) -> (id: ObjectId)
        ensures
            id.bytes == bytes,
    {
        ObjectId { bytes }
    }

    /// The bytes of this identifier.
    pub fn bytes(&self) -> (bytes: [u8; 12])
        ensures
            bytes == self.bytes,
    {
        self.bytes
    }

    /// A fresh identifier, from `bson::oid::ObjectId::new`, which draws on the clock, on a
    /// random value of the process and on a counter. Nothing is claimed of the bytes. `bson`
    /// gives up where the clock of the system stands before 1970.
    #[verifier::external_body]
    pub(crate) fn generate() -> (id: ObjectId) {
        ObjectId { bytes: bson::oid::ObjectId::new().bytes() }
    }

    /// The hexadecimal text of this identifier, from `bson::oid::ObjectId::to_hex`: the
    /// lower-case encoding of the twelve bytes, as the `hex` crate writes it.
    #[verifier::external_body]
    pub(crate) fn hex(&self) -> (text: String)
        ensures
            text@ == hex_text(self.bytes@),
    {
        bson::oid::ObjectId::from_bytes(self.bytes).to_hex()
    }

    /// Reads an identifier with `bson::oid::ObjectId::parse_str`. It accepts exactly the
    /// texts of twenty-four hexadecimal digits, in either case, and takes each pair of
    /// digits for one byte. For any other text it hands back what `bson` says of it.
    #[verifier::external_body]
    pub(crate) fn read_hex(text: &str) -> (read: Result<ObjectId, String>)
        ensures
            read is Ok <==> is_hex_id(text@),
            read matches Ok(id) ==> id.bytes@ == hex_bytes(text@),
            read matches Err(why) ==> why@ == hex_id_refusal(text@),
    {
        match bson::oid::ObjectId::parse_str(text) {
            Ok(id) => Ok(ObjectId { bytes: id.bytes() }),
            Err(why) => Err(why.to_string()),
        }
    }

    /// A fresh identifier.
    pub fn new() -> ObjectId {
        ObjectId::generate()
    }

    /// The hexadecimal text of this identifier: twenty-four lower-case digits.
    pub fn to_hex(&self) -> (text: String)
        ensures
            text@ == hex_text(self.bytes@),
            text@.len() == 24,
    {
        self.hex()
    }

    /// Reads an identifier from its hexadecimal text. A text that is not twenty-four
    /// hexadecimal digits is refused as a failure of the document store, which could
    /// not have held a record under it.
    pub fn parse_str(text: &str) -> (parsed: Result<ObjectId, AppError>)
        ensures
            match text_id(text@) {
                Some(id) => parsed == Ok::<ObjectId, AppError>(id) && id.bytes@ == hex_bytes(text@),
                None => parsed matches Err(e) && e@ == bad_id(text@),
            },
    {
        match ObjectId::read_hex(text) {
            Ok(id) => {
                proof {
                    let other = text_id(text@)->0;
                    assert(other.bytes@ == hex_bytes(text@));
                    assert(id.bytes =~= other.bytes);
                }
                Ok(id)
            },
            Err(why) => Err(AppError::db_error(why.as_str())),
        }
    }
}

} // verus!
