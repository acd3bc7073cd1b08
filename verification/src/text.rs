//! A rendering of a record as text, for diagnostics: one line for each
//! field, binary fields in base64, numbers in decimal.

use crate::bytes::{le_value, lemma_pow256_values, read_le};
use crate::crypto::{base64_encode, base64_standard};
use crate::layout::{
    field, ADDRESS_END, ADDRESS_START, APPFLAGS_END, APPFLAGS_START, AUTHOR_KEY_END,
    AUTHOR_KEY_START, FLAGS_END, FLAGS_START, ID_END, ID_START, KIND_END, KIND_START,
    SIGNING_KEY_END, SIGNING_KEY_START, TIMESTAMP_END, TIMESTAMP_START,
};
use crate::record::{payload_of, tags_of, OwnedRecord, Record};
use vstd::prelude::*;
use vstd::string::StringExecFns;

verus! {

/// The character of one decimal digit.
pub open spec fn digit_char(d: nat) -> char {
    if d == 0 {
        '0'
    } else if d == 1 {
        '1'
    } else if d == 2 {
        '2'
    } else if d == 3 {
        '3'
    } else if d == 4 {
        '4'
    } else if d == 5 {
        '5'
    } else if d == 6 {
        '6'
    } else if d == 7 {
        '7'
    } else if d == 8 {
        '8'
    } else {
        '9'
    }
}

/// The decimal digits of `v`, most significant first, without leading zeros.
pub open spec fn decimal(v: nat) -> Seq<char>
    decreases v,
{
    if v < 10 {
        seq![digit_char(v)]
    } else {
        decimal(v / 10).push(digit_char(v % 10))
    }
}

/// The text of a record with the bytes `b`.
pub open spec fn rendering(b: Seq<u8>) -> Seq<char> {
    let id = base64_standard(field(b, ID_START, ID_END));
    let address = base64_standard(field(b, ADDRESS_START, ADDRESS_END));
    let author_key = base64_standard(field(b, AUTHOR_KEY_START, AUTHOR_KEY_END));
    let signing_key = base64_standard(field(b, SIGNING_KEY_START, SIGNING_KEY_END));
    let timestamp = decimal(le_value(field(b, TIMESTAMP_START, TIMESTAMP_END)));
    let kind = decimal(le_value(field(b, KIND_START, KIND_END)));
    let flags = decimal(le_value(field(b, FLAGS_START, FLAGS_END)));
    let app_flags = decimal(le_value(field(b, APPFLAGS_START, APPFLAGS_END)));
    let tags = base64_standard(tags_of(b));
    let payload = base64_standard(payload_of(b));
    "id: "@ + id + "\n  address: "@ + address + "\n  author key: "@ + author_key
        + "\n  signing key: "@ + signing_key + "\n  timestamp: "@ + timestamp + "\n  kind: "@
        + kind + "\n  flags: "@ + flags + " "@ + app_flags + "\n  tags: "@ + tags
        + "\n  payload: "@ + payload + "\n"@
}

/// The text of one decimal digit.
fn digit_text(d: u64) -> (text: &'static str)
    requires
        d < 10,
    ensures
        text@ == seq![digit_char(d as nat)],
{
    proof {
        reveal_strlit("0");
        reveal_strlit("1");
        reveal_strlit("2");
        reveal_strlit("3");
        reveal_strlit("4");
        reveal_strlit("5");
        reveal_strlit("6");
        reveal_strlit("7");
        reveal_strlit("8");
        reveal_strlit("9");
    }
    let text: &'static str = if d == 0 {
        "0"
    } else if d == 1 {
        "1"
    } else if d == 2 {
        "2"
    } else if d == 3 {
        "3"
    } else if d == 4 {
        "4"
    } else if d == 5 {
        "5"
    } else if d == 6 {
        "6"
    } else if d == 7 {
        "7"
    } else if d == 8 {
        "8"
    } else {
        "9"
    };
    assert(text@ =~= seq![digit_char(d as nat)]);
    text
}

/// Writes `v` in decimal.
pub fn decimal_text(v: u64) -> (text: String)
    ensures
        text@ == decimal(v as nat),
    decreases v,
{
    if v < 10 {
        String::from_str(digit_text(v))
    } else {
        let mut text: String = decimal_text(v / 10);
        text.append(digit_text(v % 10));
        proof {
            assert(text@ =~= decimal((v / 10) as nat).push(digit_char((v % 10) as nat)));
        }
        text
    }
}

impl<'a> Record<'a> {
    /// The record as text, for diagnostics: identifier, address and keys,
    /// tags and payload in base64; timestamp, kind, flags and application
    /// flags in decimal. The fields are shown as they stand, verified or
    /// not.
    pub fn to_text(&self) -> (text: String)
        ensures
            text@ == rendering(self@),
    {
        let bytes: &[u8] = self.as_bytes();
        let tags: &[u8] = self.tags_bytes();
        let payload: &[u8] = self.payload_bytes();
        proof {
            lemma_pow256_values();
        }
        let mut text: String = String::from_str("id: ");
        text.append(base64_encode(&bytes[ID_START..ID_END]).as_str());
        text.append("\n  address: ");
        text.append(base64_encode(&bytes[ADDRESS_START..ADDRESS_END]).as_str());
        text.append("\n  author key: ");
        text.append(base64_encode(&bytes[AUTHOR_KEY_START..AUTHOR_KEY_END]).as_str());
        text.append("\n  signing key: ");
        text.append(base64_encode(&bytes[SIGNING_KEY_START..SIGNING_KEY_END]).as_str());
        text.append("\n  timestamp: ");
        text.append(decimal_text(read_le(bytes, TIMESTAMP_START, 6)).as_str());
        text.append("\n  kind: ");
        text.append(decimal_text(read_le(bytes, KIND_START, 2)).as_str());
        text.append("\n  flags: ");
        text.append(decimal_text(read_le(bytes, FLAGS_START, 2)).as_str());
        text.append(" ");
        text.append(decimal_text(read_le(bytes, APPFLAGS_START, 2)).as_str());
        text.append("\n  tags: ");
        text.append(base64_encode(tags).as_str());
        text.append("\n  payload: ");
        text.append(base64_encode(payload).as_str());
        text.append("\n");
        text
    }
}

impl OwnedRecord {
    /// The record as text, as [`Record::to_text`] gives it.
    pub fn to_text(&self) -> (text: String)
        ensures
            text@ == rendering(self@),
    {
        self.as_record().to_text()
    }
}

} // verus!
