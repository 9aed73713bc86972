//! The text of a sealed record: a salt, a nonce and a ciphertext as one
//! object of three lists of numbers,
//! `{"salt":[..],"nonce":[..],"cipher":[..]}`, without white space.

use crate::bytes::append_bytes;
use vstd::prelude::*;

verus! {

/// What password-based encryption gives: the salt of the password hash, the
/// nonce of the cipher, and the ciphertext with its tag.
pub struct ReturnBundleData {
    /// The salt from which, with the passphrase, the key was derived.
    pub salt: Vec<u8>,
    /// The nonce under which the key material was encrypted.
    pub nonce: Vec<u8>,
    /// The encrypted key material with its tag.
    pub cipher: Vec<u8>,
}

/// The character `0`.
pub const ZERO: u8 = 48;

/// The character `9`.
pub const NINE: u8 = 57;

/// The character `,`.
pub const COMMA: u8 = 44;

/// The character `[`.
pub const OPEN: u8 = 91;

/// The character `]`.
pub const CLOSE: u8 = 93;

/// The character `}`.
pub const END: u8 = 125;

/// The text `{"salt":`.
pub open spec fn salt_key() -> Seq<u8> {
    seq![123u8, 34u8, 115u8, 97u8, 108u8, 116u8, 34u8, 58u8]
}

/// The text `,"nonce":`.
pub open spec fn nonce_key() -> Seq<u8> {
    seq![44u8, 34u8, 110u8, 111u8, 110u8, 99u8, 101u8, 34u8, 58u8]
}

/// The text `,"cipher":`.
pub open spec fn cipher_key() -> Seq<u8> {
    seq![44u8, 34u8, 99u8, 105u8, 112u8, 104u8, 101u8, 114u8, 34u8, 58u8]
}

/// Whether a byte is a decimal digit.
pub open spec fn is_digit(byte: u8) -> bool {
    ZERO <= byte <= NINE
}

/// The decimal digits of a byte, without leading zeroes.
pub open spec fn decimal(value: u8) -> Seq<u8> {
    if value < 10 {
        seq![(ZERO + value) as u8]
    } else if value < 100 {
        seq![(ZERO + value / 10) as u8, (ZERO + value % 10) as u8]
    } else {
        seq![
            (ZERO + value / 100) as u8,
            (ZERO + (value / 10) % 10) as u8,
            (ZERO + value % 10) as u8,
        ]
    }
}

/// The numbers of a list, separated by commas.
pub open spec fn items_text(bytes: Seq<u8>) -> Seq<u8>
    decreases bytes.len(),
{
    if bytes.len() == 0 {
        Seq::empty()
    } else if bytes.len() == 1 {
        decimal(bytes[0])
    } else {
        decimal(bytes[0]) + seq![COMMA] + items_text(bytes.drop_first())
    }
}

/// A list of numbers in brackets.
pub open spec fn array_text(bytes: Seq<u8>) -> Seq<u8> {
    seq![OPEN] + items_text(bytes) + seq![CLOSE]
}

/// The text of a record.
pub open spec fn record_text(salt: Seq<u8>, nonce: Seq<u8>, cipher: Seq<u8>) -> Seq<u8> {
    salt_key() + array_text(salt) + nonce_key() + array_text(nonce) + cipher_key() + array_text(
        cipher,
    ) + seq![END]
}

/// The record of which a text is the text, or `None` for a text that is the
/// text of no record.
pub open spec fn record_of(text: Seq<u8>) -> Option<(Seq<u8>, Seq<u8>, Seq<u8>)> {
    if exists|salt: Seq<u8>, nonce: Seq<u8>, cipher: Seq<u8>|
        text == #[trigger] record_text(salt, nonce, cipher) {
        Some(
            choose|record: (Seq<u8>, Seq<u8>, Seq<u8>)|
                text == #[trigger] record_text(record.0, record.1, record.2),
        )
    } else {
        None
    }
}

/// A record that was read, as three byte sequences.
pub open spec fn record_view(record: Option<ReturnBundleData>) -> Option<
    (Seq<u8>, Seq<u8>, Seq<u8>),
> {
    match record {
        Some(read) => Some((read.salt@, read.nonce@, read.cipher@)),
        None => None,
    }
}

/// Whether `word` stands in `text` at the position `at`.
spec fn word_at(text: Seq<u8>, at: int, word: Seq<u8>) -> bool {
    0 <= at && at + word.len() <= text.len() && text.subrange(at, at + word.len()) == word
}

/// The number that starts at a position, and the position after it: at most
/// three digits, and only one where the first is a zero.
spec fn number_at(text: Seq<u8>, at: int) -> Option<(u8, int)> {
    if !(0 <= at < text.len()) || !is_digit(text[at]) {
        None
    } else {
        let d0 = text[at] - ZERO;
        if d0 == 0 || !(at + 1 < text.len() && is_digit(text[at + 1])) {
            Some((d0 as u8, at + 1))
        } else {
            let d1 = text[at + 1] - ZERO;
            if !(at + 2 < text.len() && is_digit(text[at + 2])) {
                Some(((d0 * 10 + d1) as u8, at + 2))
            } else {
                let d2 = text[at + 2] - ZERO;
                if d0 * 100 + d1 * 10 + d2 <= 255 {
                    Some(((d0 * 100 + d1 * 10 + d2) as u8, at + 3))
                } else {
                    None
                }
            }
        }
    }
}

/// The numbers that start at a position, up to the closing bracket, and the
/// position after that bracket.
spec fn items_at(text: Seq<u8>, at: int) -> Option<(Seq<u8>, int)>
    decreases text.len() - at,
{
    match number_at(text, at) {
        None => None,
        Some((value, end)) => if end >= text.len() {
            None
        } else if text[end] == CLOSE {
            Some((seq![value], end + 1))
        } else if text[end] == COMMA {
            match items_at(text, end + 1) {
                Some((rest, stop)) => Some((seq![value] + rest, stop)),
                None => None,
            }
        } else {
            None
        },
    }
}

/// The list that starts at a position, and the position after it.
spec fn array_at(text: Seq<u8>, at: int) -> Option<(Seq<u8>, int)> {
    if !(0 <= at < text.len()) || text[at] != OPEN {
        None
    } else if at + 1 < text.len() && text[at + 1] == CLOSE {
        Some((Seq::empty(), at + 2))
    } else {
        items_at(text, at + 1)
    }
}

/// The three lists of a text that is read as a record from its start to its
/// end.
spec fn record_in(text: Seq<u8>) -> Option<(Seq<u8>, Seq<u8>, Seq<u8>)> {
    if !word_at(text, 0, salt_key()) {
        None
    } else {
        match array_at(text, salt_key().len() as int) {
            None => None,
            Some((salt, after_salt)) => if !word_at(text, after_salt, nonce_key()) {
                None
            } else {
                match array_at(text, after_salt + nonce_key().len()) {
                    None => None,
                    Some((nonce, after_nonce)) => if !word_at(text, after_nonce, cipher_key()) {
                        None
                    } else {
                        match array_at(text, after_nonce + cipher_key().len()) {
                            None => None,
                            Some((cipher, after_cipher)) => if after_cipher + 1 == text.len()
                                && text[after_cipher] == END {
                                Some((salt, nonce, cipher))
                            } else {
                                None
                            },
                        }
                    },
                }
            },
        }
    }
}

/// A number that was read is written with the digits that were read.
proof fn lemma_number_sound(text: Seq<u8>, at: int)
    requires
        number_at(text, at) is Some,
    ensures
        at < number_at(text, at).unwrap().1 <= text.len(),
        text.subrange(at, number_at(text, at).unwrap().1) == decimal(
            number_at(text, at).unwrap().0,
        ),
{
}

/// A number that is written at a position and not followed by a digit is
/// read there.
proof fn lemma_number_complete(text: Seq<u8>, at: int, value: u8)
    requires
        word_at(text, at, decimal(value)),
        at + decimal(value).len() == text.len() || !is_digit(text[at + decimal(value).len()]),
    ensures
        number_at(text, at) == Some((value, at + decimal(value).len())),
{
    let part = text.subrange(at, at + decimal(value).len());
    assert(part[0] == text[at]);
}

/// Numbers that were read are written, with their commas and the closing
/// bracket, where they were read.
proof fn lemma_items_sound(text: Seq<u8>, at: int)
    requires
        items_at(text, at) is Some,
    ensures
        items_at(text, at).unwrap().0.len() >= 1,
        at < items_at(text, at).unwrap().1 <= text.len(),
        text.subrange(at, items_at(text, at).unwrap().1) == items_text(
            items_at(text, at).unwrap().0,
        ) + seq![CLOSE],
    decreases text.len() - at,
{
    lemma_number_sound(text, at);
    let (value, end) = number_at(text, at).unwrap();
    if text[end] != CLOSE {
        lemma_items_sound(text, end + 1);
        let bytes = items_at(text, at).unwrap().0;
        let rest = items_at(text, end + 1).unwrap().0;
        assert(bytes.drop_first() =~= rest);
        assert(items_text(bytes) + seq![CLOSE] =~= decimal(value) + seq![COMMA] + (items_text(rest)
            + seq![CLOSE]));
    }
}

/// Every byte of the digits of a number is a digit.
proof fn lemma_decimal_digits(value: u8)
    ensures
        1 <= decimal(value).len() <= 3,
        forall|i: int| 0 <= i < decimal(value).len() ==> is_digit(#[trigger] decimal(value)[i]),
{
}

/// Numbers that are written at a position, with their commas and a closing
/// bracket, are read there.
proof fn lemma_items_complete(text: Seq<u8>, at: int, bytes: Seq<u8>)
    requires
        bytes.len() >= 1,
        word_at(text, at, items_text(bytes) + seq![CLOSE]),
    ensures
        items_at(text, at) == Some((bytes, at + items_text(bytes).len() + 1)),
    decreases bytes.len(),
{
    let written = items_text(bytes) + seq![CLOSE];
    let digits = decimal(bytes[0]);
    let part = text.subrange(at, at + written.len());
    lemma_decimal_digits(bytes[0]);
    assert(text.subrange(at, at + digits.len()) =~= part.subrange(0, digits.len() as int));
    assert(part.subrange(0, digits.len() as int) =~= digits);
    assert(text[at + digits.len()] == part[digits.len() as int]);
    lemma_number_complete(text, at, bytes[0]);
    if bytes.len() > 1 {
        let rest = bytes.drop_first();
        let tail = items_text(rest) + seq![CLOSE];
        let skipped: int = digits.len() as int + 1;
        assert(text.subrange(at + skipped, at + skipped + tail.len()) =~= part.subrange(
            skipped,
            written.len() as int,
        ));
        assert(part.subrange(skipped, written.len() as int) =~= tail);
        lemma_items_complete(text, at + skipped, rest);
    }
}

/// A list that was read is written where it was read.
proof fn lemma_array_sound(text: Seq<u8>, at: int)
    requires
        array_at(text, at) is Some,
    ensures
        at < array_at(text, at).unwrap().1 <= text.len(),
        text.subrange(at, array_at(text, at).unwrap().1) == array_text(
            array_at(text, at).unwrap().0,
        ),
{
    if !(at + 1 < text.len() && text[at + 1] == CLOSE) {
        lemma_items_sound(text, at + 1);
        let bytes = array_at(text, at).unwrap().0;
        assert(array_text(bytes) =~= seq![OPEN] + (items_text(bytes) + seq![CLOSE]));
    }
}

/// A list that is written at a position is read there.
proof fn lemma_array_complete(text: Seq<u8>, at: int, bytes: Seq<u8>)
    requires
        word_at(text, at, array_text(bytes)),
    ensures
        array_at(text, at) == Some((bytes, at + array_text(bytes).len())),
{
    let written = array_text(bytes);
    let part = text.subrange(at, at + written.len());
    assert(text[at] == part[0]);
    if bytes.len() == 0 {
        assert(text[at + 1] == part[1]);
    } else {
        let inner = items_text(bytes) + seq![CLOSE];
        lemma_decimal_digits(bytes[0]);
        assert(text.subrange(at + 1, at + 1 + inner.len()) =~= part.subrange(
            1,
            written.len() as int,
        ));
        assert(part.subrange(1, written.len() as int) =~= inner);
        lemma_items_complete(text, at + 1, bytes);
    }
}

/// A text that is read as a record is the text of the record read.
proof fn lemma_record_sound(text: Seq<u8>)
    requires
        record_in(text) is Some,
    ensures
        text == record_text(
            record_in(text).unwrap().0,
            record_in(text).unwrap().1,
            record_in(text).unwrap().2,
        ),
{
    let salt_from = salt_key().len() as int;
    let salt_to = array_at(text, salt_from).unwrap().1;
    let nonce_from = salt_to + nonce_key().len();
    let nonce_to = array_at(text, nonce_from).unwrap().1;
    let cipher_from = nonce_to + cipher_key().len();
    lemma_array_sound(text, salt_from);
    lemma_array_sound(text, nonce_from);
    lemma_array_sound(text, cipher_from);
}

/// The text of a record is read as that record.
proof fn lemma_record_complete(salt: Seq<u8>, nonce: Seq<u8>, cipher: Seq<u8>)
    ensures
        record_in(record_text(salt, nonce, cipher)) == Some((salt, nonce, cipher)),
{
    let text = record_text(salt, nonce, cipher);
    let salt_from = salt_key().len() as int;
    let salt_to = salt_from + array_text(salt).len();
    let nonce_from = salt_to + nonce_key().len();
    let nonce_to = nonce_from + array_text(nonce).len();
    let cipher_from = nonce_to + cipher_key().len();
    let cipher_to = cipher_from + array_text(cipher).len();
    assert(text.subrange(0, salt_from) =~= salt_key());
    assert(text.subrange(salt_from, salt_to) =~= array_text(salt));
    assert(text.subrange(salt_to, nonce_from) =~= nonce_key());
    assert(text.subrange(nonce_from, nonce_to) =~= array_text(nonce));
    assert(text.subrange(nonce_to, cipher_from) =~= cipher_key());
    assert(text.subrange(cipher_from, cipher_to) =~= array_text(cipher));
    lemma_array_complete(text, salt_from, salt);
    lemma_array_complete(text, nonce_from, nonce);
    lemma_array_complete(text, cipher_from, cipher);
}

/// The numbers of a list take at most four bytes each.
proof fn lemma_items_text_len(bytes: Seq<u8>)
    ensures
        items_text(bytes).len() <= 4 * bytes.len(),
    decreases bytes.len(),
{
    if bytes.len() > 1 {
        lemma_items_text_len(bytes.drop_first());
    }
}

/// The text of a record is short: at most four bytes for each number of its
/// three lists, and 34 bytes around them.
pub proof fn lemma_record_text_len(salt: Seq<u8>, nonce: Seq<u8>, cipher: Seq<u8>)
    ensures
        record_text(salt, nonce, cipher).len() <= 4 * (salt.len() + nonce.len() + cipher.len())
            + 34,
{
    lemma_items_text_len(salt);
    lemma_items_text_len(nonce);
    lemma_items_text_len(cipher);
}

/// The text of a record is the text of no other record.
pub proof fn lemma_record_text_injective(
    salt: Seq<u8>,
    nonce: Seq<u8>,
    cipher: Seq<u8>,
    other_salt: Seq<u8>,
    other_nonce: Seq<u8>,
    other_cipher: Seq<u8>,
)
    requires
        record_text(salt, nonce, cipher) == record_text(other_salt, other_nonce, other_cipher),
    ensures
        salt == other_salt,
        nonce == other_nonce,
        cipher == other_cipher,
{
    lemma_record_complete(salt, nonce, cipher);
    lemma_record_complete(other_salt, other_nonce, other_cipher);
}

/// A record is read back from its text.
pub proof fn lemma_record_round_trip(salt: Seq<u8>, nonce: Seq<u8>, cipher: Seq<u8>)
    ensures
        record_of(record_text(salt, nonce, cipher)) == Some((salt, nonce, cipher)),
{
    let text = record_text(salt, nonce, cipher);
    let witness = (salt, nonce, cipher);
    assert(text == record_text(witness.0, witness.1, witness.2));
    let chosen = record_of(text).unwrap();
    lemma_record_text_injective(salt, nonce, cipher, chosen.0, chosen.1, chosen.2);
}

/// The text of a list with one more number is the text of the list, a comma
/// where the list was not empty, and the digits of the number.
proof fn lemma_items_push(bytes: Seq<u8>, value: u8)
    ensures
        items_text(bytes.push(value)) == if bytes.len() == 0 {
            decimal(value)
        } else {
            items_text(bytes) + seq![COMMA] + decimal(value)
        },
    decreases bytes.len(),
{
    if bytes.len() > 0 {
        let rest = bytes.drop_first();
        assert(bytes.push(value).drop_first() =~= rest.push(value));
        lemma_items_push(rest, value);
    }
}

/// The text `{"salt":`.
fn salt_key_bytes() -> (key: Vec<u8>)
    ensures
        key@ == salt_key(),
{
    let key: Vec<u8> = vec![123u8, 34u8, 115u8, 97u8, 108u8, 116u8, 34u8, 58u8];
    key
}

/// The text `,"nonce":`.
fn nonce_key_bytes() -> (key: Vec<u8>)
    ensures
        key@ == nonce_key(),
{
    let key: Vec<u8> = vec![44u8, 34u8, 110u8, 111u8, 110u8, 99u8, 101u8, 34u8, 58u8];
    key
}

/// The text `,"cipher":`.
fn cipher_key_bytes() -> (key: Vec<u8>)
    ensures
        key@ == cipher_key(),
{
    let key: Vec<u8> = vec![44u8, 34u8, 99u8, 105u8, 112u8, 104u8, 101u8, 114u8, 34u8, 58u8];
    key
}

/// Appends the decimal digits of a byte.
fn push_decimal(out: &mut Vec<u8>, value: u8)
    ensures
        final(out)@ == old(out)@ + decimal(value),
{
    if value >= 100 {
        out.push(ZERO + value / 100);
    }
    if value >= 10 {
        out.push(ZERO + (value / 10) % 10);
    }
    out.push(ZERO + value % 10);
}

/// Appends a list of numbers in brackets.
fn push_array(out: &mut Vec<u8>, bytes: &Vec<u8>)
    ensures
        final(out)@ == old(out)@ + array_text(bytes@),
{
    let ghost start = out@;
    out.push(OPEN);
    let mut i: usize = 0;
    while i < bytes.len()
        invariant
            i <= bytes@.len(),
            out@ == start + seq![OPEN] + items_text(bytes@.subrange(0, i as int)),
        decreases bytes@.len() - i,
    {
        if i > 0 {
            out.push(COMMA);
        }
        push_decimal(out, bytes[i]);
        proof {
            let done = bytes@.subrange(0, i as int);
            lemma_items_push(done, bytes@[i as int]);
            assert(bytes@.subrange(0, i + 1) =~= done.push(bytes@[i as int]));
        }
        i = i + 1;
    }
    out.push(CLOSE);
    assert(bytes@.subrange(0, bytes@.len() as int) =~= bytes@);
}

/// Writes a record as text, from which `decode_record` reads the record
/// back.
pub fn encode_record(record: &ReturnBundleData) -> (text: Vec<u8>)
    ensures
        text@ == record_text(record.salt@, record.nonce@, record.cipher@),
        record_of(text@) == Some((record.salt@, record.nonce@, record.cipher@)),
{
    let mut text: Vec<u8> = salt_key_bytes();
    push_array(&mut text, &record.salt);
    let nonce_key: Vec<u8> = nonce_key_bytes();
    append_bytes(&mut text, &nonce_key);
    push_array(&mut text, &record.nonce);
    let cipher_key: Vec<u8> = cipher_key_bytes();
    append_bytes(&mut text, &cipher_key);
    push_array(&mut text, &record.cipher);
    text.push(END);
    proof {
        assert(text@ =~= record_text(record.salt@, record.nonce@, record.cipher@));
        lemma_record_round_trip(record.salt@, record.nonce@, record.cipher@);
    }
    text
}

/// Whether `word` stands in `text` at the position `at`.
fn has_word_at(text: &Vec<u8>, at: usize, word: &Vec<u8>) -> (found: bool)
    ensures
        found == word_at(text@, at as int, word@),
{
    if word.len() > text.len() || at > text.len() - word.len() {
        return false;
    }
    let ghost part = text@.subrange(at as int, at + word@.len());
    let mut i: usize = 0;
    while i < word.len()
        invariant
            i <= word@.len(),
            at + word@.len() <= text@.len() <= usize::MAX,
            part == text@.subrange(at as int, at + word@.len()),
            forall|j: int| 0 <= j < i ==> part[j] == word@[j],
        decreases word@.len() - i,
    {
        if text[at + i] != word[i] {
            return false;
        }
        i = i + 1;
    }
    assert(part =~= word@);
    true
}

/// Whether a byte is a decimal digit.
fn digit(byte: u8) -> (yes: bool)
    ensures
        yes == is_digit(byte),
{
    ZERO <= byte && byte <= NINE
}

/// Reads the number that starts at a position.
fn read_number(text: &Vec<u8>, at: usize) -> (number: Option<(u8, usize)>)
    ensures
        match number {
            Some((value, end)) => number_at(text@, at as int) == Some((value, end as int)),
            None => number_at(text@, at as int) is None,
        },
{
    if at >= text.len() || !digit(text[at]) {
        return None;
    }
    let d0: u8 = text[at] - ZERO;
    if d0 == 0 || at + 1 >= text.len() || !digit(text[at + 1]) {
        return Some((d0, at + 1));
    }
    let d1: u8 = text[at + 1] - ZERO;
    if at + 2 >= text.len() || !digit(text[at + 2]) {
        return Some((d0 * 10 + d1, at + 2));
    }
    let d2: u8 = text[at + 2] - ZERO;
    if d0 > 2 || (d0 == 2 && (d1 > 5 || (d1 == 5 && d2 > 5))) {
        return None;
    }
    Some((d0 * 100 + d1 * 10 + d2, at + 3))
}

/// Reads the list that starts at a position.
fn read_array(text: &Vec<u8>, at: usize) -> (list: Option<(Vec<u8>, usize)>)
    ensures
        match list {
            Some((bytes, stop)) => array_at(text@, at as int) == Some((bytes@, stop as int)),
            None => array_at(text@, at as int) is None,
        },
{
    if at >= text.len() || text[at] != OPEN {
        return None;
    }
    if at + 1 < text.len() && text[at + 1] == CLOSE {
        return Some((Vec::new(), at + 2));
    }
    let mut bytes: Vec<u8> = Vec::new();
    let mut position: usize = at + 1;
    while position < text.len()
        invariant
            at < position <= text@.len() <= usize::MAX,
            array_at(text@, at as int) == items_at(text@, at + 1),
            items_at(text@, at + 1) == match items_at(text@, position as int) {
                Some((rest, stop)) => Some((bytes@ + rest, stop)),
                None => None,
            },
        decreases text@.len() - position,
    {
        let (value, end) = match read_number(text, position) {
            Some(number) => number,
            None => {
                return None;
            },
        };
        if end >= text.len() {
            return None;
        }
        if text[end] == CLOSE {
            bytes.push(value);
            return Some((bytes, end + 1));
        } else if text[end] == COMMA {
            bytes.push(value);
            position = end + 1;
        } else {
            return None;
        }
    }
    None
}

/// Reads a record from its text. A text is read if and only if it is the
/// text of a record, letter for letter, and then that record is what is
/// read: what `encode_record` wrote is read back.
pub fn decode_record(text: &Vec<u8>) -> (record: Option<ReturnBundleData>)
    ensures
        match record {
            Some(read) => text@ == record_text(read.salt@, read.nonce@, read.cipher@),
            None => forall|salt: Seq<u8>, nonce: Seq<u8>, cipher: Seq<u8>|
                text@ != #[trigger] record_text(salt, nonce, cipher),
        },
        record_view(record) == record_of(text@),
{
    let read: Option<ReturnBundleData> = read_record(text);
    proof {
        if read is Some {
            lemma_record_sound(text@);
            let found = record_in(text@).unwrap();
            lemma_record_round_trip(found.0, found.1, found.2);
        } else {
            assert forall|salt: Seq<u8>, nonce: Seq<u8>, cipher: Seq<u8>|
                text@ != #[trigger] record_text(salt, nonce, cipher) by {
                lemma_record_complete(salt, nonce, cipher);
            }
        }
    }
    read
}

/// Reads the three lists of a record from a text, from its start to its
/// end.
fn read_record(text: &Vec<u8>) -> (record: Option<ReturnBundleData>)
    ensures
        match record {
            Some(read) => record_in(text@) == Some((read.salt@, read.nonce@, read.cipher@)),
            None => record_in(text@) is None,
        },
{
    let total: usize = text.len();
    let salt_key: Vec<u8> = salt_key_bytes();
    if !has_word_at(text, 0, &salt_key) {
        return None;
    }
    let (salt, after_salt) = match read_array(text, salt_key.len()) {
        Some(list) => list,
        None => {
            return None;
        },
    };
    let nonce_key: Vec<u8> = nonce_key_bytes();
    if !has_word_at(text, after_salt, &nonce_key) {
        return None;
    }
    let (nonce, after_nonce) = match read_array(text, after_salt + nonce_key.len()) {
        Some(list) => list,
        None => {
            return None;
        },
    };
    let cipher_key: Vec<u8> = cipher_key_bytes();
    if !has_word_at(text, after_nonce, &cipher_key) {
        return None;
    }
    let (cipher, after_cipher) = match read_array(text, after_nonce + cipher_key.len()) {
        Some(list) => list,
        None => {
            return None;
        },
    };
    if after_cipher >= total || after_cipher + 1 != total || text[after_cipher] != END {
        return None;
    }
    Some(ReturnBundleData { salt, nonce, cipher })
}

} // verus!
