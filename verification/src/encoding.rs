//! Notations of bytes as text: hexadecimal, strkeys, and the text of names and
//! strings on the wire.

use vstd::prelude::*;

verus! {

/// The value of a hexadecimal digit, and nothing for any other character.
pub open spec fn hex_value(c: char) -> Option<int> {
    if '0' <= c <= '9' {
        Some(c as int - 48)
    } else if 'a' <= c <= 'f' {
        Some(c as int - 87)
    } else if 'A' <= c <= 'F' {
        Some(c as int - 55)
    } else {
        None
    }
}

/// Whether a text is the hexadecimal notation of some bytes.
pub open spec fn is_hex(s: Seq<char>) -> bool {
    &&& s.len() % 2 == 0
    &&& forall|i: int| 0 <= i < s.len() ==> hex_value(#[trigger] s[i]) is Some
}

/// The bytes that a hexadecimal text denotes.
pub open spec fn hex_bytes(s: Seq<char>) -> Seq<u8> {
    Seq::new(
        s.len() / 2,
        |i: int| (hex_value(s[2 * i])->0 * 16 + hex_value(s[2 * i + 1])->0) as u8,
    )
}

/// The lower-case hexadecimal digit for a value below sixteen.
pub open spec fn hex_char(d: int) -> char {
    if d < 10 {
        (48 + d) as char
    } else {
        (87 + d) as char
    }
}

/// The lower-case hexadecimal notation of bytes.
pub open spec fn hex_text(b: Seq<u8>) -> Seq<char> {
    Seq::new(
        b.len() * 2,
        |i: int|
            if i % 2 == 0 {
                hex_char(b[i / 2] as int / 16)
            } else {
                hex_char(b[i / 2] as int % 16)
            },
    )
}

/// What `hex` says of a text that is not hexadecimal.
pub uninterp spec fn hex_complaint(s: Seq<char>) -> Seq<char>;

/// `hex::decode`: two digits to a byte, the digits of either case. It fails on
/// an odd length and on any other character, with a message of its own.
#[verifier::external_body]
pub(crate) fn hex_decode(s: &str) -> (r: Result<Vec<u8>, String>)
    ensures
        match r {
            Ok(b) => is_hex(s@) && b@ == hex_bytes(s@),
            Err(e) => !is_hex(s@) && e@ == hex_complaint(s@),
        },
{
    hex::decode(s).map_err(|e| e.to_string())
}

/// `hex::encode`: two lower-case digits to a byte.
#[verifier::external_body]
pub(crate) fn hex_encode(b: &[u8]) -> (r: String)
    ensures
        r@ == hex_text(b@),
{
    hex::encode(b)
}

/// The hexadecimal notation of bytes is read back as those bytes.
pub proof fn law_hex_is_read_back(b: Seq<u8>)
    ensures
        is_hex(hex_text(b)),
        hex_bytes(hex_text(b)) == b,
{
    let s = hex_text(b);
    assert forall|i: int| 0 <= i < s.len() implies hex_value(#[trigger] s[i]) is Some by {
        assert(s[i] == hex_char(b[i / 2] as int / 16) || s[i] == hex_char(b[i / 2] as int % 16));
    }
    assert forall|i: int| 0 <= i < b.len() implies hex_bytes(s)[i] == b[i] by {
        assert((2 * i) / 2 == i && (2 * i) % 2 == 0);
        assert((2 * i + 1) / 2 == i && (2 * i + 1) % 2 == 1);
        assert(s[2 * i] == hex_char(b[i] as int / 16));
        assert(s[2 * i + 1] == hex_char(b[i] as int % 16));
    }
    assert(hex_bytes(s) =~= b);
}

/// The key of the account that a `G...` strkey names, if it is one.
pub uninterp spec fn account_of(s: Seq<char>) -> Option<Seq<u8>>;

/// The `G...` strkey of an account's key.
pub uninterp spec fn account_text(key: Seq<u8>) -> Seq<char>;

/// The id of the contract that a `C...` strkey names, if it is one.
pub uninterp spec fn contract_of(s: Seq<char>) -> Option<Seq<u8>>;

/// The `C...` strkey of a contract's id.
pub uninterp spec fn contract_text(id: Seq<u8>) -> Seq<char>;

/// The seed that an `S...` strkey holds, if it is one.
pub uninterp spec fn seed_of(s: Seq<char>) -> Option<Seq<u8>>;

/// `stellar_strkey::ed25519::PublicKey::from_string`. The text is the only one
/// for the key that it gives, and no contract has it.
#[verifier::external_body]
pub(crate) fn parse_account(s: &str) -> (r: Option<[u8; 32]>)
    ensures
        match r {
            Some(key) => account_of(s@) == Some(key@) && account_text(key@) == s@ && contract_of(
                s@,
            ) is None,
            None => account_of(s@) is None,
        },
{
    stellar_strkey::ed25519::PublicKey::from_string(s).ok().map(|key| key.0)
}

/// `Display` of `stellar_strkey::ed25519::PublicKey`, which reads back as the
/// key.
#[verifier::external_body]
pub(crate) fn render_account(key: &[u8; 32]) -> (r: String)
    ensures
        r@ == account_text(key@),
        account_of(r@) == Some(key@),
{
    format!("{}", stellar_strkey::ed25519::PublicKey(*key))
}

/// `stellar_strkey::Contract::from_string`. The text is the only one for the id
/// that it gives, and no account has it.
#[verifier::external_body]
pub(crate) fn parse_contract(s: &str) -> (r: Option<[u8; 32]>)
    ensures
        match r {
            Some(id) => contract_of(s@) == Some(id@) && contract_text(id@) == s@ && account_of(
                s@,
            ) is None,
            None => contract_of(s@) is None,
        },
{
    stellar_strkey::Contract::from_string(s).ok().map(|id| id.0)
}

/// `Display` of `stellar_strkey::Contract`, which reads back as the id and as
/// no account.
#[verifier::external_body]
pub(crate) fn render_contract(id: &[u8; 32]) -> (r: String)
    ensures
        r@ == contract_text(id@),
        contract_of(r@) == Some(id@),
        account_of(r@) is None,
{
    format!("{}", stellar_strkey::Contract(*id))
}

/// `stellar_strkey::ed25519::PrivateKey::from_string`.
#[verifier::external_body]
pub(crate) fn parse_seed(s: &str) -> (r: Option<[u8; 32]>)
    ensures
        match r {
            Some(seed) => seed_of(s@) == Some(seed@),
            None => seed_of(s@) is None,
        },
{
    stellar_strkey::ed25519::PrivateKey::from_string(s).ok().map(|seed| seed.0)
}

/// The text that bytes give which are not all UTF-8, with replacement characters
/// for what is not.
pub uninterp spec fn replaced_text(b: Seq<u8>) -> Seq<char>;

/// The text that bytes give: the text that they are in UTF-8, or one in which
/// replacement characters stand for what is not.
pub open spec fn lossy_text(b: Seq<u8>) -> Seq<char> {
    if vstd::utf8::valid_utf8(b) {
        vstd::utf8::decode_utf8(b)
    } else {
        replaced_text(b)
    }
}

/// `String::from_utf8_lossy`, by which `stellar_xdr::StringM` renders itself: the
/// text of bytes that are UTF-8, and of any others a text in which replacement
/// characters stand for what is not.
#[verifier::external_body]
pub(crate) fn render_bytes(b: &Vec<u8>) -> (r: String)
    ensures
        r@ == if vstd::utf8::valid_utf8(b@) {
            vstd::utf8::decode_utf8(b@)
        } else {
            replaced_text(b@)
        },
{
    String::from_utf8_lossy(b).into_owned()
}

/// `std::str::from_utf8`: the text that bytes are in UTF-8, and nothing if they are
/// not UTF-8.
#[verifier::external_body]
pub(crate) fn read_utf8(b: &Vec<u8>) -> (r: Option<String>)
    ensures
        match r {
            Some(s) => vstd::utf8::valid_utf8(b@) && s@ == vstd::utf8::decode_utf8(b@),
            None => !vstd::utf8::valid_utf8(b@),
        },
{
    std::str::from_utf8(b).ok().map(|s| s.to_string())
}

/// Whether a text stands for its own bytes on the wire: no backslash in it starts
/// an escape, and the bytes are not too many.
pub open spec fn is_plain(s: Seq<char>) -> bool {
    !s.contains('\\') && vstd::utf8::encode_utf8(s).len() <= u32::MAX
}

/// The byte that a backslash with a character behind it stands for, if these two are
/// an escape.
pub open spec fn escaped_byte(c: char) -> Option<u8> {
    match c {
        '0' => Some(0),
        't' => Some(9),
        'n' => Some(10),
        'r' => Some(13),
        '\\' => Some(92),
        _ => None,
    }
}

/// Bytes before further bytes, if there are any such.
pub open spec fn before(first: Seq<u8>, rest: Option<Seq<u8>>) -> Option<Seq<u8>> {
    match rest {
        Some(b) => Some(first + b),
        None => None,
    }
}

/// The bytes of a text in which a backslash starts an escape: a byte by its letter,
/// or by two hexadecimal digits after an `x`. Any other character stands for its
/// bytes in UTF-8. There are none if an escape is malformed.
pub open spec fn unescaped(s: Seq<char>) -> Option<Seq<u8>>
    decreases s.len(),
{
    if s.len() == 0 {
        Some(Seq::empty())
    } else if s[0] != '\\' {
        before(vstd::utf8::encode_scalar(s[0] as u32), unescaped(s.skip(1)))
    } else if s.len() >= 2 && escaped_byte(s[1]) is Some {
        before(seq![escaped_byte(s[1])->0], unescaped(s.skip(2)))
    } else if s.len() >= 4 && s[1] == 'x' && hex_value(s[2]) is Some && hex_value(s[3]) is Some {
        before(
            seq![(hex_value(s[2])->0 * 16 + hex_value(s[3])->0) as u8],
            unescaped(s.skip(4)),
        )
    } else {
        None
    }
}

/// The bytes that a text stands for on the wire, where a backslash starts an
/// escape; nothing if an escape is malformed or the bytes are too many.
pub open spec fn wire_bytes(s: Seq<char>) -> Option<Seq<u8>> {
    match unescaped(s) {
        Some(b) => if b.len() <= u32::MAX {
            Some(b)
        } else {
            None
        },
        None => None,
    }
}

/// `str::parse` into `stellar_xdr::StringM`, which undoes the escapes in the text
/// and holds at most `u32::MAX` bytes. It fails on a malformed escape and on more
/// bytes.
#[verifier::external_body]
pub(crate) fn parse_wire_text(s: &str) -> (r: Option<Vec<u8>>)
    ensures
        match r {
            Some(b) => wire_bytes(s@) == Some(b@),
            None => wire_bytes(s@) is None,
        },
{
    s.parse::<stellar_xdr::StringM>().ok().map(|m| m.into())
}

/// A text without a backslash stands for its own bytes on the wire.
pub proof fn law_plain_text_is_taken_as_it_is(s: Seq<char>)
    requires
        is_plain(s),
    ensures
        wire_bytes(s) == Some(vstd::utf8::encode_utf8(s)),
{
    lemma_nothing_to_unescape(s);
}

proof fn lemma_nothing_to_unescape(s: Seq<char>)
    requires
        !s.contains('\\'),
    ensures
        unescaped(s) == Some(vstd::utf8::encode_utf8(s)),
    decreases s.len(),
{
    if s.len() > 0 {
        assert(s.contains(s[0]));
        assert(s.skip(1) =~= s.drop_first());
        assert forall|i: int| 0 <= i < s.skip(1).len() implies s.skip(1)[i] != '\\' by {
            assert(s.contains(s[i + 1]));
        }
        lemma_nothing_to_unescape(s.skip(1));
    }
}

} // verus!
