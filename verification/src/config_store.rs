//! The persisted form of the Wi-Fi configuration: what `save_config` writes
//! to non-volatile storage under the key `wifi_config`, and how
//! `load_config` reads it back.

use vstd::prelude::*;
use vstd::string::StringSliceAdditionalSpecFns;
use vstd::utf8::*;
use crate::shared::WifiConfig;
use crate::text::{
    byte_len, password_as_str, password_text, ssid_as_str, ssid_text, utf8_to_str,
};

verus! {

broadcast use vstd::utf8::group_utf8_lib;

/// postcard's encoding of a network name and a password of at most 127
/// bytes each: for each in turn, its length in bytes (a varint, one byte
/// below 128) and then its UTF-8 bytes.
pub open spec fn credentials_bytes(ssid: Seq<char>, password: Seq<char>) -> Seq<u8> {
    seq![byte_len(ssid) as u8] + encode_utf8(ssid) + seq![byte_len(password) as u8]
        + encode_utf8(password)
}

/// The value of a base-128 varint made of `b`, least significant group
/// first (the high bit of each byte only marks that more bytes follow).
pub open spec fn varint_value(b: Seq<u8>) -> int
    decreases b.len(),
{
    if b.len() == 0 {
        0
    } else {
        (b[0] % 128) as int + 128 * varint_value(b.drop_first())
    }
}

/// The most bytes that postcard reads for a `usize` varint: enough for the
/// target's pointer width (3 for 16 bits, 5 for 32, 10 for 64).
pub open spec fn usize_varint_max_len() -> int {
    if usize::BITS == 64 {
        10
    } else if usize::BITS == 32 {
        5
    } else {
        3
    }
}

/// The largest last byte that postcard accepts in a `usize` varint of the
/// longest length: the bits left over of the pointer width.
pub open spec fn usize_varint_last_max() -> int {
    if usize::BITS == 64 {
        1
    } else if usize::BITS == 32 {
        15
    } else {
        3
    }
}

/// The `k` bytes of `bytes` from `start` are one varint that postcard reads
/// as a `usize`: every byte but the last has its high bit set, the last has
/// not, there are at most as many as the pointer width needs, and at that
/// many the last byte carries no bits beyond the width.
pub open spec fn varint_at(bytes: Seq<u8>, start: int, k: int) -> bool {
    &&& 1 <= k <= usize_varint_max_len()
    &&& 0 <= start
    &&& start + k <= bytes.len()
    &&& forall|i: int| start <= i < start + k - 1 ==> bytes[i] >= 128
    &&& bytes[start + k - 1] < 128
    &&& k == usize_varint_max_len() ==> bytes[start + k - 1] <= usize_varint_last_max()
}

/// From `start`, `bytes` hold `text` as postcard writes a string, with a
/// length varint of `k` bytes, and `text` fits a buffer of `capacity` bytes.
pub open spec fn text_at(bytes: Seq<u8>, start: int, k: int, text: Seq<char>, capacity: int) -> bool {
    &&& varint_at(bytes, start, k)
    &&& varint_value(bytes.subrange(start, start + k)) == byte_len(text)
    &&& byte_len(text) <= capacity
    &&& start + k + byte_len(text) <= bytes.len()
    &&& bytes.subrange(start + k, start + k + byte_len(text)) == encode_utf8(text)
}

/// `bytes` begin with a network name `ssid` of at most 32 bytes and then a
/// password of at most 64 bytes, each as postcard writes a string: exactly
/// what postcard reads from them into buffers of 32 and 64 bytes.
pub open spec fn stored_credentials(bytes: Seq<u8>, ssid: Seq<char>, password: Seq<char>) -> bool {
    exists|k1: int, k2: int|
        text_at(bytes, 0, k1, ssid, 32) && #[trigger] text_at(
            bytes,
            k1 + byte_len(ssid),
            k2,
            password,
            64,
        )
}

/// `postcard::to_vec::<_, 128>` of the pair (network name, password). The
/// name holds at most 32 bytes and the password at most 64, so each length
/// takes one byte, the whole fits in 128 bytes, and the encoding always
/// succeeds with the bytes of `credentials_bytes`.
#[verifier::external_body]
fn postcard_encode_credentials(ssid: &heapless::String<32>, password: &heapless::String<64>) -> (res: Option<Vec<u8>>)
    ensures
        res is Some,
        res matches Some(b) ==> b@ == credentials_bytes(ssid_text(*ssid), password_text(*password)),
{
    postcard::to_vec::<_, 128>(&(ssid, password)).ok().map(|v| v.to_vec())
}

/// `postcard::from_bytes` of a (network name, password) pair into buffers
/// of 32 and 64 bytes: for each string in turn it reads a `usize` varint
/// (`try_take_varint_usize`, by pointer width), takes that many bytes,
/// checks that they are UTF-8 and that they fit the buffer. It reads a name
/// and a password exactly when `stored_credentials` holds of them; bytes
/// after the password are ignored.
#[verifier::external_body]
fn postcard_decode_credentials(bytes: &[u8]) -> (res: Option<(heapless::String<32>, heapless::String<64>)>)
    ensures
        res matches Some((x, y)) ==> stored_credentials(bytes@, ssid_text(x), password_text(y)),
        res is None ==> forall|s: Seq<char>, p: Seq<char>|
            !#[trigger] stored_credentials(bytes@, s, p),
{
    postcard::from_bytes::<(heapless::String<32>, heapless::String<64>)>(bytes).ok()
}

/// A byte below 128 alone is valid UTF-8.
proof fn lemma_ascii_byte_valid(b: u8)
    requires
        b < 128,
    ensures
        valid_utf8(seq![b]),
{
    let bytes = seq![b];
    assert((b & 0x7f) <= 0x7f) by (bit_vector);
    assert(is_leading_byte_width_1(bytes[0]));
    assert(codepoint_width_1(bytes[0]) <= 0x7f);
    assert(valid_first_scalar(bytes));
    assert(pop_first_scalar(bytes) =~= Seq::<u8>::empty());
    assert(valid_utf8(pop_first_scalar(bytes)));
}

/// The text that `save_config` stores for `config`: the postcard encoding
/// of its network name and password, which is always valid UTF-8.
pub fn encode_config(config: &WifiConfig) -> (text: String)
    ensures
        byte_len(config.ssid_view()) <= 32,
        byte_len(config.password_view()) <= 64,
        encode_utf8(text@) == credentials_bytes(config.ssid_view(), config.password_view()),
{
    let ghost s = config.ssid_view();
    let ghost p = config.password_view();
    // Only the byte bounds that these calls state are needed here.
    let _ = ssid_as_str(&config.ssid);
    let _ = password_as_str(&config.password);
    let bytes = postcard_encode_credentials(&config.ssid, &config.password).unwrap();
    proof {
        lemma_ascii_byte_valid(byte_len(s) as u8);
        lemma_ascii_byte_valid(byte_len(p) as u8);
        let a = seq![byte_len(s) as u8];
        let b = encode_utf8(s);
        let c = seq![byte_len(p) as u8];
        let d = encode_utf8(p);
        valid_utf8_concat(a, b);
        valid_utf8_concat(a + b, c);
        valid_utf8_concat(a + b + c, d);
    }
    let text = utf8_to_str(bytes.as_slice()).unwrap();
    text.to_owned()
}

/// Reads back what `save_config` stored: the network name and password
/// that the stored bytes begin with, as postcard writes them (`None` when
/// they begin with none). On the text that `encode_config` writes for a
/// configuration it gives that configuration back.
pub fn decode_config(stored: &str) -> (res: Option<WifiConfig>)
    ensures
        res matches Some(c) ==> stored_credentials(
            stored.spec_bytes(),
            c.ssid_view(),
            c.password_view(),
        ),
        res is None ==> forall|s: Seq<char>, p: Seq<char>|
            !#[trigger] stored_credentials(stored.spec_bytes(), s, p),
        forall|s: Seq<char>, p: Seq<char>|
            byte_len(s) <= 32 && byte_len(p) <= 64 && stored.spec_bytes()
                == #[trigger] credentials_bytes(s, p) ==> (res matches Some(c) && c.ssid_view() == s
                && c.password_view() == p),
{
    let res = match postcard_decode_credentials(stored.as_bytes()) {
        Some((ssid, password)) => Some(WifiConfig { ssid, password }),
        None => None,
    };
    proof {
        assert forall|s: Seq<char>, p: Seq<char>|
            byte_len(s) <= 32 && byte_len(p) <= 64 && stored.spec_bytes()
                == #[trigger] credentials_bytes(s, p) implies (res matches Some(c) && c.ssid_view()
                == s && c.password_view() == p) by {
            lemma_stored_credentials_read_back(s, p);
        }
    }
    res
}

/// A varint whose first byte is below 128 is that one byte.
proof fn lemma_one_byte_varint(bytes: Seq<u8>, start: int, k: int)
    requires
        varint_at(bytes, start, k),
        bytes[start] < 128,
    ensures
        k == 1,
        varint_value(bytes.subrange(start, start + 1)) == bytes[start] as int,
{
    if k > 1 {
        assert(bytes[start] >= 128);
    }
    let b = bytes.subrange(start, start + 1);
    assert(b.drop_first() =~= Seq::<u8>::empty());
    assert(varint_value(b.drop_first()) == 0);
}

/// What is stored for a configuration reads back as that configuration and
/// as no other: the bytes that `encode_config` writes hold its network name
/// and password, and no other name and password.
pub proof fn lemma_stored_credentials_read_back(ssid: Seq<char>, password: Seq<char>)
    requires
        byte_len(ssid) <= 32,
        byte_len(password) <= 64,
    ensures
        stored_credentials(credentials_bytes(ssid, password), ssid, password),
        forall|s2: Seq<char>, p2: Seq<char>|
            #[trigger] stored_credentials(credentials_bytes(ssid, password), s2, p2) ==> s2
                == ssid && p2 == password,
{
    let bytes = credentials_bytes(ssid, password);
    let n = byte_len(ssid);
    let m = byte_len(password);
    assert(bytes[0] == n as u8);
    assert(bytes[1 + n] == m as u8);
    assert(bytes.subrange(1, 1 + n) =~= encode_utf8(ssid));
    assert(bytes.subrange(2 + n, 2 + n + m) =~= encode_utf8(password));
    assert(varint_at(bytes, 0, 1));
    assert(varint_at(bytes, 1 + n, 1));
    lemma_one_byte_varint(bytes, 0, 1);
    lemma_one_byte_varint(bytes, 1 + n, 1);
    assert(text_at(bytes, 0, 1, ssid, 32));
    assert(text_at(bytes, 1 + n, 1, password, 64));
    assert forall|s2: Seq<char>, p2: Seq<char>|
        #[trigger] stored_credentials(bytes, s2, p2) implies s2 == ssid && p2 == password by {
        let (k1, k2) = choose|k1: int, k2: int|
            text_at(bytes, 0, k1, s2, 32) && #[trigger] text_at(
                bytes,
                k1 + byte_len(s2),
                k2,
                p2,
                64,
            );
        lemma_one_byte_varint(bytes, 0, k1);
        assert(byte_len(s2) == n);
        assert(decode_utf8(encode_utf8(s2)) == s2);
        assert(decode_utf8(encode_utf8(ssid)) == ssid);
        lemma_one_byte_varint(bytes, 1 + n, k2);
        assert(byte_len(p2) == m);
        assert(decode_utf8(encode_utf8(p2)) == p2);
        assert(decode_utf8(encode_utf8(password)) == password);
    }
}

/// A stored text of fewer than two bytes (an empty one among them) holds
/// no configuration, so it never loads.
pub proof fn lemma_short_text_holds_no_credentials(bytes: Seq<u8>, ssid: Seq<char>, password: Seq<char>)
    requires
        bytes.len() < 2,
    ensures
        !stored_credentials(bytes, ssid, password),
{
    if stored_credentials(bytes, ssid, password) {
        let (k1, k2) = choose|k1: int, k2: int|
            text_at(bytes, 0, k1, ssid, 32) && #[trigger] text_at(
                bytes,
                k1 + byte_len(ssid),
                k2,
                password,
                64,
            );
        assert(byte_len(ssid) >= 0);
        assert(k1 + byte_len(ssid) + k2 <= bytes.len());
    }
}

/// Two different configurations are never stored as the same bytes: the
/// stored form determines the network name and the password.
pub proof fn lemma_credentials_bytes_injective(s1: Seq<char>, p1: Seq<char>, s2: Seq<char>, p2: Seq<char>)
    requires
        byte_len(s1) <= 32,
        byte_len(p1) <= 64,
        byte_len(s2) <= 32,
        byte_len(p2) <= 64,
        credentials_bytes(s1, p1) == credentials_bytes(s2, p2),
    ensures
        s1 == s2,
        p1 == p2,
{
    let b = credentials_bytes(s1, p1);
    let n1 = byte_len(s1);
    let m1 = byte_len(p1);
    let n2 = byte_len(s2);
    let m2 = byte_len(p2);
    assert(b[0] == n1 as u8);
    assert(credentials_bytes(s2, p2)[0] == n2 as u8);
    assert(n1 == n2);
    assert(b.subrange(1, 1 + n1) =~= encode_utf8(s1));
    assert(credentials_bytes(s2, p2).subrange(1, 1 + n2) =~= encode_utf8(s2));
    assert(decode_utf8(encode_utf8(s1)) == s1);
    assert(decode_utf8(encode_utf8(s2)) == s2);
    assert(b[1 + n1] == m1 as u8);
    assert(credentials_bytes(s2, p2)[1 + n2] == m2 as u8);
    assert(m1 == m2);
    assert(b.subrange(2 + n1, 2 + n1 + m1) =~= encode_utf8(p1));
    assert(credentials_bytes(s2, p2).subrange(2 + n2, 2 + n2 + m2) =~= encode_utf8(p2));
    assert(decode_utf8(encode_utf8(p1)) == p1);
    assert(decode_utf8(encode_utf8(p2)) == p2);
}

} // verus!
