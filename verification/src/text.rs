//! Text handling: UTF-8 validation of request bodies, string comparison,
//! and the fixed-capacity `heapless::String` buffers that hold the Wi-Fi
//! credentials and the words of a rule.

use vstd::prelude::*;
use vstd::string::StringSliceAdditionalSpecFns;
use vstd::utf8::*;

verus! {

broadcast use vstd::utf8::group_utf8_lib;

#[verifier::external_type_specification]
#[verifier::external_body]
pub struct ExHeaplessString<const N: usize>(heapless::String<N>);

#[verifier::external_type_specification]
#[verifier::external_body]
pub struct ExUtf8Error(core::str::Utf8Error);

/// Number of bytes that the UTF-8 encoding of `text` takes.
pub open spec fn byte_len(text: Seq<char>) -> int {
    encode_utf8(text).len() as int
}

/// The bytes of two texts put together are the bytes of each, added.
pub proof fn lemma_byte_len_concat(a: Seq<char>, b: Seq<char>)
    ensures
        byte_len(a + b) == byte_len(a) + byte_len(b),
    decreases a.len(),
{
    if a.len() == 0 {
        assert(a + b =~= b);
    } else {
        lemma_byte_len_concat(a.drop_first(), b);
        assert((a + b)[0] == a[0]);
        assert((a + b).drop_first() =~= a.drop_first() + b);
    }
}

/// `std::str::from_utf8(bytes)`: it succeeds exactly on valid UTF-8, and
/// the text it returns is made of the same bytes. On failure it returns
/// std's `Utf8Error` for these bytes; where that error places the fault
/// (`valid_up_to`, `error_len`) is not stated here.
#[verifier::external_body]
pub(crate) fn utf8_to_str(bytes: &[u8]) -> (res: Result<&str, core::str::Utf8Error>)
    ensures
        res is Ok <==> valid_utf8(bytes@),
        res matches Ok(s) ==> s.spec_bytes() == bytes@,
{
    std::str::from_utf8(bytes)
}

/// The text of a request body: `Ok` exactly when the body is valid UTF-8,
/// and then the text whose encoding is the body; otherwise std's error
/// for the body.
pub fn request_text(body: &[u8]) -> (res: Result<&str, core::str::Utf8Error>)
    ensures
        res is Ok <==> valid_utf8(body@),
        res matches Ok(s) ==> s.spec_bytes() == body@ && s@ == decode_utf8(body@),
{
    match utf8_to_str(body) {
        Ok(s) => {
            proof {
                assert(decode_utf8(encode_utf8(s@)) == s@);
            }
            Ok(s)
        },
        Err(e) => Err(e),
    }
}

/// Compares two strings: true exactly when they hold the same characters.
pub fn str_eq(a: &str, b: &str) -> (res: bool)
    ensures
        res == (a@ == b@),
{
    let x = a.as_bytes();
    let y = b.as_bytes();
    proof {
        assert(decode_utf8(encode_utf8(a@)) == a@);
        assert(decode_utf8(encode_utf8(b@)) == b@);
    }
    if x.len() != y.len() {
        return false;
    }
    let n = x.len();
    let mut i: usize = 0;
    while i < n
        invariant
            x@ == a.spec_bytes(),
            y@ == b.spec_bytes(),
            n == x@.len(),
            n == y@.len(),
            i <= n,
            forall|j: int| 0 <= j < i ==> x@[j] == y@[j],
        decreases n - i,
    {
        if x[i] != y[i] {
            proof {
                if a@ == b@ {
                    assert(x@[i as int] == y@[i as int]);
                }
            }
            return false;
        }
        i = i + 1;
    }
    proof {
        assert(x@ =~= y@);
    }
    true
}

} // verus!

verus! {

/// What a Wi-Fi network name buffer holds.
pub uninterp spec fn ssid_text(s: heapless::String<32>) -> Seq<char>;

/// What a Wi-Fi password buffer holds.
pub uninterp spec fn password_text(s: heapless::String<64>) -> Seq<char>;

/// What a buffer for the condition or the action of a rule holds.
pub uninterp spec fn rule_word_text(s: heapless::String<20>) -> Seq<char>;

/// `heapless::String::<32>::new`: an empty buffer.
#[verifier::external_body]
pub(crate) fn ssid_new() -> (res: heapless::String<32>)
    ensures
        ssid_text(res) == Seq::<char>::empty(),
{
    heapless::String::new()
}

/// `heapless::String::<32>::push_str`: appends `t` when the bytes held and
/// those of `t` fit in 32 bytes together; otherwise returns `Err(())` and
/// leaves the buffer as it was.
#[verifier::external_body]
pub(crate) fn ssid_push_str(s: &mut heapless::String<32>, t: &str) -> (res: Result<(), ()>)
    ensures
        res is Ok <==> byte_len(ssid_text(*old(s))) + byte_len(t@) <= 32,
        res is Ok ==> ssid_text(*final(s)) == ssid_text(*old(s)) + t@,
        res is Err ==> ssid_text(*final(s)) == ssid_text(*old(s)),
{
    s.push_str(t)
}

/// `heapless::String::<32>::as_str`: the text held, which never takes more
/// than 32 bytes.
#[verifier::external_body]
pub(crate) fn ssid_as_str(s: &heapless::String<32>) -> (res: &str)
    ensures
        res@ == ssid_text(*s),
        byte_len(res@) <= 32,
{
    s.as_str()
}

/// `heapless::String::<64>::new`: an empty buffer.
#[verifier::external_body]
pub(crate) fn password_new() -> (res: heapless::String<64>)
    ensures
        password_text(res) == Seq::<char>::empty(),
{
    heapless::String::new()
}

/// `heapless::String::<64>::push_str`: appends `t` when the bytes held and
/// those of `t` fit in 64 bytes together; otherwise returns `Err(())` and
/// leaves the buffer as it was.
#[verifier::external_body]
pub(crate) fn password_push_str(s: &mut heapless::String<64>, t: &str) -> (res: Result<(), ()>)
    ensures
        res is Ok <==> byte_len(password_text(*old(s))) + byte_len(t@) <= 64,
        res is Ok ==> password_text(*final(s)) == password_text(*old(s)) + t@,
        res is Err ==> password_text(*final(s)) == password_text(*old(s)),
{
    s.push_str(t)
}

/// `heapless::String::<64>::as_str`: the text held, which never takes more
/// than 64 bytes.
#[verifier::external_body]
pub(crate) fn password_as_str(s: &heapless::String<64>) -> (res: &str)
    ensures
        res@ == password_text(*s),
        byte_len(res@) <= 64,
{
    s.as_str()
}

/// `heapless::String::<20>::as_str`: the text held, which never takes more
/// than 20 bytes.
#[verifier::external_body]
pub(crate) fn rule_word_as_str(s: &heapless::String<20>) -> (res: &str)
    ensures
        res@ == rule_word_text(*s),
        byte_len(res@) <= 20,
{
    s.as_str()
}

} // verus!
