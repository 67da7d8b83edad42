//! Decimal rendering and the fixed message texts that owners sign.

use vstd::prelude::*;
use vstd::string::*;
use vstd::utf8::encode_utf8;

verus! {

/// The character that stands for the decimal digit `d`.
pub open spec fn digit_char(d: nat) -> char {
    if d == 0 {
        '0'
    } else if d == 1 {
        '1'
    } else if d == 2 {
        '2'
    } else if d == 3 {
        '3'
    } else if d == 4 {
        '4'
    } else if d == 5 {
        '5'
    } else if d == 6 {
        '6'
    } else if d == 7 {
        '7'
    } else if d == 8 {
        '8'
    } else {
        '9'
    }
}

/// The decimal notation of `n`: most significant digit first, no leading
/// zero, and the single digit `0` for zero.
pub open spec fn decimal_chars(n: nat) -> Seq<char>
    decreases n,
{
    if n < 10 {
        seq![digit_char(n)]
    } else {
        decimal_chars(n / 10).push(digit_char(n % 10))
    }
}

fn digit_str(d: u64) -> (s: &'static str)
    requires
        d < 10,
    ensures
        s@ == seq![digit_char(d as nat)],
{
    proof {
        reveal_strlit("0");
        reveal_strlit("1");
        reveal_strlit("2");
        reveal_strlit("3");
        reveal_strlit("4");
        reveal_strlit("5");
        reveal_strlit("6");
        reveal_strlit("7");
        reveal_strlit("8");
        reveal_strlit("9");
    }
    let s = if d == 0 {
        "0"
    } else if d == 1 {
        "1"
    } else if d == 2 {
        "2"
    } else if d == 3 {
        "3"
    } else if d == 4 {
        "4"
    } else if d == 5 {
        "5"
    } else if d == 6 {
        "6"
    } else if d == 7 {
        "7"
    } else if d == 8 {
        "8"
    } else {
        "9"
    };
    assert(s@ =~= seq![digit_char(d as nat)]);
    s
}

/// Renders `n` in decimal.
pub fn decimal_string(n: u64) -> (s: String)
    ensures
        s@ == decimal_chars(n as nat),
    decreases n,
{
    if n < 10 {
        String::from_str(digit_str(n))
    } else {
        let head = decimal_string(n / 10);
        let s = head.concat(digit_str(n % 10));
        assert(s@ =~= decimal_chars(n as nat));
        s
    }
}

/// Whether two byte strings hold the same bytes.
pub fn bytes_equal(a: &[u8], b: &[u8]) -> (same: bool)
    ensures
        same == (a@ == b@),
{
    if a.len() != b.len() {
        return false;
    }
    let mut i: usize = 0;
    while i < a.len()
        invariant
            i <= a@.len(),
            a@.len() == b@.len(),
            forall|j: int| 0 <= j < i ==> a@[j] == b@[j],
        decreases a@.len() - i,
    {
        if a[i] != b[i] {
            return false;
        }
        i += 1;
    }
    assert(a@ =~= b@);
    true
}

/// Appends the bytes of `src` to `dst`.
pub fn append_bytes(dst: &mut Vec<u8>, src: &[u8])
    ensures
        final(dst)@ == old(dst)@ + src@,
{
    let mut i: usize = 0;
    while i < src.len()
        invariant
            i <= src@.len(),
            dst@ == old(dst)@ + src@.subrange(0, i as int),
        decreases src@.len() - i,
    {
        dst.push(src[i]);
        i += 1;
        assert(dst@ =~= old(dst)@ + src@.subrange(0, i as int));
    }
    assert(src@.subrange(0, i as int) =~= src@);
}

/// The line that precedes a personally signed message of `len` bytes:
/// the fixed marker followed by the length in decimal.
pub open spec fn eth_prefix_text(len: nat) -> Seq<char> {
    "\x19Ethereum Signed Message:\n"@ + decimal_chars(len)
}

/// The bytes that are hashed for a personally signed message: the prefix
/// line in UTF-8, then the message itself.
pub open spec fn eth_signed_message(message: Seq<u8>) -> Seq<u8> {
    encode_utf8(eth_prefix_text(message.len())) + message
}

/// Wraps `message` in the personal-message envelope.
pub fn create_eth_signed_message(message: &[u8]) -> (wrapped: Vec<u8>)
    ensures
        wrapped@ == eth_signed_message(message@),
{
    let len: u64 = message.len() as u64;
    let digits = decimal_string(len);
    let prefix = String::from_str("\x19Ethereum Signed Message:\n").concat(digits.as_str());
    let mut wrapped = prefix.as_str().as_bytes_vec();
    append_bytes(&mut wrapped, message);
    wrapped
}

/// Decimal notation is never empty, and has two digits or more from ten on.
pub proof fn lemma_decimal_length(n: nat)
    ensures
        decimal_chars(n).len() >= 1,
        n >= 10 ==> decimal_chars(n).len() >= 2,
    decreases n,
{
    if n >= 10 {
        lemma_decimal_length(n / 10);
    }
}

/// Two numbers with the same decimal notation are the same number.
pub proof fn lemma_decimal_injective(a: nat, b: nat)
    requires
        decimal_chars(a) == decimal_chars(b),
    ensures
        a == b,
    decreases a,
{
    lemma_decimal_length(a);
    lemma_decimal_length(b);
    if a < 10 && b < 10 {
        assert(decimal_chars(a)[0] == digit_char(a));
        assert(decimal_chars(b)[0] == digit_char(b));
    } else if a >= 10 && b >= 10 {
        let x = decimal_chars(a / 10);
        let y = decimal_chars(b / 10);
        assert(decimal_chars(a).drop_last() =~= x);
        assert(decimal_chars(b).drop_last() =~= y);
        assert(decimal_chars(a).last() == digit_char(a % 10));
        assert(decimal_chars(b).last() == digit_char(b % 10));
        lemma_decimal_injective(a / 10, b / 10);
    }
}

/// Under one identity key, two nonces give two operation ids.
pub proof fn lemma_operation_ids_differ(path: Seq<char>, a: u64, b: u64)
    requires
        a != b,
    ensures
        operation_id_text(path, a) != operation_id_text(path, b),
{
    let head = path + "-"@;
    let x = decimal_chars(a as nat);
    let y = decimal_chars(b as nat);
    if operation_id_text(path, a) == operation_id_text(path, b) {
        assert((head + x).subrange(head.len() as int, (head + x).len() as int) =~= x);
        assert((head + y).subrange(head.len() as int, (head + y).len() as int) =~= y);
        lemma_decimal_injective(a as nat, b as nat);
    }
}

/// The text an owner signs to bind a wallet to `path`.
pub open spec fn registration_text(path: Seq<char>, nonce: u64) -> Seq<char> {
    "Register wallet for derivation path: "@ + path + " with nonce: "@ + decimal_chars(
        nonce as nat,
    )
}

/// Builds the text an owner signs to bind a wallet to `path`.
pub fn registration_message(path: &str, nonce: u64) -> (text: String)
    ensures
        text@ == registration_text(path@, nonce),
{
    let digits = decimal_string(nonce);
    String::from_str("Register wallet for derivation path: ").concat(path).concat(
        " with nonce: ",
    ).concat(digits.as_str())
}

/// The identifier of the operation that `path` issues under `nonce`.
pub open spec fn operation_id_text(path: Seq<char>, nonce: u64) -> Seq<char> {
    path + "-"@ + decimal_chars(nonce as nat)
}

/// Builds the identifier of the operation that `path` issues under `nonce`.
pub fn make_operation_id(path: &str, nonce: u64) -> (id: String)
    ensures
        id@ == operation_id_text(path@, nonce),
{
    let digits = decimal_string(nonce);
    String::from_str(path).concat("-").concat(digits.as_str())
}

} // verus!
