//! Numbers and bytes as text.

use crate::primitives::Address;
use crate::primitives::B256;
use crate::primitives::U256;
use crate::rlp::keccak;
use vstd::prelude::*;

verus! {

/// The character of a decimal digit.
pub open spec fn digit_char(d: nat) -> char {
    if d == 0 {
        '0'
    } else if d == 1 {
        '1'
    } else if d == 2 {
        '2'
    } else if d == 3 {
        '3'
    } else if d == 4 {
        '4'
    } else if d == 5 {
        '5'
    } else if d == 6 {
        '6'
    } else if d == 7 {
        '7'
    } else if d == 8 {
        '8'
    } else if d == 9 {
        '9'
    } else if d == 10 {
        'a'
    } else if d == 11 {
        'b'
    } else if d == 12 {
        'c'
    } else if d == 13 {
        'd'
    } else if d == 14 {
        'e'
    } else {
        'f'
    }
}

/// A number in decimal.
pub open spec fn decimal_text(n: nat) -> Seq<char>
    decreases n,
{
    if n < 10 {
        seq![digit_char(n)]
    } else {
        decimal_text(n / 10).push(digit_char(n % 10))
    }
}

/// Bytes in lower-case hexadecimal, two digits each.
pub open spec fn hex_text(bytes: Seq<u8>) -> Seq<char>
    decreases bytes.len(),
{
    if bytes.len() == 0 {
        Seq::empty()
    } else {
        hex_text(bytes.drop_last()).push(digit_char((bytes.last() / 16) as nat)).push(
            digit_char((bytes.last() % 16) as nat),
        )
    }
}

/// `alloy_primitives::hex::encode`: the bytes in lower-case hexadecimal.
#[verifier::external_body]
pub(crate) fn hex_encode(bytes: &[u8]) -> (r: String)
    ensures
        r@ == hex_text(bytes@),
{
    alloy_primitives::hex::encode(bytes)
}

fn digit(d: u64) -> (r: &'static str)
    requires
        d < 10,
    ensures
        r@ == seq![digit_char(d as nat)],
{
    proof {
        reveal_strlit("0");
        reveal_strlit("1");
        reveal_strlit("2");
        reveal_strlit("3");
        reveal_strlit("4");
        reveal_strlit("5");
        reveal_strlit("6");
        reveal_strlit("7");
        reveal_strlit("8");
        reveal_strlit("9");
    }
    let r = match d {
        0 => "0",
        1 => "1",
        2 => "2",
        3 => "3",
        4 => "4",
        5 => "5",
        6 => "6",
        7 => "7",
        8 => "8",
        _ => "9",
    };
    proof {
        assert(r@ =~= seq![digit_char(d as nat)]);
    }
    r
}

/// A number in decimal.
pub fn decimal(n: u64) -> (r: String)
    ensures
        r@ == decimal_text(n as nat),
    decreases n,
{
    if n < 10 {
        let mut s = String::new();
        s.append(digit(n));
        proof {
            assert(s@ =~= decimal_text(n as nat));
        }
        s
    } else {
        let mut s = decimal(n / 10);
        s.append(digit(n % 10));
        proof {
            assert(s@ =~= decimal_text(n as nat));
        }
        s
    }
}

/// The capital of a hexadecimal digit.
pub open spec fn capital(c: char) -> char {
    if c == 'a' {
        'A'
    } else if c == 'b' {
        'B'
    } else if c == 'c' {
        'C'
    } else if c == 'd' {
        'D'
    } else if c == 'e' {
        'E'
    } else if c == 'f' {
        'F'
    } else {
        c
    }
}

/// An address with its checksum: in hexadecimal, where a letter is a capital if the hash of the
/// digits has at least eight at its place.
pub open spec fn address_text(address: Seq<u8>) -> Seq<char> {
    let digits = hex_text(address);
    let hash = keccak(digits.map_values(|c: char| c as u8));
    "0x"@ + Seq::new(
        digits.len(),
        |i: int|
            {
                let nibble = if i % 2 == 0 {
                    hash[i / 2] / 16
                } else {
                    hash[i / 2] % 16
                };
                if nibble >= 8 {
                    capital(digits[i])
                } else {
                    digits[i]
                }
            },
    )
}

/// A hash in hexadecimal.
pub open spec fn hash_text(hash: Seq<u8>) -> Seq<char> {
    "0x"@ + hex_text(hash)
}

/// `alloy_primitives::Address::to_checksum` without a chain: the address with its checksum, which
/// is what an address is displayed as.
#[verifier::external_body]
pub(crate) fn show_address(address: &Address) -> (r: String)
    ensures
        r@ == address_text(address@),
{
    alloy_primitives::Address::from(address.bytes).to_checksum(None)
}

/// `alloy_primitives::U256`'s `Display`: the number in decimal.
#[verifier::external_body]
pub(crate) fn show_u256(n: &U256) -> (r: String)
    ensures
        r@ == decimal_text(n.value()),
{
    format!("{}", alloy_primitives::U256::from_limbs([n.limb0, n.limb1, n.limb2, n.limb3]))
}

/// A hash in hexadecimal.
pub(crate) fn show_hash(hash: &B256) -> (r: String)
    ensures
        r@ == hash_text(hash@),
{
    let mut s = "0x".to_owned();
    s.append(hex_encode(&hash.bytes).as_str());
    s
}

/// The characters of digits: the ten digits in order, and then the small letters from `a` in order;
/// a capital stands in the alphabet's other case, and nothing but those six letters has one.
pub proof fn law_digits_are_in_order(d: nat, c: char)
    requires
        d < 16,
    ensures
        d < 10 ==> digit_char(d) as int == '0' as int + d,
        d >= 10 ==> digit_char(d) as int == 'a' as int + (d - 10),
        'a' <= c <= 'f' ==> capital(c) as int - 'A' as int == c as int - 'a' as int,
        !('a' <= c <= 'f') ==> capital(c) == c,
{
}

/// Bytes are written two digits each, the higher half first.
pub proof fn law_hex_has_two_digits_a_byte(bytes: Seq<u8>, i: int)
    ensures
        hex_text(bytes).len() == 2 * bytes.len(),
        0 <= i < bytes.len() ==> {
            &&& hex_text(bytes)[2 * i] == digit_char((bytes[i] / 16) as nat)
            &&& hex_text(bytes)[2 * i + 1] == digit_char((bytes[i] % 16) as nat)
        },
    decreases bytes.len(),
{
    if bytes.len() > 0 {
        law_hex_has_two_digits_a_byte(bytes.drop_last(), i);
    }
}

/// A hash is written with all its digits behind `0x`; an account is as well, but for the case of
/// its letters.
pub proof fn law_hashes_and_accounts_show_all_their_digits(bytes: Seq<u8>, i: int)
    requires
        0 <= i < 2 * bytes.len(),
    ensures
        hash_text(bytes).len() == 2 + 2 * bytes.len(),
        address_text(bytes).len() == 2 + 2 * bytes.len(),
        hash_text(bytes)[0] == '0' && hash_text(bytes)[1] == 'x',
        address_text(bytes)[0] == '0' && address_text(bytes)[1] == 'x',
        hash_text(bytes)[2 + i] == hex_text(bytes)[i],
        address_text(bytes)[2 + i] == hex_text(bytes)[i] || address_text(bytes)[2 + i] == capital(
            hex_text(bytes)[i],
        ),
{
    reveal_strlit("0x");
    law_hex_has_two_digits_a_byte(bytes, 0);
}

} // verus!
