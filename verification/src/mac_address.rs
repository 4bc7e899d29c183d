//! A link-layer (MAC) address: six octets, parsed from the canonical
//! colon-separated hexadecimal text form (`"55:EE:75:BF:9C:A1"`).

use vstd::prelude::*;

verus! {

/// A hexadecimal digit: `0`-`9`, `A`-`F` or `a`-`f`.
pub open spec fn is_hex_digit(c: char) -> bool {
    ('0' <= c <= '9') || ('A' <= c <= 'F') || ('a' <= c <= 'f')
}

/// The nibble value (0-15) that a hexadecimal digit stands for.
pub open spec fn hex_digit_value(c: char) -> int
    recommends
        is_hex_digit(c),
{
    if '0' <= c <= '9' {
        c as int - '0' as int
    } else if 'A' <= c <= 'F' {
        c as int - 'A' as int + 10
    } else {
        c as int - 'a' as int + 10
    }
}

/// The canonical text form of a MAC address: six two-character hexadecimal
/// groups separated by colons, anchored at both ends. The text has exactly
/// 17 characters; the characters at positions 2, 5, 8, 11 and 14 (those whose
/// index is 2 modulo 3) are colons, and every other character is a
/// hexadecimal digit.
pub open spec fn is_canonical_mac(s: Seq<char>) -> bool {
    &&& s.len() == 17
    &&& forall|i: int|
        0 <= i < 17 ==> if i % 3 == 2 {
            s[i] == ':'
        } else {
            is_hex_digit(s[i])
        }
}

/// The six bytes that canonical text denotes: byte `k` is read from the
/// characters at positions `3k` (high nibble) and `3k + 1` (low nibble).
pub open spec fn mac_bytes_of(s: Seq<char>) -> Seq<u8>
    recommends
        is_canonical_mac(s),
{
    Seq::new(6, |k: int| (hex_digit_value(s[3 * k]) * 16 + hex_digit_value(s[3 * k + 1])) as u8)
}

/// Two characters that are the same hexadecimal digit up to letter case:
/// either equal, or a lowercase letter digit and its uppercase counterpart
/// (32 apart in code-point value).
pub open spec fn same_hex_ignoring_case(c: char, d: char) -> bool {
    ||| c == d
    ||| (c as int - d as int == 32 && 'a' <= c <= 'f')
    ||| (d as int - c as int == 32 && 'a' <= d <= 'f')
}

/// Parsing is pure: the contract of `MacAddress::from_string_slice` pins its
/// result down as a function of the input text alone, so any two results
/// that satisfy it for the same text agree.
pub proof fn lemma_parse_deterministic(s: Seq<char>, r1: Option<MacAddress>, r2: Option<MacAddress>)
    requires
        r1 is Some <==> is_canonical_mac(s),
        r1 is Some ==> r1->0@ == mac_bytes_of(s),
        r2 is Some <==> is_canonical_mac(s),
        r2 is Some ==> r2->0@ == mac_bytes_of(s),
    ensures
        r1 is Some <==> r2 is Some,
        r1 is Some ==> r1->0@ == r2->0@,
{
}

/// Hexadecimal decoding is case-insensitive: two canonical texts whose
/// characters agree up to letter case denote the same six bytes.
pub proof fn lemma_parse_case_insensitive(s: Seq<char>, t: Seq<char>)
    requires
        is_canonical_mac(s),
        is_canonical_mac(t),
        forall|i: int| 0 <= i < 17 ==> same_hex_ignoring_case(s[i], t[i]),
    ensures
        mac_bytes_of(s) == mac_bytes_of(t),
{
    assert forall|k: int| 0 <= k < 6 implies mac_bytes_of(s)[k] == mac_bytes_of(t)[k] by {
        assert(same_hex_ignoring_case(s[3 * k], t[3 * k]));
        assert(same_hex_ignoring_case(s[3 * k + 1], t[3 * k + 1]));
        assert(is_hex_digit(s[3 * k]) && is_hex_digit(s[3 * k + 1]));
        assert(is_hex_digit(t[3 * k]) && is_hex_digit(t[3 * k + 1]));
    }
    assert(mac_bytes_of(s) =~= mac_bytes_of(t));
}

/// A MAC address: exactly six octets, in the order they appear in the
/// canonical text form (octet 0 is the leftmost group).
pub struct MacAddress {
    pub address_array: [u8; 6],
}

impl View for MacAddress {
    type V = Seq<u8>;

    open spec fn view(&self) -> Seq<u8> {
        self.address_array@
    }
}

impl MacAddress {
    /// The all-zero address.
    pub fn new() -> (r: Self)
        ensures
            r@ == Seq::new(6, |i: int| 0u8),
    {
        let r = MacAddress { address_array: [0, 0, 0, 0, 0, 0] };
        proof {
            assert(r@ =~= Seq::new(6, |i: int| 0u8));
        }
        r
    }

    /// Wraps a caller-supplied six-byte array unchanged; no validation.
    pub fn from_array(mac: &[u8; 6]) -> (r: Self)
        ensures
            r@ == mac@,
    {
        MacAddress { address_array: *mac }
    }

    /// Parses canonical text into an address. Returns `Some` if and only if
    /// the text is in the canonical form; never panics on malformed input.
    pub fn from_string_slice(mac: &str) -> (r: Option<Self>)
        ensures
            r is Some <==> is_canonical_mac(mac@),
            r is Some ==> r->0@ == mac_bytes_of(mac@),
    {
        if !MacAddress::is_valid_mac_address(mac) {
            return None;
        }
        Some(MacAddress::string_slice_to_mac(mac))
    }

    /// Relies on regex::Regex::is_match: with the pattern
    /// `^(([0-9A-Fa-f]){2}:){5}([0-9A-Fa-f]){2}$` it returns true if and only
    /// if the whole haystack is five colon-terminated two-hex-digit groups
    /// followed by one more such group. The pattern is anchored at both ends
    /// and every character class in it is a single ASCII character, so a
    /// match is exactly a 17-character text with colons at positions 2, 5, 8,
    /// 11 and 14 and hexadecimal digits everywhere else. The pattern is a
    /// fixed valid expression, so regex::Regex::new cannot fail on it.
    #[verifier::external_body]
    fn is_valid_mac_address(mac: &str) -> (r: bool)
        ensures
            r == is_canonical_mac(mac@),
    {
        let r: regex::Regex = regex::Regex::new(r"^(([0-9A-Fa-f]){2}:){5}([0-9A-Fa-f]){2}$")
            .unwrap();
        r.is_match(mac)
    }

    /// Splits canonical text on the colon separator into its six
    /// two-character groups, in left-to-right order.
    fn split_mac_by_colons<'a>(mac: &'a str) -> (r: Vec<&'a str>)
        requires
            is_canonical_mac(mac@),
        ensures
            r@.len() == 6,
            forall|k: int| 0 <= k < 6 ==> r@[k]@ == mac@.subrange(3 * k, 3 * k + 2),
    {
        let mut result: Vec<&str> = Vec::new();
        let mut i: usize = 0;
        while i < 6
            invariant
                is_canonical_mac(mac@),
                i <= 6,
                result@.len() == i,
                forall|k: int| 0 <= k < i ==> result@[k]@ == mac@.subrange(3 * k, 3 * k + 2),
            decreases 6 - i,
        {
            let group = mac.substring_char(3 * i, 3 * i + 2);
            result.push(group);
            i += 1;
        }
        result
    }

    /// Converts text already confirmed canonical into an address: one byte
    /// per group, groups in left-to-right order.
    fn string_slice_to_mac(mac: &str) -> (r: Self)
        requires
            is_canonical_mac(mac@),
        ensures
            r@ == mac_bytes_of(mac@),
    {
        let octets: Vec<&str> = MacAddress::split_mac_by_colons(mac);
        let mut result: [u8; 6] = [0, 0, 0, 0, 0, 0];
        let mut i: usize = 0;

        while i < 6
            invariant
                is_canonical_mac(mac@),
                octets@.len() == 6,
                forall|k: int| 0 <= k < 6 ==> octets@[k]@ == mac@.subrange(3 * k, 3 * k + 2),
                i <= 6,
                forall|k: int| 0 <= k < i ==> result@[k] == mac_bytes_of(mac@)[k],
            decreases 6 - i,
        {
            proof {
                assert(mac@[3 * i] == octets@[i as int]@[0]);
                assert(mac@[3 * i + 1] == octets@[i as int]@[1]);
            }
            result[i] = MacAddress::octet_chars_to_byte(octets[i]);
            i += 1;
        }

        let r = MacAddress::from_array(&result);
        proof {
            assert(r@ =~= mac_bytes_of(mac@));
        }
        r
    }

    /// Combines the two hexadecimal characters of one group into one byte,
    /// first character as the high nibble, second as the low nibble.
    pub fn octet_chars_to_byte(octet: &str) -> (r: u8)
        requires
            octet@.len() == 2,
            is_hex_digit(octet@[0]),
            is_hex_digit(octet@[1]),
        ensures
            r == hex_digit_value(octet@[0]) * 16 + hex_digit_value(octet@[1]),
    {
        let first_half_byte: u8 = MacAddress::char_to_digit(&octet.get_char(1)).unwrap();
        let second_half_byte: u8 = MacAddress::char_to_digit(&octet.get_char(0)).unwrap() * 16;

        first_half_byte + second_half_byte
    }

    /// Decodes a single hexadecimal digit to its nibble value; `None` for
    /// every other character.
    pub fn char_to_digit(hex: &char) -> (r: Option<u8>)
        ensures
            r is Some <==> is_hex_digit(*hex),
            r is Some ==> r->0 == hex_digit_value(*hex),
    {
        let c = *hex;
        if '0' <= c && c <= '9' {
            Some((c as u32 - '0' as u32) as u8)
        } else if 'A' <= c && c <= 'F' {
            Some((c as u32 - 'A' as u32 + 10) as u8)
        } else if 'a' <= c && c <= 'f' {
            Some((c as u32 - 'a' as u32 + 10) as u8)
        } else {
            None
        }
    }
}

} // verus!
