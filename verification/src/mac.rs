//! Device hardware addresses: their text form, and their use as map keys.
use vstd::prelude::*;
use vstd::string::*;

verus! {

/// The lower-case hexadecimal digit of a value below 16.
pub open spec fn hex_char(n: int) -> char {
    if n < 10 {
        (48 + n) as char
    } else {
        (87 + n) as char
    }
}

/// The value of a hexadecimal digit of either case.
pub open spec fn hex_value(c: char) -> Option<int> {
    if '0' <= c <= '9' {
        Some(c as int - 48)
    } else if 'a' <= c <= 'f' {
        Some(c as int - 87)
    } else if 'A' <= c <= 'F' {
        Some(c as int - 55)
    } else {
        None
    }
}

/// Text form of an address: six pairs of lower-case hexadecimal digits with
/// colons between them.
pub open spec fn mac_text(mac: Seq<u8>) -> Seq<char> {
    Seq::new(
        17,
        |i: int|
            if i % 3 == 2 {
                ':'
            } else if i % 3 == 0 {
                hex_char(mac[i / 3] as int / 16)
            } else {
                hex_char(mac[i / 3] as int % 16)
            },
    )
}

/// Whether a text is six pairs of hexadecimal digits with colons between them.
pub open spec fn is_mac_text(s: Seq<char>) -> bool {
    &&& s.len() == 17
    &&& forall|i: int|
        0 <= i < 17 ==> if i % 3 == 2 {
            #[trigger] s[i] == ':'
        } else {
            hex_value(s[i]) is Some
        }
}

/// The address that a text of that form stands for.
pub open spec fn mac_bytes(s: Seq<char>) -> Seq<u8> {
    Seq::new(6, |i: int| (16 * hex_value(s[3 * i])->0 + hex_value(s[3 * i + 1])->0) as u8)
}

/// Number of distinct addresses.
pub const MAC_KEYS: u64 = 0x1_0000_0000_0000;

/// An address as a number, the first byte most significant.
pub open spec fn spec_mac_key(mac: Seq<u8>) -> u64 {
    (mac[0] * 0x100_0000_0000 + mac[1] * 0x1_0000_0000 + mac[2] * 0x100_0000 + mac[3] * 0x1_0000
        + mac[4] * 0x100 + mac[5]) as u64
}

/// The address that a number stands for.
pub open spec fn key_bytes(key: u64) -> Seq<u8> {
    seq![
        (key as int / 0x100_0000_0000 % 256) as u8,
        (key as int / 0x1_0000_0000 % 256) as u8,
        (key as int / 0x100_0000 % 256) as u8,
        (key as int / 0x1_0000 % 256) as u8,
        (key as int / 0x100 % 256) as u8,
        (key as int % 256) as u8,
    ]
}

/// The address as a number, the first byte most significant. Maps and sets of
/// devices are keyed by it.
pub fn mac_key(mac: &[u8; 6]) -> (key: u64)
    ensures
        key == spec_mac_key(mac@),
        key < MAC_KEYS,
{
    mac[0] as u64 * 0x100_0000_0000 + mac[1] as u64 * 0x1_0000_0000 + mac[2] as u64 * 0x100_0000
        + mac[3] as u64 * 0x1_0000 + mac[4] as u64 * 0x100 + mac[5] as u64
}

/// The address that a key stands for.
pub fn mac_from_key(key: u64) -> (mac: [u8; 6])
    ensures
        mac@ == key_bytes(key),
        key < MAC_KEYS ==> spec_mac_key(mac@) == key,
        mac[0] == key as int / 0x100_0000_0000 % 256,
        mac[1] == key as int / 0x1_0000_0000 % 256,
        mac[2] == key as int / 0x100_0000 % 256,
        mac[3] == key as int / 0x1_0000 % 256,
        mac[4] == key as int / 0x100 % 256,
        mac[5] == key as int % 256,
{
    let mac: [u8; 6] = [
        (key / 0x100_0000_0000 % 256) as u8,
        (key / 0x1_0000_0000 % 256) as u8,
        (key / 0x100_0000 % 256) as u8,
        (key / 0x1_0000 % 256) as u8,
        (key / 0x100 % 256) as u8,
        (key % 256) as u8,
    ];
    assert(mac@ =~= key_bytes(key));
    proof {
        if key < MAC_KEYS {
            lemma_key_of_bytes(key);
        }
    }
    mac
}

proof fn lemma_key_of_bytes(key: u64)
    requires
        key < MAC_KEYS,
    ensures
        spec_mac_key(key_bytes(key)) == key,
{
    assert((key / 0x100_0000_0000 % 256) * 0x100_0000_0000 + (key / 0x1_0000_0000 % 256)
        * 0x1_0000_0000 + (key / 0x100_0000 % 256) * 0x100_0000 + (key / 0x1_0000 % 256) * 0x1_0000
        + (key / 0x100 % 256) * 0x100 + key % 256 == key) by (bit_vector)
        requires
            key < 0x1_0000_0000_0000,
    ;
}

proof fn lemma_bytes_of_key(a: u8, b: u8, c: u8, d: u8, e: u8, f: u8, key: u64)
    by (bit_vector)
    requires
        key == a * 0x100_0000_0000 + b * 0x1_0000_0000 + c * 0x100_0000 + d * 0x1_0000 + e * 0x100
            + f,
    ensures
        key / 0x100_0000_0000 % 256 == a,
        key / 0x1_0000_0000 % 256 == b,
        key / 0x100_0000 % 256 == c,
        key / 0x1_0000 % 256 == d,
        key / 0x100 % 256 == e,
        key % 256 == f,
{
}

fn hex_text(n: u8) -> (text: &'static str)
    requires
        n < 16,
    ensures
        text@ == seq![hex_char(n as int)],
{
    proof {
        reveal_strlit("0");
        reveal_strlit("1");
        reveal_strlit("2");
        reveal_strlit("3");
        reveal_strlit("4");
        reveal_strlit("5");
        reveal_strlit("6");
        reveal_strlit("7");
        reveal_strlit("8");
        reveal_strlit("9");
        reveal_strlit("a");
        reveal_strlit("b");
        reveal_strlit("c");
        reveal_strlit("d");
        reveal_strlit("e");
        reveal_strlit("f");
    }
    match n {
        0 => "0",
        1 => "1",
        2 => "2",
        3 => "3",
        4 => "4",
        5 => "5",
        6 => "6",
        7 => "7",
        8 => "8",
        9 => "9",
        10 => "a",
        11 => "b",
        12 => "c",
        13 => "d",
        14 => "e",
        _ => "f",
    }
}

/// Text form of an address.
pub fn format_mac(mac: &[u8; 6]) -> (out: String)
    ensures
        out@ == mac_text(mac@),
{
    proof {
        reveal_strlit(":");
    }
    let mut out: String = String::new();
    let mut i: usize = 0;
    while i < 6
        invariant
            i <= 6,
            out@.len() == if i == 0 {
                0
            } else {
                3 * i - 1
            },
            out@ =~= mac_text(mac@).take(out@.len() as int),
            ":"@ == seq![':'],
        decreases 6 - i,
    {
        if i > 0 {
            out.append(":");
        }
        out.append(hex_text(mac[i] / 16));
        out.append(hex_text(mac[i] % 16));
        i = i + 1;
    }
    out
}

fn hex_digit(c: char) -> (digit: Option<u8>)
    ensures
        digit is Some <==> hex_value(c) is Some,
        digit matches Some(d) ==> d < 16 && d == hex_value(c)->0,
{
    let code: u32 = c as u32;
    if '0' <= c && c <= '9' {
        Some((code - 48) as u8)
    } else if 'a' <= c && c <= 'f' {
        Some((code - 87) as u8)
    } else if 'A' <= c && c <= 'F' {
        Some((code - 55) as u8)
    } else {
        None
    }
}

/// A text that is not a hardware address.
#[derive(Debug, Clone, Copy, PartialEq, Eq)]
pub struct InvalidMac;

/// Reads an address from its text form. Digits of either case are accepted.
pub fn parse_mac(value: &str) -> (mac: Result<[u8; 6], InvalidMac>)
    ensures
        mac is Ok <==> is_mac_text(value@),
        mac matches Ok(bytes) ==> bytes@ == mac_bytes(value@),
        mac matches Ok(bytes) ==> forall|i: int|
            0 <= i < 17 ==> #[trigger] mac_text(bytes@)[i] == if 'A' <= value@[i] <= 'F' {
                (value@[i] as int + 32) as char
            } else {
                value@[i]
            },
{
    if value.unicode_len() != 17 {
        return Err(InvalidMac);
    }
    let mut mac: [u8; 6] = [0, 0, 0, 0, 0, 0];
    let mut i: usize = 0;
    while i < 6
        invariant
            i <= 6,
            value@.len() == 17,
            forall|j: int|
                0 <= j < 17 && j < 3 * i ==> if j % 3 == 2 {
                    #[trigger] value@[j] == ':'
                } else {
                    hex_value(value@[j]) is Some
                },
            forall|j: int| 0 <= j < i ==> #[trigger] mac@[j] == mac_bytes(value@)[j],
        decreases 6 - i,
    {
        let high: u8 = match hex_digit(value.get_char(3 * i)) {
            Some(d) => d,
            None => {
                assert(!is_mac_text(value@)) by {
                    let k = 3 * i;
                    assert(hex_value(value@[k as int]) is None);
                }
                return Err(InvalidMac);
            },
        };
        let low: u8 = match hex_digit(value.get_char(3 * i + 1)) {
            Some(d) => d,
            None => {
                assert(!is_mac_text(value@)) by {
                    let k = 3 * i + 1;
                    assert(hex_value(value@[k as int]) is None);
                }
                return Err(InvalidMac);
            },
        };
        if i < 5 && value.get_char(3 * i + 2) != ':' {
            return Err(InvalidMac);
        }
        mac[i] = 16 * high + low;
        i = i + 1;
    }
    assert(mac@ =~= mac_bytes(value@));
    proof {
        law_format_inverts_parse(value@);
    }
    Ok(mac)
}

/// The text form shows every byte of an address in place: its two lower-case
/// hexadecimal digits, the higher one first, and a colon before the next byte.
pub proof fn law_text_shows_every_byte(mac: Seq<u8>, i: int)
    requires
        mac.len() == 6,
        0 <= i < 6,
    ensures
        mac_text(mac).len() == 17,
        mac_text(mac)[3 * i] == "0123456789abcdef"@[mac[i] as int / 16],
        mac_text(mac)[3 * i + 1] == "0123456789abcdef"@[mac[i] as int % 16],
        i < 5 ==> mac_text(mac)[3 * i + 2] == ':',
{
    reveal_strlit("0123456789abcdef");
    lemma_hex_char(mac[i] as int / 16);
    lemma_hex_char(mac[i] as int % 16);
}

proof fn lemma_hex_char(n: int)
    requires
        0 <= n < 16,
    ensures
        hex_char(n) == "0123456789abcdef"@[n],
{
    reveal_strlit("0123456789abcdef");
}

/// A text is read as an address exactly when it is 17 characters long, with a
/// colon at every third place and a hexadecimal digit of either case at the
/// others.
pub proof fn law_readable_texts(s: Seq<char>)
    ensures
        is_mac_text(s) <==> s.len() == 17 && forall|i: int|
            0 <= i < 17 ==> if i == 2 || i == 5 || i == 8 || i == 11 || i == 14 {
                #[trigger] s[i] == ':'
            } else {
                '0' <= s[i] <= '9' || 'a' <= s[i] <= 'f' || 'A' <= s[i] <= 'F'
            },
{
    if is_mac_text(s) {
        assert forall|i: int| 0 <= i < 17 implies if i == 2 || i == 5 || i == 8 || i == 11 || i
            == 14 {
            #[trigger] s[i] == ':'
        } else {
            '0' <= s[i] <= '9' || 'a' <= s[i] <= 'f' || 'A' <= s[i] <= 'F'
        } by {
            assert(if i % 3 == 2 {
                s[i] == ':'
            } else {
                hex_value(s[i]) is Some
            });
        }
    }
}

/// Writing down the address that was read from a text gives that text back,
/// with its letters in lower case.
pub proof fn law_format_inverts_parse(s: Seq<char>)
    requires
        is_mac_text(s),
    ensures
        mac_bytes(s).len() == 6,
        mac_text(mac_bytes(s)).len() == 17,
        forall|i: int|
            0 <= i < 17 ==> #[trigger] mac_text(mac_bytes(s))[i] == if 'A' <= s[i] <= 'F' {
                (s[i] as int + 32) as char
            } else {
                s[i]
            },
{
    let mac = mac_bytes(s);
    assert forall|i: int| 0 <= i < 17 implies #[trigger] mac_text(mac)[i] == if 'A' <= s[i]
        <= 'F' {
        (s[i] as int + 32) as char
    } else {
        s[i]
    } by {
        assert(if i % 3 == 2 {
            s[i] == ':'
        } else {
            hex_value(s[i]) is Some
        });
        if i % 3 != 2 {
            let k = i / 3;
            assert(0 <= k < 6);
            let a = 3 * k;
            let b = 3 * k + 1;
            assert(a % 3 == 0 && b % 3 == 1);
            assert(s[a] == s[a] && s[b] == s[b]);
            assert(hex_value(s[a]) is Some);
            assert(hex_value(s[b]) is Some);
            let high = hex_value(s[a])->0;
            let low = hex_value(s[b])->0;
            assert(mac[k] as int == 16 * high + low);
            assert(mac[k] as int / 16 == high && mac[k] as int % 16 == low);
        }
    }
}

/// Reading an address back from its text form gives the address.
pub proof fn law_parse_inverts_format(mac: Seq<u8>)
    requires
        mac.len() == 6,
    ensures
        is_mac_text(mac_text(mac)),
        mac_bytes(mac_text(mac)) == mac,
{
    let s = mac_text(mac);
    assert forall|i: int| 0 <= i < 6 implies mac_bytes(s)[i] == #[trigger] mac[i] by {
        assert(s[3 * i] == hex_char(mac[i] as int / 16));
        assert(s[3 * i + 1] == hex_char(mac[i] as int % 16));
    }
    assert(mac_bytes(s) =~= mac);
}

/// The bytes of an address are those of its key, the first one most significant.
pub proof fn law_key_holds_every_byte(mac: Seq<u8>)
    requires
        mac.len() == 6,
    ensures
        spec_mac_key(mac) < 0x1_0000_0000_0000,
        spec_mac_key(mac) as int / 0x100_0000_0000 == mac[0],
        spec_mac_key(mac) as int / 0x1_0000_0000 % 256 == mac[1],
        spec_mac_key(mac) as int / 0x100_0000 % 256 == mac[2],
        spec_mac_key(mac) as int / 0x1_0000 % 256 == mac[3],
        spec_mac_key(mac) as int / 0x100 % 256 == mac[4],
        spec_mac_key(mac) as int % 256 == mac[5],
{
    lemma_bytes_of_key(mac[0], mac[1], mac[2], mac[3], mac[4], mac[5], spec_mac_key(mac));
}

/// Addresses and keys below `MAC_KEYS` correspond one to one.
pub proof fn law_key_identifies_mac(mac: Seq<u8>, key: u64)
    requires
        mac.len() == 6,
        key < MAC_KEYS,
    ensures
        spec_mac_key(mac) == key <==> key_bytes(key) == mac,
{
    if spec_mac_key(mac) == key {
        lemma_bytes_of_key(mac[0], mac[1], mac[2], mac[3], mac[4], mac[5], key);
        assert(key_bytes(key) =~= mac);
    } else {
        lemma_key_of_bytes(key);
    }
}

/// Whether address `a` comes before address `b`: at the first byte in which
/// they differ, that of `a` is the smaller.
pub open spec fn mac_before(a: Seq<u8>, b: Seq<u8>) -> bool {
    exists|i: int| 0 <= i < 6 && #[trigger] a[i] < b[i] && forall|j: int| 0 <= j < i ==> a[j] == b[j]
}

/// Keys are ordered as the addresses are, byte by byte.
pub proof fn law_key_order(a: Seq<u8>, b: Seq<u8>)
    requires
        a.len() == 6,
        b.len() == 6,
    ensures
        spec_mac_key(a) < spec_mac_key(b) <==> mac_before(a, b),
{
    if spec_mac_key(a) < spec_mac_key(b) {
        let i: int = if a[0] != b[0] {
            0
        } else if a[1] != b[1] {
            1
        } else if a[2] != b[2] {
            2
        } else if a[3] != b[3] {
            3
        } else if a[4] != b[4] {
            4
        } else {
            5
        };
        assert(a[i] < b[i]);
    }
}

} // verus!
