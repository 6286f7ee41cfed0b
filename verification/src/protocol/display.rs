use crate::addr_pairs::{Ipv4AddrPair, PortPair};
use vstd::prelude::*;
use vstd::string::*;

verus! {

/// The characters of `s`, in order.
pub fn chars_of(s: &str) -> (r: Vec<char>)
    ensures
        r@ == s@,
{
    broadcast use vstd::string::group_string_axioms;
    let mut r: Vec<char> = Vec::new();
    for c in it: s.chars()
        invariant
            r@ == it.seq().take(it.index() as int),
    {
        r.push(c);
    }
    r
}


/// The character for the decimal digit `d`.
pub open spec fn digit_char(d: int) -> char {
    if d == 0 {
        '0'
    } else if d == 1 {
        '1'
    } else if d == 2 {
        '2'
    } else if d == 3 {
        '3'
    } else if d == 4 {
        '4'
    } else if d == 5 {
        '5'
    } else if d == 6 {
        '6'
    } else if d == 7 {
        '7'
    } else if d == 8 {
        '8'
    } else {
        '9'
    }
}

/// `n` written in decimal, with no leading zeros (a lone `0` for zero).
pub open spec fn decimal(n: nat) -> Seq<char>
    decreases n,
{
    if n < 10 {
        seq![digit_char(n as int)]
    } else {
        decimal(n / 10).push(digit_char((n % 10) as int))
    }
}

/// `n` written in decimal with leading zeros up to `width` digits (more digits if it needs them).
pub open spec fn padded(n: nat, width: nat) -> Seq<char>
    decreases width,
{
    if width <= 1 {
        decimal(n)
    } else {
        padded(n / 10, (width - 1) as nat).push(digit_char((n % 10) as int))
    }
}

/// `n` written in decimal with a comma between each group of three digits, counting from the
/// right.
pub open spec fn thousands(n: nat) -> Seq<char>
    decreases n,
{
    if n < 1000 {
        decimal(n)
    } else {
        thousands(n / 1000) + seq![','] + padded(n % 1000, 3)
    }
}

/// The one-character text of the decimal digit `d`.
fn digit_str(d: u64) -> (r: &'static str)
    requires
        d < 10,
    ensures
        r@ == seq![digit_char(d as int)],
{
    if d == 0 {
        proof {
            reveal_strlit("0");
        }
        "0"
    } else if d == 1 {
        proof {
            reveal_strlit("1");
        }
        "1"
    } else if d == 2 {
        proof {
            reveal_strlit("2");
        }
        "2"
    } else if d == 3 {
        proof {
            reveal_strlit("3");
        }
        "3"
    } else if d == 4 {
        proof {
            reveal_strlit("4");
        }
        "4"
    } else if d == 5 {
        proof {
            reveal_strlit("5");
        }
        "5"
    } else if d == 6 {
        proof {
            reveal_strlit("6");
        }
        "6"
    } else if d == 7 {
        proof {
            reveal_strlit("7");
        }
        "7"
    } else if d == 8 {
        proof {
            reveal_strlit("8");
        }
        "8"
    } else {
        proof {
            reveal_strlit("9");
        }
        "9"
    }
}

/// Appends `n` in decimal (see `decimal`).
pub fn push_decimal(s: &mut String, n: u64)
    ensures
        final(s)@ == old(s)@ + decimal(n as nat),
    decreases n,
{
    if n >= 10 {
        push_decimal(s, n / 10);
    }
    s.append(digit_str(n % 10));
    assert(final(s)@ =~= old(s)@ + decimal(n as nat));
}

/// Appends the 128-bit `n` in decimal (see `decimal`).
pub fn push_decimal_wide(s: &mut String, n: u128)
    ensures
        final(s)@ == old(s)@ + decimal(n as nat),
    decreases n,
{
    if n >= 10 {
        push_decimal_wide(s, n / 10);
    }
    s.append(digit_str((n % 10) as u64));
    assert(final(s)@ =~= old(s)@ + decimal(n as nat));
}

/// Appends `n` in decimal with leading zeros up to `width` digits (see `padded`).
pub fn push_padded(s: &mut String, n: u64, width: u64)
    ensures
        final(s)@ == old(s)@ + padded(n as nat, width as nat),
    decreases width,
{
    if width <= 1 {
        push_decimal(s, n);
    } else {
        push_padded(s, n / 10, width - 1);
        s.append(digit_str(n % 10));
        assert(final(s)@ =~= old(s)@ + padded(n as nat, width as nat));
    }
}

/// Appends `n` with thousands separators (see `thousands`).
pub fn push_thousands(s: &mut String, n: u64)
    ensures
        final(s)@ == old(s)@ + thousands(n as nat),
    decreases n,
{
    if n < 1000 {
        push_decimal(s, n);
    } else {
        push_thousands(s, n / 1000);
        proof {
            reveal_strlit(",");
        }
        s.append(",");
        push_padded(s, n % 1000, 3);
        assert(final(s)@ =~= old(s)@ + thousands(n as nat));
    }
}

/// `n` with thousands separators, e.g. `4,294,967,295`.
pub fn with_thousands_separators(n: u64) -> (r: String)
    ensures
        r@ == thousands(n as nat),
{
    let mut s = String::new();
    push_thousands(&mut s, n);
    assert(s@ =~= thousands(n as nat));
    s
}

/// The lowercase character for the hexadecimal digit `d`.
pub open spec fn hex_digit_char(d: int) -> char {
    if d < 10 {
        digit_char(d)
    } else if d == 10 {
        'a'
    } else if d == 11 {
        'b'
    } else if d == 12 {
        'c'
    } else if d == 13 {
        'd'
    } else if d == 14 {
        'e'
    } else {
        'f'
    }
}

/// `b` as two lowercase hexadecimal digits.
pub open spec fn hex_byte(b: u8) -> Seq<char> {
    seq![hex_digit_char((b / 16) as int), hex_digit_char((b % 16) as int)]
}

/// What goes before byte `i` in a hex listing of `len` bytes: a space, or, when there are more
/// than sixteen bytes, a line break before every sixteenth byte.
pub open spec fn hex_separator(i: int, len: int) -> char {
    if len <= 16 || i % 16 != 0 {
        ' '
    } else {
        '\n'
    }
}

/// The first `n` bytes of `data` in hex, each after its separator.
pub open spec fn hex_listing(data: Seq<u8>, n: nat) -> Seq<char>
    decreases n,
{
    if n == 0 {
        Seq::empty()
    } else {
        hex_listing(data, (n - 1) as nat).push(hex_separator(n - 1, data.len() as int)) + hex_byte(
            data[n - 1],
        )
    }
}

/// The one-character text of the hexadecimal digit `d`.
fn hex_digit_str(d: u8) -> (r: &'static str)
    requires
        d < 16,
    ensures
        r@ == seq![hex_digit_char(d as int)],
{
    if d < 10 {
        digit_str(d as u64)
    } else if d == 10 {
        proof {
            reveal_strlit("a");
        }
        "a"
    } else if d == 11 {
        proof {
            reveal_strlit("b");
        }
        "b"
    } else if d == 12 {
        proof {
            reveal_strlit("c");
        }
        "c"
    } else if d == 13 {
        proof {
            reveal_strlit("d");
        }
        "d"
    } else if d == 14 {
        proof {
            reveal_strlit("e");
        }
        "e"
    } else {
        proof {
            reveal_strlit("f");
        }
        "f"
    }
}

/// Appends `data` in hex (see `hex_listing`).
pub fn push_hex_listing(s: &mut String, data: &[u8])
    ensures
        final(s)@ == old(s)@ + hex_listing(data@, data@.len()),
{
    let ghost start = s@;
    let len = data.len();
    let mut i: usize = 0;
    while i < len
        invariant
            i <= len,
            len == data@.len(),
            s@ == start + hex_listing(data@, i as nat),
        decreases len - i,
    {
        proof {
            reveal_strlit(" ");
            reveal_strlit("\n");
        }
        if len <= 16 || i % 16 != 0 {
            s.append(" ");
        } else {
            s.append("\n");
        }
        let b = data[i];
        s.append(hex_digit_str(b / 16));
        s.append(hex_digit_str(b % 16));
        assert(s@ =~= start + hex_listing(data@, (i + 1) as nat));
        i = i + 1;
    }
}

/// The characters of an optional text.
pub open spec fn opt_str_view(o: Option<&str>) -> Option<Seq<char>> {
    match o {
        Some(text) => Some(text@),
        None => None,
    }
}

/// The text that `data` encodes as UTF-8, or `None` where it is not valid UTF-8.
pub uninterp spec fn utf8_text(data: Seq<u8>) -> Option<Seq<char>>;

/// `s` with the escapes of `str::escape_debug`.
pub uninterp spec fn debug_escaped(s: Seq<char>) -> Seq<char>;

/// Decodes `data` with `std::str::from_utf8`. Trusted: the text is `utf8_text(data)`, and bytes
/// that are all ASCII always decode, each byte to the character with its value (UTF-8 encodes
/// ASCII as itself). Which other byte strings decode, and to what, is left to the name.
#[verifier::external_body]
fn decode_utf8(data: &[u8]) -> (r: Option<&str>)
    ensures
        opt_str_view(r) == utf8_text(data@),
        opt_str_view(r) == Some(data@.map_values(|b: u8| b as char)) <== (forall|i: int|
            0 <= i < data@.len() ==> data@[i] < 0x80),
{
    std::str::from_utf8(data).ok()
}

/// Escapes `s` with `str::escape_debug`. Trusted: the result is `debug_escaped(s)`; the escapes
/// themselves (which follow Unicode tables) are left to the name.
#[verifier::external_body]
fn escape_debug(s: &str) -> (r: String)
    ensures
        r@ == debug_escaped(s@),
{
    s.escape_debug().to_string()
}

/// The description of the payload `data`: `<no payload>` when it is empty; otherwise its length
/// in bytes and whether it is UTF-8, followed, when `include_content` holds, by the text with
/// escapes or by the bytes in hex.
pub open spec fn payload_text(data: Seq<u8>, include_content: bool) -> Seq<char> {
    if data.len() == 0 {
        "<no payload>"@
    } else {
        match utf8_text(data) {
            Some(text) => decimal(data.len()) + "-byte UTF-8 payload"@ + if include_content {
                ": "@ + debug_escaped(text)
            } else {
                Seq::empty()
            },
            None => decimal(data.len()) + "-byte non-UTF-8 payload"@ + if include_content {
                ":"@ + hex_listing(data, data.len())
            } else {
                Seq::empty()
            },
        }
    }
}

/// The raw bytes of a payload, to be described by length, by whether they are UTF-8, and
/// optionally by their content.
pub struct PrettyPayload<'a> {
    pub data: &'a [u8],
    pub include_content: bool,
}

impl<'a> PrettyPayload<'a> {
    /// The description of the payload (see `payload_text`).
    pub fn to_text(&self) -> (r: String)
        ensures
            r@ == payload_text(self.data@, self.include_content),
    {
        let len = self.data.len();
        if len == 0 {
            return String::from_str("<no payload>");
        }
        let mut s = String::new();
        push_decimal(&mut s, len as u64);
        match decode_utf8(self.data) {
            Some(text) => {
                s.append("-byte UTF-8 payload");
                if self.include_content {
                    s.append(": ");
                    let escaped = escape_debug(text);
                    s.append(escaped.as_str());
                }
            },
            None => {
                s.append("-byte non-UTF-8 payload");
                if self.include_content {
                    s.append(":");
                    push_hex_listing(&mut s, self.data);
                }
            },
        }
        s
    }
}

/// The dotted-decimal text of the IPv4 address `a`.
pub open spec fn ipv4_text(a: u32) -> Seq<char> {
    decimal((a / 0x100_0000) as nat) + "."@ + decimal((a / 0x1_0000 % 0x100) as nat) + "."@
        + decimal((a / 0x100 % 0x100) as nat) + "."@ + decimal((a % 0x100) as nat)
}

/// The text of an address pair: source, an arrow, destination.
pub open spec fn ip_pair_text(p: Ipv4AddrPair) -> Seq<char> {
    ipv4_text(p.src) + " -> "@ + ipv4_text(p.dst)
}

/// The text of a port pair: source, an arrow, destination.
pub open spec fn port_pair_text(p: PortPair) -> Seq<char> {
    decimal(p.src as nat) + " -> "@ + decimal(p.dst as nat)
}

/// Appends the address `a` in dotted decimal (see `ipv4_text`).
pub fn push_ipv4(s: &mut String, a: u32)
    ensures
        final(s)@ == old(s)@ + ipv4_text(a),
{
    let ghost start = s@;
    push_decimal(s, (a / 0x100_0000) as u64);
    s.append(".");
    push_decimal(s, (a / 0x1_0000 % 0x100) as u64);
    s.append(".");
    push_decimal(s, (a / 0x100 % 0x100) as u64);
    s.append(".");
    push_decimal(s, (a % 0x100) as u64);
    assert(s@ =~= start + ipv4_text(a));
}

/// Appends the address pair `p` (see `ip_pair_text`).
pub fn push_ip_pair(s: &mut String, p: Ipv4AddrPair)
    ensures
        final(s)@ == old(s)@ + ip_pair_text(p),
{
    let ghost start = s@;
    push_ipv4(s, p.src);
    s.append(" -> ");
    push_ipv4(s, p.dst);
    assert(s@ =~= start + ip_pair_text(p));
}

/// Appends the port pair `p` (see `port_pair_text`).
pub fn push_port_pair(s: &mut String, p: PortPair)
    ensures
        final(s)@ == old(s)@ + port_pair_text(p),
{
    let ghost start = s@;
    push_decimal(s, p.src as u64);
    s.append(" -> ");
    push_decimal(s, p.dst as u64);
    assert(s@ =~= start + port_pair_text(p));
}

} // verus!
