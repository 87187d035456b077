//! Canonical text encodings: decimal numbers, hexadecimal bytes, JSON string
//! escaping, and the exact JSON forms that are hashed and signed.
//!
//! Every peer must produce byte-identical encodings for identical inputs, so
//! each builder is proved equal to a spec function of its inputs alone.

use vstd::prelude::*;

use crate::chess::Position;
use crate::types::{Hash256, Transaction, TxView};

verus! {

use vstd::std_specs::iter::IteratorSpec;

broadcast use vstd::string::axiom_spec_iter, vstd::string::next_postcondition;

/// The decimal digit character for `d` in `0..10`.
pub open spec fn digit_char(d: int) -> char {
    if d == 0 {
        '0'
    } else if d == 1 {
        '1'
    } else if d == 2 {
        '2'
    } else if d == 3 {
        '3'
    } else if d == 4 {
        '4'
    } else if d == 5 {
        '5'
    } else if d == 6 {
        '6'
    } else if d == 7 {
        '7'
    } else if d == 8 {
        '8'
    } else {
        '9'
    }
}

/// The decimal rendering of `n`, without leading zeroes.
pub open spec fn dec_digits(n: int) -> Seq<char>
    decreases n,
{
    if n < 10 {
        seq![digit_char(n)]
    } else {
        dec_digits(n / 10).push(digit_char(n % 10))
    }
}

/// The lowercase hexadecimal digit character for `d` in `0..16`.
pub open spec fn hex_digit_char(d: int) -> char {
    if d < 10 {
        digit_char(d)
    } else if d == 10 {
        'a'
    } else if d == 11 {
        'b'
    } else if d == 12 {
        'c'
    } else if d == 13 {
        'd'
    } else if d == 14 {
        'e'
    } else {
        'f'
    }
}

/// The two lowercase hexadecimal digits of one byte.
pub open spec fn byte_hex(b: u8) -> Seq<char> {
    seq![hex_digit_char(b as int / 16), hex_digit_char(b as int % 16)]
}

/// The lowercase hexadecimal rendering of a byte string.
pub open spec fn bytes_hex(s: Seq<u8>) -> Seq<char>
    decreases s.len(),
{
    if s.len() == 0 {
        Seq::empty()
    } else {
        bytes_hex(s.drop_last()) + byte_hex(s.last())
    }
}

/// A character that a hexadecimal rendering may use, either case.
pub open spec fn is_hex_digit_char(c: char) -> bool {
    ||| ('0' <= c && c <= '9')
    ||| ('a' <= c && c <= 'f')
    ||| ('A' <= c && c <= 'F')
}

/// The value of one hexadecimal digit character.
pub open spec fn hex_char_val(c: char) -> int {
    if '0' <= c && c <= '9' {
        c as int - '0' as int
    } else if 'a' <= c && c <= 'f' {
        c as int - 'a' as int + 10
    } else {
        c as int - 'A' as int + 10
    }
}

/// A string that decodes as hexadecimal: even length, hexadecimal digits
/// throughout.
pub open spec fn hex_ok(s: Seq<char>) -> bool {
    &&& s.len() % 2 == 0
    &&& forall|i: int| 0 <= i < s.len() ==> is_hex_digit_char(#[trigger] s[i])
}

/// The bytes a hexadecimal string decodes to, two digits per byte.
pub open spec fn hex_decode_spec(s: Seq<char>) -> Seq<u8> {
    Seq::new(s.len() / 2, |i: int| (hex_char_val(s[2 * i]) * 16 + hex_char_val(s[2 * i + 1])) as u8)
}

/// How one character appears inside a JSON string literal: quote and
/// backslash escaped, control characters escaped by their short forms or as
/// `\u00..`, everything else as itself.
pub open spec fn json_escape_char(c: char) -> Seq<char> {
    if c == '"' {
        seq!['\\', '"']
    } else if c == '\\' {
        seq!['\\', '\\']
    } else if c == '\u{0008}' {
        seq!['\\', 'b']
    } else if c == '\u{0009}' {
        seq!['\\', 't']
    } else if c == '\u{000a}' {
        seq!['\\', 'n']
    } else if c == '\u{000c}' {
        seq!['\\', 'f']
    } else if c == '\u{000d}' {
        seq!['\\', 'r']
    } else if c == '\u{0000}' {
        seq!['\\', 'u', '0', '0', '0', '0']
    } else if c == '\u{0001}' {
        seq!['\\', 'u', '0', '0', '0', '1']
    } else if c == '\u{0002}' {
        seq!['\\', 'u', '0', '0', '0', '2']
    } else if c == '\u{0003}' {
        seq!['\\', 'u', '0', '0', '0', '3']
    } else if c == '\u{0004}' {
        seq!['\\', 'u', '0', '0', '0', '4']
    } else if c == '\u{0005}' {
        seq!['\\', 'u', '0', '0', '0', '5']
    } else if c == '\u{0006}' {
        seq!['\\', 'u', '0', '0', '0', '6']
    } else if c == '\u{0007}' {
        seq!['\\', 'u', '0', '0', '0', '7']
    } else if c == '\u{000b}' {
        seq!['\\', 'u', '0', '0', '0', 'b']
    } else if c == '\u{000e}' {
        seq!['\\', 'u', '0', '0', '0', 'e']
    } else if c == '\u{000f}' {
        seq!['\\', 'u', '0', '0', '0', 'f']
    } else if c == '\u{0010}' {
        seq!['\\', 'u', '0', '0', '1', '0']
    } else if c == '\u{0011}' {
        seq!['\\', 'u', '0', '0', '1', '1']
    } else if c == '\u{0012}' {
        seq!['\\', 'u', '0', '0', '1', '2']
    } else if c == '\u{0013}' {
        seq!['\\', 'u', '0', '0', '1', '3']
    } else if c == '\u{0014}' {
        seq!['\\', 'u', '0', '0', '1', '4']
    } else if c == '\u{0015}' {
        seq!['\\', 'u', '0', '0', '1', '5']
    } else if c == '\u{0016}' {
        seq!['\\', 'u', '0', '0', '1', '6']
    } else if c == '\u{0017}' {
        seq!['\\', 'u', '0', '0', '1', '7']
    } else if c == '\u{0018}' {
        seq!['\\', 'u', '0', '0', '1', '8']
    } else if c == '\u{0019}' {
        seq!['\\', 'u', '0', '0', '1', '9']
    } else if c == '\u{001a}' {
        seq!['\\', 'u', '0', '0', '1', 'a']
    } else if c == '\u{001b}' {
        seq!['\\', 'u', '0', '0', '1', 'b']
    } else if c == '\u{001c}' {
        seq!['\\', 'u', '0', '0', '1', 'c']
    } else if c == '\u{001d}' {
        seq!['\\', 'u', '0', '0', '1', 'd']
    } else if c == '\u{001e}' {
        seq!['\\', 'u', '0', '0', '1', 'e']
    } else if c == '\u{001f}' {
        seq!['\\', 'u', '0', '0', '1', 'f']
    } else {
        seq![c]
    }
}

/// The body of a JSON string literal: each character escaped in turn.
pub open spec fn json_escape(s: Seq<char>) -> Seq<char>
    decreases s.len(),
{
    if s.len() == 0 {
        Seq::empty()
    } else {
        json_escape_char(s[0]) + json_escape(s.drop_first())
    }
}

/// A whole JSON string literal: the escaped body between double quotes.
pub open spec fn json_quoted(s: Seq<char>) -> Seq<char> {
    seq!['"'] + json_escape(s) + seq!['"']
}

/// Appends the characters of `s` unchanged.
pub fn push_str_chars(out: &mut Vec<char>, s: &str)
    ensures
        final(out)@ == old(out)@ + s@,
{
    let ghost init = out@;
    let mut it = s.chars();
    loop
        invariant
            out@ + it.remaining() =~= init + s@,
            it.decrease() is Some,
        ensures
            out@ =~= init + s@,
        decreases it.decrease()->0,
    {
        let ghost rem0 = it.remaining();
        match it.next() {
            Some(c) => {
                out.push(c);
            },
            None => {
                proof {
                    assert(rem0.len() == 0);
                    assert(out@ + rem0 =~= out@);
                }
                break ;
            },
        }
    }
}

/// Appends the escaped body of `s`, as it appears inside a JSON string
/// literal.
pub fn push_json_escaped(out: &mut Vec<char>, s: &str)
    ensures
        final(out)@ == old(out)@ + json_escape(s@),
{
    let ghost init = out@;
    let mut it = s.chars();
    loop
        invariant
            out@ + json_escape(it.remaining()) =~= init + json_escape(s@),
            it.decrease() is Some,
        ensures
            out@ =~= init + json_escape(s@),
        decreases it.decrease()->0,
    {
        let ghost rem0 = it.remaining();
        match it.next() {
            Some(c) => {
                proof {
                    assert(rem0[0] == c && rem0.drop_first() == it.remaining());
                    assert(json_escape(rem0) == json_escape_char(c) + json_escape(it.remaining()));
                }
                let ghost before = out@;
                if c == '"' {
                    out.push('\\');
                    out.push('"');
                } else if c == '\\' {
                    out.push('\\');
                    out.push('\\');
                } else if c == '\u{0008}' {
                    out.push('\\');
                    out.push('b');
                } else if c == '\u{0009}' {
                    out.push('\\');
                    out.push('t');
                } else if c == '\u{000a}' {
                    out.push('\\');
                    out.push('n');
                } else if c == '\u{000c}' {
                    out.push('\\');
                    out.push('f');
                } else if c == '\u{000d}' {
                    out.push('\\');
                    out.push('r');
                } else if c == '\u{0000}' {
                    push_u_escape(out, '0', '0');
                } else if c == '\u{0001}' {
                    push_u_escape(out, '0', '1');
                } else if c == '\u{0002}' {
                    push_u_escape(out, '0', '2');
                } else if c == '\u{0003}' {
                    push_u_escape(out, '0', '3');
                } else if c == '\u{0004}' {
                    push_u_escape(out, '0', '4');
                } else if c == '\u{0005}' {
                    push_u_escape(out, '0', '5');
                } else if c == '\u{0006}' {
                    push_u_escape(out, '0', '6');
                } else if c == '\u{0007}' {
                    push_u_escape(out, '0', '7');
                } else if c == '\u{000b}' {
                    push_u_escape(out, '0', 'b');
                } else if c == '\u{000e}' {
                    push_u_escape(out, '0', 'e');
                } else if c == '\u{000f}' {
                    push_u_escape(out, '0', 'f');
                } else if c == '\u{0010}' {
                    push_u_escape(out, '1', '0');
                } else if c == '\u{0011}' {
                    push_u_escape(out, '1', '1');
                } else if c == '\u{0012}' {
                    push_u_escape(out, '1', '2');
                } else if c == '\u{0013}' {
                    push_u_escape(out, '1', '3');
                } else if c == '\u{0014}' {
                    push_u_escape(out, '1', '4');
                } else if c == '\u{0015}' {
                    push_u_escape(out, '1', '5');
                } else if c == '\u{0016}' {
                    push_u_escape(out, '1', '6');
                } else if c == '\u{0017}' {
                    push_u_escape(out, '1', '7');
                } else if c == '\u{0018}' {
                    push_u_escape(out, '1', '8');
                } else if c == '\u{0019}' {
                    push_u_escape(out, '1', '9');
                } else if c == '\u{001a}' {
                    push_u_escape(out, '1', 'a');
                } else if c == '\u{001b}' {
                    push_u_escape(out, '1', 'b');
                } else if c == '\u{001c}' {
                    push_u_escape(out, '1', 'c');
                } else if c == '\u{001d}' {
                    push_u_escape(out, '1', 'd');
                } else if c == '\u{001e}' {
                    push_u_escape(out, '1', 'e');
                } else if c == '\u{001f}' {
                    push_u_escape(out, '1', 'f');
                } else {
                    out.push(c);
                }
                proof {
                    assert(out@ =~= before + json_escape_char(c));
                    assert(out@ + json_escape(it.remaining()) =~= init + json_escape(s@));
                }
            },
            None => {
                proof {
                    assert(rem0.len() == 0);
                    assert(json_escape(rem0) =~= Seq::<char>::empty());
                    assert(out@ + json_escape(rem0) =~= out@);
                }
                break ;
            },
        }
    }
}

/// Appends one `\u00..` escape with the given two hexadecimal digits.
fn push_u_escape(out: &mut Vec<char>, h: char, l: char)
    ensures
        final(out)@ == old(out)@ + seq!['\\', 'u', '0', '0', h, l],
{
    out.push('\\');
    out.push('u');
    out.push('0');
    out.push('0');
    out.push(h);
    out.push(l);
    proof {
        assert(out@ =~= old(out)@ + seq!['\\', 'u', '0', '0', h, l]);
    }
}

/// Appends `s` as a whole JSON string literal, quotes included.
pub fn push_json_quoted(out: &mut Vec<char>, s: &str)
    ensures
        final(out)@ == old(out)@ + json_quoted(s@),
{
    out.push('"');
    push_json_escaped(out, s);
    out.push('"');
    proof {
        assert(out@ =~= old(out)@ + json_quoted(s@));
    }
}

/// The decimal digit character for `d` in `0..10`.
fn digit_of(d: u32) -> (c: char)
    requires
        d < 10,
    ensures
        c == digit_char(d as int),
{
    if d == 0 {
        '0'
    } else if d == 1 {
        '1'
    } else if d == 2 {
        '2'
    } else if d == 3 {
        '3'
    } else if d == 4 {
        '4'
    } else if d == 5 {
        '5'
    } else if d == 6 {
        '6'
    } else if d == 7 {
        '7'
    } else if d == 8 {
        '8'
    } else {
        '9'
    }
}

/// The lowercase hexadecimal digit character for `d` in `0..16`.
fn hex_digit_of(d: u32) -> (c: char)
    requires
        d < 16,
    ensures
        c == hex_digit_char(d as int),
{
    if d < 10 {
        digit_of(d)
    } else if d == 10 {
        'a'
    } else if d == 11 {
        'b'
    } else if d == 12 {
        'c'
    } else if d == 13 {
        'd'
    } else if d == 14 {
        'e'
    } else {
        'f'
    }
}

/// Appends the decimal rendering of `n`.
pub fn push_u32_dec(out: &mut Vec<char>, n: u32)
    ensures
        final(out)@ == old(out)@ + dec_digits(n as int),
    decreases n,
{
    if n < 10 {
        out.push(digit_of(n));
    } else {
        push_u32_dec(out, n / 10);
        out.push(digit_of(n % 10));
        proof {
            assert(out@ =~= old(out)@ + dec_digits(n as int));
        }
    }
}

/// Appends the lowercase hexadecimal rendering of `bytes`.
pub fn push_bytes_hex(out: &mut Vec<char>, bytes: &Vec<u8>)
    ensures
        final(out)@ == old(out)@ + bytes_hex(bytes@),
{
    let ghost init = out@;
    let mut i: usize = 0;
    while i < bytes.len()
        invariant
            i <= bytes@.len(),
            out@ =~= init + bytes_hex(bytes@.take(i as int)),
        decreases bytes@.len() - i,
    {
        let b = *bytes.get(i).unwrap();
        out.push(hex_digit_of(b as u32 / 16));
        out.push(hex_digit_of(b as u32 % 16));
        proof {
            assert(bytes@.take(i + 1).drop_last() =~= bytes@.take(i as int));
            assert(bytes@.take(i + 1).last() == bytes@[i as int]);
            assert(out@ =~= init + bytes_hex(bytes@.take(i + 1)));
        }
        i = i + 1;
    }
    proof {
        assert(bytes@.take(bytes@.len() as int) =~= bytes@);
    }
}

/// The canonical JSON of one position: `{"x":N,"y":N}`.
pub open spec fn position_json(p: Position) -> Seq<char> {
    "{\"x\":"@ + dec_digits(p.x as int) + ",\"y\":"@ + dec_digits(p.y as int) + "}"@
}

/// Appends the canonical JSON of one position.
pub fn push_position_json(out: &mut Vec<char>, p: &Position)
    ensures
        final(out)@ == old(out)@ + position_json(*p),
{
    push_str_chars(out, "{\"x\":");
    push_u32_dec(out, p.x);
    push_str_chars(out, ",\"y\":");
    push_u32_dec(out, p.y);
    push_str_chars(out, "}");
    proof {
        assert(out@ =~= old(out)@ + position_json(*p));
    }
}

/// The canonical JSON of a transaction, as it is embedded in the block that
/// is hashed: fixed field order, decimal coordinates, escaped strings.
pub open spec fn canonical_tx_json(t: TxView) -> Seq<char> {
    "{\"white_player\":"@ + json_quoted(t.white_player) + ",\"black_player\":"@ + json_quoted(
        t.black_player,
    ) + ",\"action\":["@ + position_json(t.from) + ","@ + position_json(t.to) + "],\"signature\":"@
        + json_quoted(t.signature) + ",\"pub_key\":"@ + json_quoted(t.pub_key) + "}"@
}

/// The canonical message a player signs: the match and the move, and nothing
/// else, with the exact field order `whitePlayer`, `blackPlayer`, `action`.
pub open spec fn sig_message_json(t: TxView) -> Seq<char> {
    "{\"whitePlayer\":"@ + json_quoted(t.white_player) + ",\"blackPlayer\":"@ + json_quoted(
        t.black_player,
    ) + ",\"action\":["@ + position_json(t.from) + ","@ + position_json(t.to) + "]}"@
}

/// The canonical JSON a block hash is computed over: the view number, the
/// previous block hash as `0x`-prefixed lowercase hexadecimal, and the
/// transaction. The timestamp, the hash itself and the certificate are
/// deliberately excluded.
pub open spec fn canonical_block_json(view_n: u32, prev: Seq<u8>, t: TxView) -> Seq<char> {
    "{\"view_n\":"@ + dec_digits(view_n as int) + ",\"previous_block_hash\":\"0x"@ + bytes_hex(prev)
        + "\",\"tx\":"@ + canonical_tx_json(t) + "}"@
}

/// Builds the canonical JSON of a transaction.
pub fn tx_canonical_chars(tx: &Transaction) -> (r: Vec<char>)
    ensures
        r@ == canonical_tx_json(tx@),
{
    let mut out: Vec<char> = Vec::new();
    push_str_chars(&mut out, "{\"white_player\":");
    push_json_quoted(&mut out, tx.white_player.as_str());
    push_str_chars(&mut out, ",\"black_player\":");
    push_json_quoted(&mut out, tx.black_player.as_str());
    push_str_chars(&mut out, ",\"action\":[");
    push_position_json(&mut out, &tx.action.0);
    push_str_chars(&mut out, ",");
    push_position_json(&mut out, &tx.action.1);
    push_str_chars(&mut out, "],\"signature\":");
    push_json_quoted(&mut out, tx.signature.as_str());
    push_str_chars(&mut out, ",\"pub_key\":");
    push_json_quoted(&mut out, tx.pub_key.as_str());
    push_str_chars(&mut out, "}");
    proof {
        assert(out@ =~= canonical_tx_json(tx@));
    }
    out
}

/// Builds the canonical message a player signs for a transaction.
pub fn sig_message_chars(tx: &Transaction) -> (r: Vec<char>)
    ensures
        r@ == sig_message_json(tx@),
{
    let mut out: Vec<char> = Vec::new();
    push_str_chars(&mut out, "{\"whitePlayer\":");
    push_json_quoted(&mut out, tx.white_player.as_str());
    push_str_chars(&mut out, ",\"blackPlayer\":");
    push_json_quoted(&mut out, tx.black_player.as_str());
    push_str_chars(&mut out, ",\"action\":[");
    push_position_json(&mut out, &tx.action.0);
    push_str_chars(&mut out, ",");
    push_position_json(&mut out, &tx.action.1);
    push_str_chars(&mut out, "]}");
    proof {
        assert(out@ =~= sig_message_json(tx@));
    }
    out
}

/// Builds the canonical JSON a block hash is computed over.
pub fn block_canonical_chars(view_n: u32, prev: &Hash256, tx: &Transaction) -> (r: Vec<char>)
    ensures
        r@ == canonical_block_json(view_n, prev@, tx@),
{
    let mut out: Vec<char> = Vec::new();
    push_str_chars(&mut out, "{\"view_n\":");
    push_u32_dec(&mut out, view_n);
    push_str_chars(&mut out, ",\"previous_block_hash\":\"0x");
    push_bytes_hex(&mut out, &prev.bytes);
    push_str_chars(&mut out, "\",\"tx\":");
    let tx_json = tx_canonical_chars(tx);
    push_char_vec(&mut out, &tx_json);
    push_str_chars(&mut out, "}");
    proof {
        assert(out@ =~= canonical_block_json(view_n, prev@, tx@));
    }
    out
}

/// The canonical message a player signs for a transaction, as a string.
pub fn signature_message(tx: &Transaction) -> (s: String)
    ensures
        s@ == sig_message_json(tx@),
{
    let chars = sig_message_chars(tx);
    crate::crypto::chars_to_string(&chars)
}

/// Appends an already built character sequence.
fn push_char_vec(out: &mut Vec<char>, piece: &Vec<char>)
    ensures
        final(out)@ == old(out)@ + piece@,
{
    let mut i: usize = 0;
    while i < piece.len()
        invariant
            i <= piece@.len(),
            out@ =~= old(out)@ + piece@.take(i as int),
        decreases piece@.len() - i,
    {
        out.push(*piece.get(i).unwrap());
        proof {
            assert(out@ =~= old(out)@ + piece@.take(i + 1));
        }
        i = i + 1;
    }
    proof {
        assert(out@ =~= old(out)@ + piece@);
    }
}

} // verus!
