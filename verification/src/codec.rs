//! The persistence codec: the store is saved as a UTF-8 JSON array of
//! objects with a single string field `title`, in display order, and
//! loaded back from the same form.
//!
//! The writer emits the compact shape `[{"title":"..."},...]`, escaping
//! `"` and `\` with a backslash, control characters with their short
//! escapes `\n`, `\t`, `\r`, `\b`, `\f` where one exists and as `\u00XX`
//! otherwise. The reader accepts the JSON grammar of that document:
//! insignificant whitespace (space, tab, carriage return, line feed)
//! between tokens and around the document, the short escapes and `\/`,
//! and `\uXXXX` escapes including surrogate pairs. A raw control
//! character inside a string, a lone surrogate, or anything outside the
//! grammar is a parse failure.

use vstd::prelude::*;
use crate::strutil::{push_char, char_from_u32};

verus! {

// ---------------------------------------------------------------------
// Whitespace and hexadecimal digits
// ---------------------------------------------------------------------

/// The insignificant whitespace characters of the grammar.
pub open spec fn is_ws(c: char) -> bool {
    c == ' ' || c == '\t' || c == '\n' || c == '\r'
}

/// The input with its leading whitespace removed.
pub open spec fn skip_ws(s: Seq<char>) -> Seq<char>
    decreases s.len(),
{
    if s.len() > 0 && is_ws(s[0]) {
        skip_ws(s.drop_first())
    } else {
        s
    }
}

/// Skipping whitespace never lengthens the input.
pub proof fn lemma_skip_ws_len(s: Seq<char>)
    ensures
        skip_ws(s).len() <= s.len(),
    decreases s.len(),
{
    if s.len() > 0 && is_ws(s[0]) {
        lemma_skip_ws_len(s.drop_first());
    }
}

/// On input that does not open with whitespace, skipping is the identity.
pub proof fn lemma_skip_ws_id(s: Seq<char>)
    requires
        s.len() == 0 || !is_ws(s[0]),
    ensures
        skip_ws(s) == s,
{
}

/// The lower-case hexadecimal digit for a value below sixteen.
pub open spec fn hex_digit(n: int) -> char {
    if n == 0 { '0' }
    else if n == 1 { '1' }
    else if n == 2 { '2' }
    else if n == 3 { '3' }
    else if n == 4 { '4' }
    else if n == 5 { '5' }
    else if n == 6 { '6' }
    else if n == 7 { '7' }
    else if n == 8 { '8' }
    else if n == 9 { '9' }
    else if n == 10 { 'a' }
    else if n == 11 { 'b' }
    else if n == 12 { 'c' }
    else if n == 13 { 'd' }
    else if n == 14 { 'e' }
    else { 'f' }
}

/// The value of one hexadecimal digit, either case.
pub open spec fn hexv(c: char) -> Option<int> {
    if c == '0' { Some(0int) }
    else if c == '1' { Some(1int) }
    else if c == '2' { Some(2int) }
    else if c == '3' { Some(3int) }
    else if c == '4' { Some(4int) }
    else if c == '5' { Some(5int) }
    else if c == '6' { Some(6int) }
    else if c == '7' { Some(7int) }
    else if c == '8' { Some(8int) }
    else if c == '9' { Some(9int) }
    else if c == 'a' || c == 'A' { Some(10int) }
    else if c == 'b' || c == 'B' { Some(11int) }
    else if c == 'c' || c == 'C' { Some(12int) }
    else if c == 'd' || c == 'D' { Some(13int) }
    else if c == 'e' || c == 'E' { Some(14int) }
    else if c == 'f' || c == 'F' { Some(15int) }
    else { None }
}

/// Reading back an emitted hexadecimal digit yields its value.
pub proof fn lemma_hexv_digit(n: int)
    requires
        0 <= n < 16,
    ensures
        hexv(hex_digit(n)) == Some(n),
{
}

// ---------------------------------------------------------------------
// The writer
// ---------------------------------------------------------------------

/// How one title character is written inside a JSON string: `"` and `\`
/// get a leading backslash, control characters their short escape where
/// one exists and `\u00XX` otherwise, every other character stands as
/// itself.
pub open spec fn esc_char(c: char) -> Seq<char> {
    if c == '"' { seq!['\\', '"'] }
    else if c == '\\' { seq!['\\', '\\'] }
    else if c == '\n' { seq!['\\', 'n'] }
    else if c == '\t' { seq!['\\', 't'] }
    else if c == '\r' { seq!['\\', 'r'] }
    else if c == '\u{0008}' { seq!['\\', 'b'] }
    else if c == '\u{000C}' { seq!['\\', 'f'] }
    else if (c as u32) < 0x20 {
        seq!['\\', 'u', '0', '0', hex_digit((c as u32) as int / 16), hex_digit((c as u32) as int % 16)]
    } else {
        seq![c]
    }
}

/// A title written as the body of a JSON string (without the quotes).
pub open spec fn enc_title(t: Seq<char>) -> Seq<char>
    decreases t.len(),
{
    if t.len() == 0 {
        Seq::empty()
    } else {
        esc_char(t[0]) + enc_title(t.drop_first())
    }
}

/// The compact object prefix the writer emits for every item: `{"title":"`.
pub open spec fn item_prefix() -> Seq<char> {
    seq!['{', '"', 't', 'i', 't', 'l', 'e', '"', ':', '"']
}

/// The quoted key every item object carries: `"title"`.
pub open spec fn title_key() -> Seq<char> {
    seq!['"', 't', 'i', 't', 'l', 'e', '"']
}

/// One item written as a JSON object with its single `title` field.
pub open spec fn enc_item(t: Seq<char>) -> Seq<char> {
    item_prefix() + enc_title(t) + seq!['"', '}']
}

/// A non-empty run of items, separated by commas.
pub open spec fn enc_items(ts: Seq<Seq<char>>) -> Seq<char>
    decreases ts.len(),
{
    if ts.len() == 0 {
        Seq::empty()
    } else if ts.len() == 1 {
        enc_item(ts[0])
    } else {
        enc_item(ts[0]) + seq![','] + enc_items(ts.drop_first())
    }
}

/// The whole store written as a JSON array, in display order.
pub open spec fn enc_store(ts: Seq<Seq<char>>) -> Seq<char> {
    seq!['['] + enc_items(ts) + seq![']']
}

// ---------------------------------------------------------------------
// The reader
// ---------------------------------------------------------------------

/// The character a short backslash escape stands for, if it is one.
pub open spec fn unesc(c: char) -> Option<char> {
    match c {
        '"' => Some('"'),
        '\\' => Some('\\'),
        '/' => Some('/'),
        'n' => Some('\n'),
        't' => Some('\t'),
        'r' => Some('\r'),
        'b' => Some('\u{0008}'),
        'f' => Some('\u{000C}'),
        _ => None,
    }
}

/// The value of four hexadecimal digits of the input starting at `i`.
pub open spec fn hex4(s: Seq<char>, i: int) -> Option<int> {
    if hexv(s[i]) is Some && hexv(s[i + 1]) is Some && hexv(s[i + 2]) is Some && hexv(
        s[i + 3],
    ) is Some {
        Some(
            hexv(s[i])->Some_0 * 4096 + hexv(s[i + 1])->Some_0 * 256 + hexv(s[i + 2])->Some_0 * 16
                + hexv(s[i + 3])->Some_0,
        )
    } else {
        None
    }
}

/// Reads one `\uXXXX` escape standing at the head of the input — two
/// of them for a surrogate pair — and yields the character it denotes
/// and the rest of the input. A lone surrogate is refused.
pub open spec fn parse_u_escape(s: Seq<char>) -> Option<(char, Seq<char>)> {
    if s.len() >= 6 && s[0] == '\\' && s[1] == 'u' && hex4(s, 2) is Some {
        let v = hex4(s, 2)->Some_0;
        if 0xD800 <= v < 0xDC00 {
            if s.len() >= 12 && s[6] == '\\' && s[7] == 'u' && hex4(s, 8) is Some {
                let w = hex4(s, 8)->Some_0;
                if 0xDC00 <= w < 0xE000 {
                    Some((((0x10000 + (v - 0xD800) * 0x400 + (w - 0xDC00)) as u32) as char, s.skip(12)))
                } else {
                    None
                }
            } else {
                None
            }
        } else if 0xDC00 <= v < 0xE000 {
            None
        } else {
            Some(((v as u32) as char, s.skip(6)))
        }
    } else {
        None
    }
}

/// A read escape consumes at least its six characters.
pub proof fn lemma_parse_u_escape_shrinks(s: Seq<char>)
    ensures
        parse_u_escape(s) matches Some((c, r)) ==> r.len() + 6 <= s.len(),
{
}

/// Reads a JSON string body up to and over its closing quote. Yields the
/// title read and the rest of the input after the quote, or `None` when
/// the input ends before the quote, holds an unaccepted escape, or holds
/// a raw control character.
pub open spec fn parse_title(s: Seq<char>) -> Option<(Seq<char>, Seq<char>)>
    decreases s.len(),
{
    if s.len() == 0 {
        None
    } else if s[0] == '"' {
        Some((Seq::empty(), s.drop_first()))
    } else if s[0] == '\\' {
        if s.len() >= 2 && s[1] == 'u' {
            proof {
                lemma_parse_u_escape_shrinks(s);
            }
            match parse_u_escape(s) {
                Some((c, r)) => match parse_title(r) {
                    Some((t, r2)) => Some((seq![c] + t, r2)),
                    None => None,
                },
                None => None,
            }
        } else if s.len() >= 2 && unesc(s[1]) is Some {
            match parse_title(s.skip(2)) {
                Some((t, r)) => Some((seq![unesc(s[1])->Some_0] + t, r)),
                None => None,
            }
        } else {
            None
        }
    } else if (s[0] as u32) >= 0x20 {
        match parse_title(s.drop_first()) {
            Some((t, r)) => Some((seq![s[0]] + t, r)),
            None => None,
        }
    } else {
        None
    }
}

/// A successful string-body parse consumes at least its closing quote.
pub proof fn lemma_parse_title_shrinks(s: Seq<char>)
    ensures
        parse_title(s) matches Some((t, r)) ==> r.len() < s.len(),
    decreases s.len(),
{
    if s.len() == 0 {
    } else if s[0] == '"' {
    } else if s[0] == '\\' {
        if s.len() >= 2 && s[1] == 'u' {
            lemma_parse_u_escape_shrinks(s);
            match parse_u_escape(s) {
                Some((c, r)) => {
                    lemma_parse_title_shrinks(r);
                },
                None => {},
            }
        } else if s.len() >= 2 && unesc(s[1]) is Some {
            lemma_parse_title_shrinks(s.skip(2));
        }
    } else if (s[0] as u32) >= 0x20 {
        lemma_parse_title_shrinks(s.drop_first());
    }
}

/// Reads one item object — a brace, the `"title"` key, a colon, the
/// quoted string, a closing brace, with whitespace permitted between the
/// tokens. Yields the title and the rest of the input after the brace.
pub open spec fn parse_item(s: Seq<char>) -> Option<(Seq<char>, Seq<char>)> {
    if s.len() >= 1 && s[0] == '{' {
        let s1 = skip_ws(s.drop_first());
        if s1.len() >= 7 && s1.take(7) == title_key() {
            let s2 = skip_ws(s1.skip(7));
            if s2.len() >= 1 && s2[0] == ':' {
                let s3 = skip_ws(s2.drop_first());
                if s3.len() >= 1 && s3[0] == '"' {
                    match parse_title(s3.drop_first()) {
                        Some((t, r)) => {
                            let r1 = skip_ws(r);
                            if r1.len() >= 1 && r1[0] == '}' {
                                Some((t, r1.drop_first()))
                            } else {
                                None
                            }
                        },
                        None => None,
                    }
                } else {
                    None
                }
            } else {
                None
            }
        } else {
            None
        }
    } else {
        None
    }
}

/// A successful item parse consumes at least one character.
pub proof fn lemma_parse_item_shrinks(s: Seq<char>)
    ensures
        parse_item(s) matches Some((t, r)) ==> r.len() < s.len(),
{
    if s.len() >= 1 && s[0] == '{' {
        lemma_skip_ws_len(s.drop_first());
        let s1 = skip_ws(s.drop_first());
        if s1.len() >= 7 && s1.take(7) == title_key() {
            lemma_skip_ws_len(s1.skip(7));
            let s2 = skip_ws(s1.skip(7));
            if s2.len() >= 1 && s2[0] == ':' {
                lemma_skip_ws_len(s2.drop_first());
                let s3 = skip_ws(s2.drop_first());
                if s3.len() >= 1 && s3[0] == '"' {
                    lemma_parse_title_shrinks(s3.drop_first());
                    match parse_title(s3.drop_first()) {
                        Some((t, r)) => {
                            lemma_skip_ws_len(r);
                        },
                        None => {},
                    }
                }
            }
        }
    }
}

/// Reads a non-empty comma-separated run of items up to and over the
/// closing bracket of the array, whitespace permitted around the
/// separators. The input starts at the first item's opening brace.
pub open spec fn parse_items(s: Seq<char>) -> Option<(Seq<Seq<char>>, Seq<char>)>
    decreases s.len(),
{
    match parse_item(s) {
        Some((t, r)) => {
            let r1 = skip_ws(r);
            if r1.len() >= 1 && r1[0] == ',' {
                proof {
                    lemma_parse_item_shrinks(s);
                    lemma_skip_ws_len(r);
                    lemma_skip_ws_len(r1.drop_first());
                }
                match parse_items(skip_ws(r1.drop_first())) {
                    Some((ts, r2)) => Some((seq![t] + ts, r2)),
                    None => None,
                }
            } else if r1.len() >= 1 && r1[0] == ']' {
                Some((seq![t], r1.drop_first()))
            } else {
                None
            }
        },
        None => None,
    }
}

/// Reads a whole persisted store: a JSON array of item objects, with
/// nothing but whitespace around the document and between its tokens.
pub open spec fn parse_store(s: Seq<char>) -> Option<Seq<Seq<char>>> {
    let s0 = skip_ws(s);
    if s0.len() >= 1 && s0[0] == '[' {
        let s1 = skip_ws(s0.drop_first());
        if s1.len() >= 1 && s1[0] == ']' {
            if skip_ws(s1.drop_first()).len() == 0 {
                Some(Seq::empty())
            } else {
                None
            }
        } else {
            match parse_items(s1) {
                Some((ts, rest)) => if skip_ws(rest).len() == 0 {
                    Some(ts)
                } else {
                    None
                },
                None => None,
            }
        }
    } else {
        None
    }
}

// ---------------------------------------------------------------------
// Round trip
// ---------------------------------------------------------------------

/// Reading back an encoded string body yields the title it was made of
/// and leaves exactly what followed the closing quote.
proof fn lemma_title_round_trip(t: Seq<char>, rest: Seq<char>)
    ensures
        parse_title(enc_title(t) + seq!['"'] + rest) == Some((t, rest)),
    decreases t.len(),
{
    let s = enc_title(t) + seq!['"'] + rest;
    if t.len() == 0 {
        assert(s =~= seq!['"'] + rest);
        assert(s.drop_first() =~= rest);
        assert(t =~= Seq::<char>::empty());
    } else {
        let c = t[0];
        let dt = t.drop_first();
        let tail = enc_title(dt) + seq!['"'] + rest;
        lemma_title_round_trip(dt, rest);
        if c == '"' || c == '\\' || c == '\n' || c == '\t' || c == '\r' || c == '\u{0008}'
            || c == '\u{000C}' {
            let e = esc_char(c)[1];
            assert(esc_char(c) =~= seq!['\\', e]);
            assert(e != 'u' && unesc(e) == Some(c));
            assert(s =~= seq!['\\', e] + tail);
            assert(s.skip(2) =~= tail);
            assert(seq![c] + dt =~= t);
        } else if (c as u32) < 0x20 {
            let code = (c as u32) as int;
            let hi = code / 16;
            let lo = code % 16;
            assert(esc_char(c) =~= seq!['\\', 'u', '0', '0', hex_digit(hi), hex_digit(lo)]);
            assert(s =~= seq!['\\', 'u', '0', '0', hex_digit(hi), hex_digit(lo)] + tail);
            lemma_hexv_digit(hi);
            lemma_hexv_digit(lo);
            assert(hex4(s, 2) == Some(hi * 16 + lo));
            assert(hi * 16 + lo == code);
            assert(0 <= code < 0x20);
            vstd::utf8::char_u32_cast(c, c as u32);
            assert(((code as u32) as char) == c);
            assert(s.skip(6) =~= tail);
            assert(parse_u_escape(s) == Some((c, tail)));
            assert(seq![c] + dt =~= t);
        } else {
            assert(esc_char(c) =~= seq![c]);
            assert(s =~= seq![c] + tail);
            assert(s.drop_first() =~= tail);
            assert(seq![c] + dt =~= t);
        }
    }
}

/// Reading back an encoded item yields its title and leaves exactly what
/// followed the closing brace. The compact form holds no whitespace, so
/// every whitespace skip inside the item parse is the identity.
proof fn lemma_item_round_trip(t: Seq<char>, rest: Seq<char>)
    ensures
        parse_item(enc_item(t) + rest) == Some((t, rest)),
{
    let s = enc_item(t) + rest;
    assert(s[0] == '{');
    let a = title_key() + seq![':', '"'] + enc_title(t) + seq!['"', '}'] + rest;
    assert(s.drop_first() =~= a);
    lemma_skip_ws_id(a);
    assert(a.take(7) =~= title_key());
    let b = seq![':', '"'] + enc_title(t) + seq!['"', '}'] + rest;
    assert(a.skip(7) =~= b);
    lemma_skip_ws_id(b);
    assert(b[0] == ':');
    let d = seq!['"'] + enc_title(t) + seq!['"', '}'] + rest;
    assert(b.drop_first() =~= d);
    lemma_skip_ws_id(d);
    assert(d[0] == '"');
    assert(d.drop_first() =~= enc_title(t) + seq!['"'] + (seq!['}'] + rest));
    lemma_title_round_trip(t, seq!['}'] + rest);
    let r = seq!['}'] + rest;
    lemma_skip_ws_id(r);
    assert(r[0] == '}');
    assert(r.drop_first() =~= rest);
}

/// Reading back an encoded run of items yields the titles it was made of.
proof fn lemma_items_round_trip(ts: Seq<Seq<char>>, rest: Seq<char>)
    requires
        ts.len() >= 1,
    ensures
        parse_items(enc_items(ts) + seq![']'] + rest) == Some((ts, rest)),
    decreases ts.len(),
{
    let s = enc_items(ts) + seq![']'] + rest;
    if ts.len() == 1 {
        assert(s =~= enc_item(ts[0]) + (seq![']'] + rest));
        lemma_item_round_trip(ts[0], seq![']'] + rest);
        let r = seq![']'] + rest;
        lemma_skip_ws_id(r);
        assert(r[0] == ']');
        assert(r.drop_first() =~= rest);
        assert(seq![ts[0]] =~= ts);
    } else {
        let dt = ts.drop_first();
        let tail = seq![','] + enc_items(dt) + seq![']'] + rest;
        assert(s =~= enc_item(ts[0]) + tail);
        lemma_item_round_trip(ts[0], tail);
        lemma_skip_ws_id(tail);
        assert(tail[0] == ',');
        lemma_enc_items_first(dt);
        let next = enc_items(dt) + seq![']'] + rest;
        assert(tail.drop_first() =~= next);
        lemma_skip_ws_id(next);
        lemma_items_round_trip(dt, rest);
        assert(seq![ts[0]] + dt =~= ts);
    }
}

/// A non-empty run of encoded items starts with the object brace, never
/// with whitespace or the closing bracket of the array.
proof fn lemma_enc_items_first(ts: Seq<Seq<char>>)
    requires
        ts.len() >= 1,
    ensures
        enc_items(ts).len() >= 1,
        enc_items(ts)[0] == '{',
{
    assert(enc_item(ts[0])[0] == '{');
}

/// Round trip: reading back an encoded store yields an equal ordered
/// sequence of titles, whatever the titles hold.
pub proof fn lemma_store_round_trip(ts: Seq<Seq<char>>)
    ensures
        parse_store(enc_store(ts)) == Some(ts),
{
    let s = enc_store(ts);
    assert(s[0] == '[');
    lemma_skip_ws_id(s);
    let r = s.drop_first();
    assert(r =~= enc_items(ts) + seq![']']);
    if ts.len() == 0 {
        assert(r =~= seq![']']);
        lemma_skip_ws_id(r);
        assert(r.drop_first() =~= Seq::<char>::empty());
        lemma_skip_ws_id(Seq::<char>::empty());
        assert(ts =~= Seq::<Seq<char>>::empty());
    } else {
        lemma_enc_items_first(ts);
        assert(r[0] == '{');
        lemma_skip_ws_id(r);
        assert(r =~= enc_items(ts) + seq![']'] + Seq::<char>::empty());
        lemma_items_round_trip(ts, Seq::empty());
        lemma_skip_ws_id(Seq::<char>::empty());
    }
}

// ---------------------------------------------------------------------
// The executable writer
// ---------------------------------------------------------------------

/// Writing one more title character extends the encoding of the body.
proof fn lemma_enc_title_snoc(t: Seq<char>, c: char)
    ensures
        enc_title(t.push(c)) == enc_title(t) + esc_char(c),
    decreases t.len(),
{
    let p = t.push(c);
    assert(p.len() == t.len() + 1);
    if t.len() == 0 {
        assert(p[0] == c);
        assert(p.drop_first() =~= Seq::<char>::empty());
        assert(enc_title(p) == esc_char(c) + enc_title(Seq::<char>::empty()));
        assert(enc_title(p) =~= enc_title(t) + esc_char(c));
    } else {
        assert(p[0] == t[0]);
        assert(p.drop_first() =~= t.drop_first().push(c));
        lemma_enc_title_snoc(t.drop_first(), c);
        assert(enc_title(p) == esc_char(t[0]) + (enc_title(t.drop_first()) + esc_char(c)));
        assert(enc_title(t) == esc_char(t[0]) + enc_title(t.drop_first()));
        assert(enc_title(p) =~= enc_title(t) + esc_char(c));
    }
}

/// Appending one more item to a non-empty run adds a comma and the item.
proof fn lemma_enc_items_snoc(ts: Seq<Seq<char>>, t: Seq<char>)
    requires
        ts.len() >= 1,
    ensures
        enc_items(ts.push(t)) == enc_items(ts) + seq![','] + enc_item(t),
    decreases ts.len(),
{
    let p = ts.push(t);
    assert(p.len() == ts.len() + 1);
    assert(p[0] == ts[0]);
    if ts.len() == 1 {
        assert(p.drop_first() =~= seq![t]);
        assert(enc_items(seq![t]) == enc_item(t));
        assert(enc_items(p) == enc_item(ts[0]) + seq![','] + enc_item(t));
        assert(enc_items(ts) == enc_item(ts[0]));
        assert(enc_items(p) =~= enc_items(ts) + seq![','] + enc_item(t));
    } else {
        assert(p.drop_first() =~= ts.drop_first().push(t));
        lemma_enc_items_snoc(ts.drop_first(), t);
        assert(enc_items(p) == enc_item(ts[0]) + seq![','] + (enc_items(ts.drop_first())
            + seq![','] + enc_item(t)));
        assert(enc_items(ts) == enc_item(ts[0]) + seq![','] + enc_items(ts.drop_first()));
        assert(enc_items(p) =~= enc_items(ts) + seq![','] + enc_item(t));
    }
}

/// The lower-case hexadecimal digit for a value below sixteen.
fn hex_digit_char(n: u32) -> (r: char)
    requires
        n < 16,
    ensures
        r == hex_digit(n as int),
{
    if n == 0 { '0' }
    else if n == 1 { '1' }
    else if n == 2 { '2' }
    else if n == 3 { '3' }
    else if n == 4 { '4' }
    else if n == 5 { '5' }
    else if n == 6 { '6' }
    else if n == 7 { '7' }
    else if n == 8 { '8' }
    else if n == 9 { '9' }
    else if n == 10 { 'a' }
    else if n == 11 { 'b' }
    else if n == 12 { 'c' }
    else if n == 13 { 'd' }
    else if n == 14 { 'e' }
    else { 'f' }
}

/// Writes one title character at the end of `out`, in its escaped form.
fn push_escaped(out: &mut String, c: char)
    ensures
        final(out)@ == old(out)@ + esc_char(c),
{
    if c == '"' {
        push_char(out, '\\');
        push_char(out, '"');
    } else if c == '\\' {
        push_char(out, '\\');
        push_char(out, '\\');
    } else if c == '\n' {
        push_char(out, '\\');
        push_char(out, 'n');
    } else if c == '\t' {
        push_char(out, '\\');
        push_char(out, 't');
    } else if c == '\r' {
        push_char(out, '\\');
        push_char(out, 'r');
    } else if c == '\u{0008}' {
        push_char(out, '\\');
        push_char(out, 'b');
    } else if c == '\u{000C}' {
        push_char(out, '\\');
        push_char(out, 'f');
    } else {
        let code = c as u32;
        if code < 0x20 {
            push_char(out, '\\');
            push_char(out, 'u');
            push_char(out, '0');
            push_char(out, '0');
            push_char(out, hex_digit_char(code / 16));
            push_char(out, hex_digit_char(code % 16));
        } else {
            push_char(out, c);
        }
    }
    proof {
        assert(out@ =~= old(out)@ + esc_char(c));
    }
}

/// Writes one encoded item object at the end of `out`.
fn encode_item_into(out: &mut String, t: &str)
    ensures
        final(out)@ == old(out)@ + enc_item(t@),
{
    let base = Ghost(out@);
    push_char(out, '{');
    push_char(out, '"');
    push_char(out, 't');
    push_char(out, 'i');
    push_char(out, 't');
    push_char(out, 'l');
    push_char(out, 'e');
    push_char(out, '"');
    push_char(out, ':');
    push_char(out, '"');
    proof {
        assert(out@ =~= base@ + item_prefix());
    }
    let n = t.unicode_len();
    let mut i: usize = 0;
    while i < n
        invariant
            n == t@.len(),
            i <= n,
            out@ == base@ + item_prefix() + enc_title(t@.take(i as int)),
        decreases n - i,
    {
        push_escaped(out, t.get_char(i));
        proof {
            assert(t@.take(i + 1 as int) =~= t@.take(i as int).push(t@[i as int]));
            lemma_enc_title_snoc(t@.take(i as int), t@[i as int]);
            assert(out@ =~= base@ + item_prefix() + enc_title(t@.take(i + 1 as int)));
        }
        i = i + 1;
    }
    push_char(out, '"');
    push_char(out, '}');
    proof {
        assert(t@.take(n as int) =~= t@);
        assert(out@ =~= base@ + enc_item(t@));
    }
}

/// Writes the whole store in its persisted form, in display order.
pub fn encode(titles: &Vec<String>) -> (r: String)
    ensures
        r@ == enc_store(titles.deep_view()),
{
    let ghost dv = titles.deep_view();
    let mut out = String::new();
    push_char(&mut out, '[');
    let n = titles.len();
    let mut j: usize = 0;
    while j < n
        invariant
            dv == titles.deep_view(),
            n == titles@.len(),
            j <= n,
            out@ == seq!['['] + enc_items(dv.take(j as int)),
        decreases n - j,
    {
        proof {
            assert(dv.len() == n);
            assert(dv[j as int] == titles@[j as int]@);
        }
        if j > 0 {
            push_char(&mut out, ',');
        }
        encode_item_into(&mut out, titles[j].as_str());
        proof {
            assert(dv.take(j + 1 as int) =~= dv.take(j as int).push(dv[j as int]));
            if j == 0 {
                assert(dv.take(1int) =~= seq![dv[0int]]);
                assert(out@ =~= seq!['['] + enc_items(dv.take(1int)));
            } else {
                lemma_enc_items_snoc(dv.take(j as int), dv[j as int]);
                assert(out@ =~= seq!['['] + enc_items(dv.take(j + 1 as int)));
            }
        }
        j = j + 1;
    }
    push_char(&mut out, ']');
    proof {
        assert(dv.take(n as int) =~= dv);
        assert(out@ =~= enc_store(dv));
    }
    out
}

// ---------------------------------------------------------------------
// The executable reader
// ---------------------------------------------------------------------

/// The input with its leading whitespace removed.
fn ws_trim<'a>(s: &'a str) -> (r: &'a str)
    ensures
        r@ == skip_ws(s@),
    decreases s@.len(),
{
    let n = s.unicode_len();
    if n == 0 {
        return s;
    }
    let c = s.get_char(0);
    if c == ' ' || c == '\t' || c == '\n' || c == '\r' {
        let tail = s.substring_char(1, n);
        proof {
            assert(tail@ =~= s@.drop_first());
        }
        ws_trim(tail)
    } else {
        s
    }
}

/// The value of one hexadecimal digit, either case.
fn hexval(c: char) -> (r: Option<u32>)
    ensures
        r is Some <==> hexv(c) is Some,
        r matches Some(v) ==> hexv(c) == Some(v as int) && v < 16,
{
    match c {
        '0' => Some(0),
        '1' => Some(1),
        '2' => Some(2),
        '3' => Some(3),
        '4' => Some(4),
        '5' => Some(5),
        '6' => Some(6),
        '7' => Some(7),
        '8' => Some(8),
        '9' => Some(9),
        'a' | 'A' => Some(10),
        'b' | 'B' => Some(11),
        'c' | 'C' => Some(12),
        'd' | 'D' => Some(13),
        'e' | 'E' => Some(14),
        'f' | 'F' => Some(15),
        _ => None,
    }
}

/// The character a short backslash escape stands for.
fn unescape_char(c: char) -> (r: Option<char>)
    ensures
        r == unesc(c),
{
    match c {
        '"' => Some('"'),
        '\\' => Some('\\'),
        '/' => Some('/'),
        'n' => Some('\n'),
        't' => Some('\t'),
        'r' => Some('\r'),
        'b' => Some('\u{0008}'),
        'f' => Some('\u{000C}'),
        _ => None,
    }
}

/// Reads the four hexadecimal digits of the input starting at `i`.
fn hex4val(s: &str, n: usize, i: usize) -> (r: Option<u32>)
    requires
        n == s@.len(),
        i + 4 <= n,
    ensures
        r is Some <==> hex4(s@, i as int) is Some,
        r matches Some(v) ==> hex4(s@, i as int) == Some(v as int) && v <= 0xFFFF,
{
    let h0 = hexval(s.get_char(i));
    let h1 = hexval(s.get_char(i + 1));
    let h2 = hexval(s.get_char(i + 2));
    let h3 = hexval(s.get_char(i + 3));
    match (h0, h1, h2, h3) {
        (Some(a), Some(b), Some(c), Some(d)) => Some(a * 4096 + b * 256 + c * 16 + d),
        _ => None,
    }
}

/// Reads one `\uXXXX` escape (two for a surrogate pair) standing at the
/// head of the input.
fn p_u_escape<'a>(s: &'a str, n: usize) -> (r: Option<(char, &'a str)>)
    requires
        n == s@.len(),
        n >= 2,
        s@[0] == '\\',
        s@[1] == 'u',
    ensures
        (r matches Some(p) ==> parse_u_escape(s@) == Some((p.0, p.1@))),
        (r is None ==> parse_u_escape(s@) is None),
{
    if n < 6 {
        return None;
    }
    let v = match hex4val(s, n, 2) {
        Some(v) => v,
        None => {
            return None;
        },
    };
    if 0xD800 <= v && v < 0xDC00 {
        if n < 12 || s.get_char(6) != '\\' || s.get_char(7) != 'u' {
            return None;
        }
        let w = match hex4val(s, n, 8) {
            Some(w) => w,
            None => {
                return None;
            },
        };
        if 0xDC00 <= w && w < 0xE000 {
            let code: u32 = 0x10000 + (v - 0xD800) * 0x400 + (w - 0xDC00);
            match char_from_u32(code) {
                Some(c) => {
                    let rest = s.substring_char(12, n);
                    proof {
                        assert(rest@ =~= s@.skip(12));
                        vstd::utf8::char_u32_cast(c, code);
                    }
                    Some((c, rest))
                },
                None => None,
            }
        } else {
            None
        }
    } else if 0xDC00 <= v && v < 0xE000 {
        None
    } else {
        match char_from_u32(v) {
            Some(c) => {
                let rest = s.substring_char(6, n);
                proof {
                    assert(rest@ =~= s@.skip(6));
                    vstd::utf8::char_u32_cast(c, v);
                }
                Some((c, rest))
            },
            None => None,
        }
    }
}

/// Reads a JSON string body up to and over its closing quote.
fn p_title<'a>(s: &'a str) -> (r: Option<(String, &'a str)>)
    ensures
        (r matches Some(p) ==> parse_title(s@) == Some((p.0@, p.1@))),
        (r is None ==> parse_title(s@) is None),
    decreases s@.len(),
{
    let n = s.unicode_len();
    if n == 0 {
        return None;
    }
    let c = s.get_char(0);
    if c == '"' {
        let rem = s.substring_char(1, n);
        proof {
            assert(rem@ =~= s@.drop_first());
        }
        Some((String::new(), rem))
    } else if c == '\\' {
        if n < 2 {
            return None;
        }
        let e = s.get_char(1);
        if e == 'u' {
            match p_u_escape(s, n) {
                None => None,
                Some((uc, rest)) => {
                    proof {
                        lemma_parse_u_escape_shrinks(s@);
                    }
                    match p_title(rest) {
                        None => None,
                        Some((t, rem)) => {
                            let mut head = String::new();
                            push_char(&mut head, uc);
                            head.append(t.as_str());
                            proof {
                                assert(head@ =~= seq![uc] + t@);
                            }
                            Some((head, rem))
                        },
                    }
                },
            }
        } else {
            match unescape_char(e) {
                None => None,
                Some(uc) => {
                    let tail = s.substring_char(2, n);
                    proof {
                        assert(tail@ =~= s@.skip(2));
                    }
                    match p_title(tail) {
                        None => None,
                        Some((t, rem)) => {
                            let mut head = String::new();
                            push_char(&mut head, uc);
                            head.append(t.as_str());
                            proof {
                                assert(head@ =~= seq![uc] + t@);
                            }
                            Some((head, rem))
                        },
                    }
                },
            }
        }
    } else if (c as u32) >= 0x20 {
        let tail = s.substring_char(1, n);
        proof {
            assert(tail@ =~= s@.drop_first());
        }
        match p_title(tail) {
            None => None,
            Some((t, rem)) => {
                let mut head = String::new();
                push_char(&mut head, c);
                head.append(t.as_str());
                proof {
                    assert(head@ =~= seq![c] + t@);
                }
                Some((head, rem))
            },
        }
    } else {
        None
    }
}

/// Tests whether the input opens with the quoted `"title"` key.
fn has_title_key(s: &str, n: usize) -> (r: bool)
    requires
        n == s@.len(),
    ensures
        r == (s@.len() >= 7 && s@.take(7) == title_key()),
{
    if n < 7 {
        return false;
    }
    let ok = s.get_char(0) == '"' && s.get_char(1) == 't' && s.get_char(2) == 'i'
        && s.get_char(3) == 't' && s.get_char(4) == 'l' && s.get_char(5) == 'e'
        && s.get_char(6) == '"';
    proof {
        if ok {
            assert(s@.take(7) =~= title_key());
        } else {
            assert(s@.take(7) != title_key()) by {
                if s@.take(7) == title_key() {
                    assert(forall|k: int| 0 <= k < 7 ==> s@.take(7)[k] == s@[k]);
                }
            }
        }
    }
    ok
}

/// Reads one item object up to and over its closing brace.
fn p_item<'a>(s: &'a str) -> (r: Option<(String, &'a str)>)
    ensures
        (r matches Some(p) ==> parse_item(s@) == Some((p.0@, p.1@))),
        (r is None ==> parse_item(s@) is None),
{
    let n = s.unicode_len();
    if n < 1 || s.get_char(0) != '{' {
        return None;
    }
    let sub1 = s.substring_char(1, n);
    proof {
        assert(sub1@ =~= s@.drop_first());
    }
    let s1 = ws_trim(sub1);
    let n1 = s1.unicode_len();
    if !has_title_key(s1, n1) {
        return None;
    }
    let sub2 = s1.substring_char(7, n1);
    proof {
        assert(sub2@ =~= s1@.skip(7));
    }
    let s2 = ws_trim(sub2);
    let n2 = s2.unicode_len();
    if n2 < 1 || s2.get_char(0) != ':' {
        return None;
    }
    let sub3 = s2.substring_char(1, n2);
    proof {
        assert(sub3@ =~= s2@.drop_first());
    }
    let s3 = ws_trim(sub3);
    let n3 = s3.unicode_len();
    if n3 < 1 || s3.get_char(0) != '"' {
        return None;
    }
    let body = s3.substring_char(1, n3);
    proof {
        assert(body@ =~= s3@.drop_first());
    }
    match p_title(body) {
        None => None,
        Some((t, rem)) => {
            let r1 = ws_trim(rem);
            let m = r1.unicode_len();
            if m >= 1 && r1.get_char(0) == '}' {
                let after = r1.substring_char(1, m);
                proof {
                    assert(after@ =~= r1@.drop_first());
                }
                Some((t, after))
            } else {
                None
            }
        },
    }
}

/// Reads a non-empty run of item objects up to and over the closing
/// bracket of the array.
fn p_items<'a>(s: &'a str) -> (r: Option<(Vec<String>, &'a str)>)
    ensures
        (r matches Some(p) ==> parse_items(s@) == Some((p.0.deep_view(), p.1@))),
        (r is None ==> parse_items(s@) is None),
    decreases s@.len(),
{
    match p_item(s) {
        None => None,
        Some((t, rem)) => {
            let r1 = ws_trim(rem);
            let m = r1.unicode_len();
            if m >= 1 && r1.get_char(0) == ',' {
                let sub = r1.substring_char(1, m);
                proof {
                    assert(sub@ =~= r1@.drop_first());
                }
                let tail = ws_trim(sub);
                proof {
                    lemma_parse_item_shrinks(s@);
                    lemma_skip_ws_len(rem@);
                    lemma_skip_ws_len(sub@);
                }
                match p_items(tail) {
                    None => None,
                    Some((ts, rem2)) => {
                        let ghost tsdv = ts.deep_view();
                        let mut v = ts;
                        v.insert(0, t);
                        proof {
                            assert(v.deep_view() =~= seq![t@] + tsdv);
                        }
                        Some((v, rem2))
                    },
                }
            } else if m >= 1 && r1.get_char(0) == ']' {
                let after = r1.substring_char(1, m);
                let mut v: Vec<String> = Vec::new();
                v.push(t);
                proof {
                    assert(after@ =~= r1@.drop_first());
                    assert(v.deep_view() =~= seq![t@]);
                }
                Some((v, after))
            } else {
                None
            }
        },
    }
}

/// Reads a whole persisted store; `None` on any input outside the
/// grammar.
pub fn parse(s: &str) -> (r: Option<Vec<String>>)
    ensures
        (r matches Some(v) ==> parse_store(s@) == Some(v.deep_view())),
        (r is None ==> parse_store(s@) is None),
{
    let s0 = ws_trim(s);
    let n = s0.unicode_len();
    if n < 1 || s0.get_char(0) != '[' {
        return None;
    }
    let sub = s0.substring_char(1, n);
    proof {
        assert(sub@ =~= s0@.drop_first());
    }
    let s1 = ws_trim(sub);
    let m = s1.unicode_len();
    if m >= 1 && s1.get_char(0) == ']' {
        let after = s1.substring_char(1, m);
        proof {
            assert(after@ =~= s1@.drop_first());
        }
        let t = ws_trim(after);
        if t.unicode_len() == 0 {
            let v: Vec<String> = Vec::new();
            proof {
                assert(v.deep_view() =~= Seq::<Seq<char>>::empty());
            }
            Some(v)
        } else {
            None
        }
    } else {
        match p_items(s1) {
            None => None,
            Some((ts, rem)) => {
                if ws_trim(rem).unicode_len() == 0 {
                    Some(ts)
                } else {
                    None
                }
            },
        }
    }
}

} // verus!
