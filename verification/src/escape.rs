//! Escaping and parsing of quoted strings, shared by the wire codec and the
//! state file: `"` and `\` are escaped with a backslash, the common control
//! characters get their short escapes, and any other control character is
//! written as `\u00XX`.  Parsing accepts everything escaping produces, plus
//! the `/`, `\b`, `\f` and general `\uXXXX` escapes.

use vstd::prelude::*;

verus! {

use crate::strutil::char_from_u32;
use crate::strutil::from_chars;
use crate::strutil::push_char;
use crate::strutil::to_chars;

/// True for an ASCII hexadecimal digit.
pub open spec fn is_hex_digit(c: char) -> bool {
    ('0' <= c && c <= '9') || ('a' <= c && c <= 'f') || ('A' <= c && c <= 'F')
}

/// The value of a hexadecimal digit.
pub open spec fn hex_val(c: char) -> int {
    if '0' <= c && c <= '9' {
        c as int - '0' as int
    } else if 'a' <= c && c <= 'f' {
        c as int - 'a' as int + 10
    } else {
        c as int - 'A' as int + 10
    }
}

/// The lower-case digit for a value below sixteen.
pub open spec fn hex_digit(n: int) -> char {
    if n == 0 {
        '0'
    } else if n == 1 {
        '1'
    } else if n == 2 {
        '2'
    } else if n == 3 {
        '3'
    } else if n == 4 {
        '4'
    } else if n == 5 {
        '5'
    } else if n == 6 {
        '6'
    } else if n == 7 {
        '7'
    } else if n == 8 {
        '8'
    } else if n == 9 {
        '9'
    } else if n == 10 {
        'a'
    } else if n == 11 {
        'b'
    } else if n == 12 {
        'c'
    } else if n == 13 {
        'd'
    } else if n == 14 {
        'e'
    } else {
        'f'
    }
}

/// Digits round-trip through their values.
pub proof fn lemma_hex_digit_val(n: int)
    requires
        0 <= n < 16,
    ensures
        is_hex_digit(hex_digit(n)),
        hex_val(hex_digit(n)) == n,
{
}

/// The escape sequence standing for one character.
pub open spec fn escape_char(c: char) -> Seq<char> {
    if c == '"' {
        seq!['\\', '"']
    } else if c == '\\' {
        seq!['\\', '\\']
    } else if c == '\n' {
        seq!['\\', 'n']
    } else if c == '\r' {
        seq!['\\', 'r']
    } else if c == '\t' {
        seq!['\\', 't']
    } else if (c as u32) < 32 {
        seq!['\\', 'u', '0', '0', hex_digit((c as u32 / 16) as int), hex_digit((c as u32 % 16) as int)]
    } else {
        seq![c]
    }
}

/// The escaped form of a string.
pub open spec fn escape_seq(s: Seq<char>) -> Seq<char>
    decreases s.len(),
{
    if s.len() == 0 {
        Seq::empty()
    } else {
        escape_char(s[0]) + escape_seq(s.drop_first())
    }
}

/// Escaping distributes over appending one character.
pub proof fn lemma_escape_push(s: Seq<char>, c: char)
    ensures
        escape_seq(s.push(c)) == escape_seq(s) + escape_char(c),
    decreases s.len(),
{
    if s.len() == 0 {
        assert(s.push(c).drop_first() =~= Seq::<char>::empty());
        assert(s.push(c)[0] == c);
        assert(escape_seq(Seq::<char>::empty()) =~= Seq::<char>::empty());
        assert(escape_seq(s.push(c)) =~= escape_char(c) + Seq::<char>::empty());
        assert(escape_char(c) + Seq::<char>::empty() =~= escape_char(c));
        assert(escape_seq(s) + escape_char(c) =~= escape_char(c));
    } else {
        assert(s.push(c).drop_first() =~= s.drop_first().push(c));
        lemma_escape_push(s.drop_first(), c);
        assert(escape_seq(s.push(c)) =~= escape_seq(s) + escape_char(c));
    }
}

/// The escaped form never holds a newline or a carriage return, so an
/// escaped string always fits on one line.
pub proof fn lemma_escape_clean(s: Seq<char>)
    ensures
        forall|i: int|
            0 <= i < escape_seq(s).len() ==> #[trigger] escape_seq(s)[i] != '\n' && escape_seq(
                s,
            )[i] != '\r',
    decreases s.len(),
{
    if s.len() > 0 {
        lemma_escape_clean(s.drop_first());
        let head = escape_char(s[0]);
        assert forall|i: int|
            0 <= i < escape_seq(s).len() implies #[trigger] escape_seq(s)[i] != '\n'
            && escape_seq(s)[i] != '\r' by {
            if i >= head.len() {
                assert(escape_seq(s)[i] == escape_seq(s.drop_first())[i - head.len()]);
            }
        }
    }
}

/// The character standing behind a short (single-letter) escape.
pub open spec fn unescape_short(e: char) -> Option<char> {
    if e == '"' {
        Some('"')
    } else if e == '\\' {
        Some('\\')
    } else if e == '/' {
        Some('/')
    } else if e == 'n' {
        Some('\n')
    } else if e == 'r' {
        Some('\r')
    } else if e == 't' {
        Some('\t')
    } else if e == 'b' {
        Some('\u{0008}')
    } else if e == 'f' {
        Some('\u{000C}')
    } else {
        None
    }
}

/// Parses the body of a quoted string: the characters after the opening
/// quote.  On success it yields the decoded characters and how many input
/// characters were consumed, the closing quote included.
pub open spec fn parse_string_body(s: Seq<char>) -> Option<(Seq<char>, int)>
    decreases s.len(),
{
    if s.len() == 0 {
        None
    } else if s[0] == '"' {
        Some((Seq::empty(), 1))
    } else if s[0] == '\\' {
        if s.len() < 2 {
            None
        } else if s[1] == 'u' {
            if s.len() < 6 {
                None
            } else if is_hex_digit(s[2]) && is_hex_digit(s[3]) && is_hex_digit(s[4])
                && is_hex_digit(s[5]) {
                let v = hex_val(s[2]) * 4096 + hex_val(s[3]) * 256 + hex_val(s[4]) * 16 + hex_val(
                    s[5],
                );
                if 0xD800 <= v && v < 0xE000 {
                    None
                } else {
                    match parse_string_body(s.skip(6)) {
                        Some(t) => Some((seq![(v as u32) as char] + t.0, 6 + t.1)),
                        None => None,
                    }
                }
            } else {
                None
            }
        } else {
            match unescape_short(s[1]) {
                Some(c) => match parse_string_body(s.skip(2)) {
                    Some(t) => Some((seq![c] + t.0, 2 + t.1)),
                    None => None,
                },
                None => None,
            }
        }
    } else {
        match parse_string_body(s.skip(1)) {
            Some(t) => Some((seq![s[0]] + t.0, 1 + t.1)),
            None => None,
        }
    }
}

/// Whatever a parse consumes lies within the input.
pub proof fn lemma_parse_consumed(s: Seq<char>)
    ensures
        parse_string_body(s) matches Some(t) ==> 0 < t.1 <= s.len(),
    decreases s.len(),
{
    if s.len() == 0 {
    } else if s[0] == '"' {
    } else if s[0] == '\\' {
        if s.len() >= 6 {
            lemma_parse_consumed(s.skip(6));
        }
        if s.len() >= 2 {
            lemma_parse_consumed(s.skip(2));
        }
    } else {
        lemma_parse_consumed(s.skip(1));
    }
}

/// Parsing inverts escaping: the body scan of an escaped string followed by
/// a closing quote and anything else recovers exactly the original string
/// and stops right after the quote.
pub proof fn lemma_parse_escaped(x: Seq<char>, r: Seq<char>)
    ensures
        parse_string_body(escape_seq(x) + seq!['"'] + r) == Some(
            (x, escape_seq(x).len() as int + 1),
        ),
    decreases x.len(),
{
    broadcast use vstd::utf8::char_u32_cast;

    let s = escape_seq(x) + seq!['"'] + r;
    if x.len() == 0 {
        assert(s[0] == '"');
        assert(parse_string_body(s) == Some((Seq::<char>::empty(), 1int)));
        assert(x =~= Seq::<char>::empty());
    } else {
        let c = x[0];
        let tail = x.drop_first();
        assert(escape_seq(x) == escape_char(c) + escape_seq(tail));
        lemma_parse_escaped(tail, r);
        let rest = escape_seq(tail) + seq!['"'] + r;
        if c == '"' || c == '\\' || c == '\n' || c == '\r' || c == '\t' {
            assert(s.skip(2) =~= rest);
            assert(seq![c] + tail =~= x);
        } else if (c as u32) < 32 {
            let hi = (c as u32 / 16) as int;
            let lo = (c as u32 % 16) as int;
            assert(0 <= hi < 16 && 0 <= lo < 16);
            lemma_hex_digit_val(hi);
            lemma_hex_digit_val(lo);
            assert(s.skip(6) =~= rest);
            assert(s[2] == '0' && s[3] == '0');
            assert(hex_val('0') == 0);
            let v = hex_val(s[2]) * 4096 + hex_val(s[3]) * 256 + hex_val(s[4]) * 16 + hex_val(
                s[5],
            );
            assert(v == hi * 16 + lo);
            assert(v == c as u32);
            vstd::utf8::char_u32_cast(c, v as u32);
            assert((v as u32) as char == c);
            assert(seq![c] + tail =~= x);
        } else {
            assert(s[0] == c);
            assert(s[0] != '"' && s[0] != '\\');
            assert(s.skip(1) =~= rest);
            assert(seq![c] + tail =~= x);
        }
    }
}

/// The escaped form of `s`, character by character.
pub fn escape_string(s: &String) -> (r: String)
    ensures
        r@ == escape_seq(s@),
{
    let chars = to_chars(s.as_str());
    let mut out = String::new();
    let mut i: usize = 0;
    proof {
        assert(s@.subrange(0, 0) =~= Seq::<char>::empty());
    }
    while i < chars.len()
        invariant
            i <= chars@.len(),
            chars@ == s@,
            out@ == escape_seq(s@.subrange(0, i as int)),
        decreases chars@.len() - i,
    {
        let c = chars[i];
        if c == '"' {
            push_char(&mut out, '\\');
            push_char(&mut out, '"');
        } else if c == '\\' {
            push_char(&mut out, '\\');
            push_char(&mut out, '\\');
        } else if c == '\n' {
            push_char(&mut out, '\\');
            push_char(&mut out, 'n');
        } else if c == '\r' {
            push_char(&mut out, '\\');
            push_char(&mut out, 'r');
        } else if c == '\t' {
            push_char(&mut out, '\\');
            push_char(&mut out, 't');
        } else if (c as u32) < 32 {
            push_char(&mut out, '\\');
            push_char(&mut out, 'u');
            push_char(&mut out, '0');
            push_char(&mut out, '0');
            push_char(&mut out, hex_digit_exec((c as u32) / 16));
            push_char(&mut out, hex_digit_exec((c as u32) % 16));
        } else {
            push_char(&mut out, c);
        }
        proof {
            lemma_escape_push(s@.subrange(0, i as int), c);
            assert(s@.subrange(0, i as int).push(c) =~= s@.subrange(0, i + 1 as int));
            assert(out@ =~= escape_seq(s@.subrange(0, i + 1 as int)));
        }
        i = i + 1;
    }
    proof {
        assert(s@.subrange(0, s@.len() as int) =~= s@);
    }
    out
}

/// The lower-case digit for a value below sixteen.
pub fn hex_digit_exec(n: u32) -> (r: char)
    requires
        n < 16,
    ensures
        r == hex_digit(n as int),
{
    if n == 0 {
        '0'
    } else if n == 1 {
        '1'
    } else if n == 2 {
        '2'
    } else if n == 3 {
        '3'
    } else if n == 4 {
        '4'
    } else if n == 5 {
        '5'
    } else if n == 6 {
        '6'
    } else if n == 7 {
        '7'
    } else if n == 8 {
        '8'
    } else if n == 9 {
        '9'
    } else if n == 10 {
        'a'
    } else if n == 11 {
        'b'
    } else if n == 12 {
        'c'
    } else if n == 13 {
        'd'
    } else if n == 14 {
        'e'
    } else {
        'f'
    }
}

/// The value of a hexadecimal digit, when `c` is one.
pub fn hex_val_exec(c: char) -> (r: Option<u32>)
    ensures
        r is Some <==> is_hex_digit(c),
        r matches Some(v) ==> v == hex_val(c) && v < 16,
{
    let u = c as u32;
    if 48 <= u && u <= 57 {
        Some(u - 48)
    } else if 97 <= u && u <= 102 {
        Some(u - 97 + 10)
    } else if 65 <= u && u <= 70 {
        Some(u - 65 + 10)
    } else {
        None
    }
}

/// Scans the body of a quoted string in `v` from position `i`: the decoded
/// characters and the number of characters consumed, the closing quote
/// included.
pub fn parse_body(v: &Vec<char>, i: usize) -> (r: Option<(Vec<char>, usize)>)
    requires
        i <= v@.len(),
    ensures
        r is Some <==> parse_string_body(v@.skip(i as int)) is Some,
        r matches Some(t) ==> parse_string_body(v@.skip(i as int)) == Some((t.0@, t.1 as int))
            && i + t.1 <= v@.len(),
    decreases v@.len() - i,
{
    let ghost s = v@.skip(i as int);
    if i >= v.len() {
        return None;
    }
    let c = v[i];
    assert(c == s[0]);
    if c == '"' {
        return Some((Vec::new(), 1));
    }
    if c == '\\' {
        if i + 1 >= v.len() {
            return None;
        }
        let e = v[i + 1];
        assert(e == s[1]);
        if e == 'u' {
            if v.len() - (i + 1) < 5 {
                return None;
            }
            let d2 = hex_val_exec(v[i + 2]);
            let d3 = hex_val_exec(v[i + 3]);
            let d4 = hex_val_exec(v[i + 4]);
            let d5 = hex_val_exec(v[i + 5]);
            proof {
                assert(v@[i + 2] == s[2] && v@[i + 3] == s[3] && v@[i + 4] == s[4] && v@[i + 5]
                    == s[5]);
            }
            match (d2, d3, d4, d5) {
                (Some(a), Some(b), Some(cc), Some(d)) => {
                    let val = a * 4096 + b * 256 + cc * 16 + d;
                    if 0xD800 <= val && val < 0xE000 {
                        return None;
                    }
                    let ch = match char_from_u32(val) {
                        Some(ch) => ch,
                        None => {
                            proof {
                                assert(false);
                            }
                            '0'
                        },
                    };
                    proof {
                        assert(v@.skip(i + 6 as int) =~= s.skip(6));
                    }
                    match parse_body(v, i + 6) {
                        Some((mut rest, n)) => {
                            rest.insert(0, ch);
                            proof {
                                assert(rest@ =~= seq![(val as u32) as char] + rest@.skip(1));
                            }
                            return Some((rest, n + 6));
                        },
                        None => {
                            return None;
                        },
                    }
                },
                _ => {
                    return None;
                },
            }
        }
        let short = if e == '"' {
            Some('"')
        } else if e == '\\' {
            Some('\\')
        } else if e == '/' {
            Some('/')
        } else if e == 'n' {
            Some('\n')
        } else if e == 'r' {
            Some('\r')
        } else if e == 't' {
            Some('\t')
        } else if e == 'b' {
            Some('\u{0008}')
        } else if e == 'f' {
            Some('\u{000C}')
        } else {
            None
        };
        match short {
            Some(ch) => {
                proof {
                    assert(v@.skip(i + 2 as int) =~= s.skip(2));
                }
                match parse_body(v, i + 2) {
                    Some((mut rest, n)) => {
                        rest.insert(0, ch);
                        proof {
                            assert(rest@ =~= seq![ch] + rest@.skip(1));
                        }
                        return Some((rest, n + 2));
                    },
                    None => {
                        return None;
                    },
                }
            },
            None => {
                return None;
            },
        }
    }
    proof {
        assert(v@.skip(i + 1 as int) =~= s.skip(1));
    }
    match parse_body(v, i + 1) {
        Some((mut rest, n)) => {
            rest.insert(0, c);
            proof {
                assert(rest@ =~= seq![c] + rest@.skip(1));
            }
            Some((rest, n + 1))
        },
        None => None,
    }
}

/// Decodes a whole quoted string: `input` must be exactly one `"`, a body,
/// and the closing `"`.
pub fn unquote(v: &Vec<char>, i: usize) -> (r: Option<(String, usize)>)
    requires
        i <= v@.len(),
    ensures
        r is Some <==> (i < v@.len() && v@[i as int] == '"' && parse_string_body(
            v@.skip(i + 1),
        ) is Some),
        r matches Some(t) ==> (v@[i as int] == '"' && parse_string_body(v@.skip(i + 1)) == Some(
            (t.0@, (t.1 - 1) as int),
        ) && i + t.1 <= v@.len() && t.1 >= 2),
{
    if i >= v.len() || v[i] != '"' {
        return None;
    }
    match parse_body(v, i + 1) {
        Some((body, n)) => {
            proof {
                crate::escape::lemma_parse_consumed(v@.skip(i + 1));
            }
            Some((from_chars(&body), n + 1))
        },
        None => None,
    }
}

/// Encodes `s` as a quoted string: a `"`, the escaped characters, and a
/// closing `"`.
pub fn quote(s: &String) -> (r: String)
    ensures
        r@ == seq!['"'] + escape_seq(s@) + seq!['"'],
{
    let mut out = String::new();
    push_char(&mut out, '"');
    let body = escape_string(s);
    let mut out2 = out;
    out2.append(body.as_str());
    push_char(&mut out2, '"');
    proof {
        assert(out2@ =~= seq!['"'] + escape_seq(s@) + seq!['"']);
    }
    out2
}

} // verus!
