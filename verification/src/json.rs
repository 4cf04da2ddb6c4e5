use vstd::prelude::*;
use vstd::slice::slice_subrange;

verus! {

// ------------------------------------------------------------------
// The wire and file format of this client is JSON restricted to objects
// whose members are strings, nulls, or (for the template listing) one
// array of flat objects.  The grammar below is what the parsers accept;
// the encoders emit a canonical form of the same grammar.
// ------------------------------------------------------------------

/// The whitespace JSON allows between tokens.
pub open spec fn is_ws(c: char) -> bool {
    c == ' ' || c == '\n' || c == '\r' || c == '\t'
}

/// `s` without its leading whitespace.
pub open spec fn skip_ws_spec(s: Seq<char>) -> Seq<char>
    decreases s.len(),
{
    if s.len() > 0 && is_ws(s[0]) {
        skip_ws_spec(s.drop_first())
    } else {
        s
    }
}

/// Whether `c` is a hexadecimal digit.
pub open spec fn is_hex(c: char) -> bool {
    (48 <= c as u32 && c as u32 <= 57) || (97 <= c as u32 && c as u32 <= 102) || (65 <= c as u32
        && c as u32 <= 70)
}

/// The value of the hexadecimal digit `c`.
pub open spec fn hex_val(c: char) -> nat
    recommends
        is_hex(c),
{
    if 48 <= c as u32 && c as u32 <= 57 {
        ((c as u32) - 48) as nat
    } else if 97 <= c as u32 && c as u32 <= 102 {
        ((c as u32) - 87) as nat
    } else {
        ((c as u32) - 55) as nat
    }
}

/// The character a single-letter escape stands for, if the letter is one
/// JSON accepts.
pub open spec fn simple_unescape(e: char) -> Option<char> {
    if e == '"' {
        Some('"')
    } else if e == '\\' {
        Some('\\')
    } else if e == '/' {
        Some('/')
    } else if e == 'n' {
        Some('\n')
    } else if e == 't' {
        Some('\t')
    } else if e == 'r' {
        Some('\r')
    } else if e == 'b' {
        Some('\u{8}')
    } else if e == 'f' {
        Some('\u{c}')
    } else {
        None
    }
}

/// Parses the body of a JSON string, after the opening quote: the decoded
/// characters and the remainder after the closing quote.
pub open spec fn parse_string_body_spec(s: Seq<char>) -> Option<(Seq<char>, Seq<char>)>
    decreases s.len(),
{
    if s.len() == 0 {
        None
    } else if s[0] == '"' {
        Some((Seq::empty(), s.drop_first()))
    } else if s[0] == '\\' {
        if s.len() < 2 {
            None
        } else if s[1] == 'u' {
            if s.len() >= 6 && is_hex(s[2]) && is_hex(s[3]) && is_hex(s[4]) && is_hex(s[5]) {
                let v = hex_val(s[2]) * 4096 + hex_val(s[3]) * 256 + hex_val(s[4]) * 16 + hex_val(
                    s[5],
                );
                if v < 0xD800 || 0xE000 <= v {
                    match parse_string_body_spec(s.skip(6)) {
                        Some(p) => Some((seq![((v as u32) as char)] + p.0, p.1)),
                        None => None,
                    }
                } else {
                    None
                }
            } else {
                None
            }
        } else {
            match simple_unescape(s[1]) {
                Some(c) => match parse_string_body_spec(s.skip(2)) {
                    Some(p) => Some((seq![c] + p.0, p.1)),
                    None => None,
                },
                None => None,
            }
        }
    } else if (s[0] as u32) < 0x20 {
        None
    } else {
        match parse_string_body_spec(s.drop_first()) {
            Some(p) => Some((seq![s[0]] + p.0, p.1)),
            None => None,
        }
    }
}

/// Parses a quoted JSON string standing at the front of `s`.
pub open spec fn parse_string_spec(s: Seq<char>) -> Option<(Seq<char>, Seq<char>)> {
    if s.len() > 0 && s[0] == '"' {
        parse_string_body_spec(s.drop_first())
    } else {
        None
    }
}

/// Parses a scalar member value: a string (`Some`) or `null` (`None`).
pub open spec fn parse_scalar_spec(s: Seq<char>) -> Option<(Option<Seq<char>>, Seq<char>)> {
    if s.len() > 0 && s[0] == '"' {
        match parse_string_body_spec(s.drop_first()) {
            Some(p) => Some((Some(p.0), p.1)),
            None => None,
        }
    } else if s.len() >= 4 && s[0] == 'n' && s[1] == 'u' && s[2] == 'l' && s[3] == 'l' {
        Some((None, s.skip(4)))
    } else {
        None
    }
}

/// Parses one object member: whitespace, a quoted key, whitespace, a
/// colon, whitespace, then a scalar value.  Yields the key, the value and
/// the remainder.
pub open spec fn parse_pair_spec(s: Seq<char>) -> Option<(Seq<char>, Option<Seq<char>>, Seq<char>)> {
    let s1 = skip_ws_spec(s);
    match parse_string_spec(s1) {
        Some(kp) => {
            let s2 = skip_ws_spec(kp.1);
            if s2.len() > 0 && s2[0] == ':' {
                match parse_scalar_spec(skip_ws_spec(s2.drop_first())) {
                    Some(vp) => Some((kp.0, vp.0, vp.1)),
                    None => None,
                }
            } else {
                None
            }
        },
        None => None,
    }
}

// ------------------------------------------------------------------
// Executable parsers, each returning exactly what its spec says.
// ------------------------------------------------------------------

fn is_ws_x(c: char) -> (r: bool)
    ensures
        r == is_ws(c),
{
    c == ' ' || c == '\n' || c == '\r' || c == '\t'
}

/// Drops the leading whitespace of `s`.
pub fn skip_ws_x(s: &[char]) -> (r: &[char])
    ensures
        r@ == skip_ws_spec(s@),
    decreases s@.len(),
{
    if s.len() > 0 && is_ws_x(s[0]) {
        let t = slice_subrange(s, 1, s.len());
        proof {
            assert(t@ =~= s@.drop_first());
        }
        skip_ws_x(t)
    } else {
        s
    }
}

fn is_hex_x(c: char) -> (r: bool)
    ensures
        r == is_hex(c),
{
    let v: u32 = c as u32;
    (48 <= v && v <= 57) || (97 <= v && v <= 102) || (65 <= v && v <= 70)
}

fn hex_val_x(c: char) -> (r: u32)
    requires
        is_hex(c),
    ensures
        r as nat == hex_val(c),
        r <= 15,
{
    let v: u32 = c as u32;
    if 48 <= v && v <= 57 {
        v - 48
    } else if 97 <= v && v <= 102 {
        v - 87
    } else {
        v - 55
    }
}

/// Relies on `char::from_u32`: a value below the surrogate range or above
/// it (and below 0x110000) is a valid scalar value, and the returned
/// character carries exactly that code.
#[verifier::external_body]
fn char_from_u32(v: u32) -> (c: char)
    requires
        v < 0xD800 || (0xE000 <= v && v < 0x110000),
    ensures
        c as u32 == v,
{
    char::from_u32(v).unwrap_or(' ')
}

fn simple_unescape_x(e: char) -> (r: Option<char>)
    ensures
        r == simple_unescape(e),
{
    if e == '"' {
        Some('"')
    } else if e == '\\' {
        Some('\\')
    } else if e == '/' {
        Some('/')
    } else if e == 'n' {
        Some('\n')
    } else if e == 't' {
        Some('\t')
    } else if e == 'r' {
        Some('\r')
    } else if e == 'b' {
        Some('\u{8}')
    } else if e == 'f' {
        Some('\u{c}')
    } else {
        None
    }
}

/// Decodes a JSON string body, after the opening quote.
pub fn parse_string_body_x<'a>(s: &'a [char]) -> (r: Option<(Vec<char>, &'a [char])>)
    ensures
        match r {
            Some(p) => parse_string_body_spec(s@) == Some((p.0@, p.1@)),
            None => parse_string_body_spec(s@) is None,
        },
    decreases s@.len(),
{
    if s.len() == 0 {
        return None;
    }
    let c = s[0];
    if c == '"' {
        let rest = slice_subrange(s, 1, s.len());
        let empty: Vec<char> = Vec::new();
        proof {
            assert(rest@ =~= s@.drop_first());
        }
        return Some((empty, rest));
    }
    if c == '\\' {
        if s.len() < 2 {
            return None;
        }
        let e = s[1];
        if e == 'u' {
            if s.len() < 6 {
                return None;
            }
            if !(is_hex_x(s[2]) && is_hex_x(s[3]) && is_hex_x(s[4]) && is_hex_x(s[5])) {
                return None;
            }
            let v: u32 = hex_val_x(s[2]) * 4096 + hex_val_x(s[3]) * 256 + hex_val_x(s[4]) * 16
                + hex_val_x(s[5]);
            if 0xD800 <= v && v < 0xE000 {
                return None;
            }
            let tail = slice_subrange(s, 6, s.len());
            proof {
                assert(tail@ =~= s@.skip(6));
            }
            match parse_string_body_x(tail) {
                Some((t, rest)) => {
                    let ch = char_from_u32(v);
                    let mut out = t;
                    out.insert(0, ch);
                    proof {
                        broadcast use vstd::utf8::char_u32_cast;

                        assert(((v as u32) as char) == ch);
                        assert(out@ =~= seq![((v as u32) as char)] + out@.drop_first());
                    }
                    Some((out, rest))
                },
                None => None,
            }
        } else {
            match simple_unescape_x(e) {
                Some(u) => {
                    let tail = slice_subrange(s, 2, s.len());
                    proof {
                        assert(tail@ =~= s@.skip(2));
                    }
                    match parse_string_body_x(tail) {
                        Some((t, rest)) => {
                            let mut out = t;
                            out.insert(0, u);
                            proof {
                                assert(out@ =~= seq![u] + out@.drop_first());
                            }
                            Some((out, rest))
                        },
                        None => None,
                    }
                },
                None => None,
            }
        }
    } else if (c as u32) < 0x20 {
        None
    } else {
        let tail = slice_subrange(s, 1, s.len());
        proof {
            assert(tail@ =~= s@.drop_first());
        }
        match parse_string_body_x(tail) {
            Some((t, rest)) => {
                let mut out = t;
                out.insert(0, c);
                proof {
                    assert(out@ =~= seq![c] + out@.drop_first());
                }
                Some((out, rest))
            },
            None => None,
        }
    }
}

/// Decodes a quoted JSON string standing at the front of `s`.
pub fn parse_string_x<'a>(s: &'a [char]) -> (r: Option<(Vec<char>, &'a [char])>)
    ensures
        match r {
            Some(p) => parse_string_spec(s@) == Some((p.0@, p.1@)),
            None => parse_string_spec(s@) is None,
        },
{
    if s.len() > 0 && s[0] == '"' {
        let t = slice_subrange(s, 1, s.len());
        proof {
            assert(t@ =~= s@.drop_first());
        }
        parse_string_body_x(t)
    } else {
        None
    }
}

/// The view of an optional decoded string: `Some` for a string member,
/// `None` for `null`.
pub open spec fn opt_chars_view(o: Option<Vec<char>>) -> Option<Seq<char>> {
    match o {
        Some(v) => Some(v@),
        None => None,
    }
}

/// Decodes a scalar member value: a string or `null`.
pub fn parse_scalar_x<'a>(s: &'a [char]) -> (r: Option<(Option<Vec<char>>, &'a [char])>)
    ensures
        match r {
            Some(p) => parse_scalar_spec(s@) == Some((opt_chars_view(p.0), p.1@)),
            None => parse_scalar_spec(s@) is None,
        },
{
    if s.len() > 0 && s[0] == '"' {
        let t = slice_subrange(s, 1, s.len());
        proof {
            assert(t@ =~= s@.drop_first());
        }
        match parse_string_body_x(t) {
            Some((v, rest)) => Some((Some(v), rest)),
            None => None,
        }
    } else if s.len() >= 4 && s[0] == 'n' && s[1] == 'u' && s[2] == 'l' && s[3] == 'l' {
        let rest = slice_subrange(s, 4, s.len());
        proof {
            assert(rest@ =~= s@.skip(4));
        }
        Some((None, rest))
    } else {
        None
    }
}

/// Decodes one object member: a key, a colon, and a scalar value.
pub fn parse_pair_x<'a>(s: &'a [char]) -> (r: Option<(Vec<char>, Option<Vec<char>>, &'a [char])>)
    ensures
        match r {
            Some(p) => parse_pair_spec(s@) == Some((p.0@, opt_chars_view(p.1), p.2@)),
            None => parse_pair_spec(s@) is None,
        },
{
    let s1 = skip_ws_x(s);
    match parse_string_x(s1) {
        Some((key, after_key)) => {
            let s2 = skip_ws_x(after_key);
            if s2.len() > 0 && s2[0] == ':' {
                let s3 = slice_subrange(s2, 1, s2.len());
                proof {
                    assert(s3@ =~= s2@.drop_first());
                }
                match parse_scalar_x(skip_ws_x(s3)) {
                    Some((value, rest)) => Some((key, value, rest)),
                    None => None,
                }
            } else {
                None
            }
        },
        None => None,
    }
}

// ------------------------------------------------------------------
// Encoding: the canonical way strings are written into JSON text.
// ------------------------------------------------------------------

/// The lowercase hexadecimal digit character for `d`.
pub open spec fn hex_char(d: nat) -> char
    recommends
        d <= 15,
{
    if d == 0 {
        '0'
    } else if d == 1 {
        '1'
    } else if d == 2 {
        '2'
    } else if d == 3 {
        '3'
    } else if d == 4 {
        '4'
    } else if d == 5 {
        '5'
    } else if d == 6 {
        '6'
    } else if d == 7 {
        '7'
    } else if d == 8 {
        '8'
    } else if d == 9 {
        '9'
    } else if d == 10 {
        'a'
    } else if d == 11 {
        'b'
    } else if d == 12 {
        'c'
    } else if d == 13 {
        'd'
    } else if d == 14 {
        'e'
    } else {
        'f'
    }
}

/// How one character is written inside a JSON string: quotes, backslashes
/// and control characters are escaped, everything else stands as itself.
pub open spec fn escape_char(c: char) -> Seq<char> {
    if c == '"' {
        seq!['\\', '"']
    } else if c == '\\' {
        seq!['\\', '\\']
    } else if c == '\u{8}' {
        seq!['\\', 'b']
    } else if c == '\t' {
        seq!['\\', 't']
    } else if c == '\n' {
        seq!['\\', 'n']
    } else if c == '\u{c}' {
        seq!['\\', 'f']
    } else if c == '\r' {
        seq!['\\', 'r']
    } else if (c as u32) < 0x20 {
        seq!['\\', 'u', '0', '0', hex_char(((c as u32) / 16) as nat), hex_char(
            ((c as u32) % 16) as nat,
        )]
    } else {
        seq![c]
    }
}

/// The escaped form of a whole string, character by character.
pub open spec fn escape_seq(s: Seq<char>) -> Seq<char>
    decreases s.len(),
{
    if s.len() == 0 {
        Seq::empty()
    } else {
        escape_char(s[0]) + escape_seq(s.drop_first())
    }
}

fn hex_char_x(d: u32) -> (r: char)
    requires
        d <= 15,
    ensures
        r == hex_char(d as nat),
{
    if d == 0 {
        '0'
    } else if d == 1 {
        '1'
    } else if d == 2 {
        '2'
    } else if d == 3 {
        '3'
    } else if d == 4 {
        '4'
    } else if d == 5 {
        '5'
    } else if d == 6 {
        '6'
    } else if d == 7 {
        '7'
    } else if d == 8 {
        '8'
    } else if d == 9 {
        '9'
    } else if d == 10 {
        'a'
    } else if d == 11 {
        'b'
    } else if d == 12 {
        'c'
    } else if d == 13 {
        'd'
    } else if d == 14 {
        'e'
    } else {
        'f'
    }
}

fn push_escape_char(out: &mut Vec<char>, c: char)
    ensures
        final(out)@ == old(out)@ + escape_char(c),
{
    if c == '"' {
        out.push('\\');
        out.push('"');
        proof {
            assert(out@ =~= old(out)@ + escape_char(c));
        }
    } else if c == '\\' {
        out.push('\\');
        out.push('\\');
        proof {
            assert(out@ =~= old(out)@ + escape_char(c));
        }
    } else if c == '\u{8}' {
        out.push('\\');
        out.push('b');
        proof {
            assert(out@ =~= old(out)@ + escape_char(c));
        }
    } else if c == '\t' {
        out.push('\\');
        out.push('t');
        proof {
            assert(out@ =~= old(out)@ + escape_char(c));
        }
    } else if c == '\n' {
        out.push('\\');
        out.push('n');
        proof {
            assert(out@ =~= old(out)@ + escape_char(c));
        }
    } else if c == '\u{c}' {
        out.push('\\');
        out.push('f');
        proof {
            assert(out@ =~= old(out)@ + escape_char(c));
        }
    } else if c == '\r' {
        out.push('\\');
        out.push('r');
        proof {
            assert(out@ =~= old(out)@ + escape_char(c));
        }
    } else {
        let v: u32 = c as u32;
        if v < 0x20 {
            out.push('\\');
            out.push('u');
            out.push('0');
            out.push('0');
            out.push(hex_char_x(v / 16));
            out.push(hex_char_x(v % 16));
            proof {
                assert(out@ =~= old(out)@ + escape_char(c));
            }
        } else {
            out.push(c);
            proof {
                assert(out@ =~= old(out)@ + escape_char(c));
            }
        }
    }
}

/// The characters of `v` in their escaped JSON form.
#[verifier::loop_isolation(false)]
pub fn escape_chars(v: &Vec<char>) -> (r: Vec<char>)
    ensures
        r@ == escape_seq(v@),
{
    let n = v.len();
    let mut out: Vec<char> = Vec::new();
    let mut i: usize = 0;
    proof {
        assert(v@.skip(0) =~= v@);
        assert(out@ + escape_seq(v@) =~= escape_seq(v@));
    }
    while i < n
        invariant
            i <= n,
            out@ + escape_seq(v@.skip(i as int)) == escape_seq(v@),
        decreases n - i,
    {
        proof {
            assert(v@.skip(i as int).drop_first() =~= v@.skip(i as int + 1));
            assert(v@.skip(i as int)[0] == v@[i as int]);
        }
        let ghost prev = out@;
        push_escape_char(&mut out, v[i]);
        proof {
            assert(out@ + escape_seq(v@.skip(i as int + 1)) =~= prev + escape_seq(
                v@.skip(i as int),
            ));
        }
        i = i + 1;
    }
    proof {
        assert(v@.skip(n as int) =~= Seq::<char>::empty());
        assert(out@ + Seq::<char>::empty() =~= out@);
    }
    out
}

// ------------------------------------------------------------------
// What the parsers give back on encoded text.
// ------------------------------------------------------------------

/// Skipping whitespace consumes exactly a whitespace prefix.
pub proof fn lemma_skip_ws_prefix(w: Seq<char>, t: Seq<char>)
    requires
        forall|k: int| 0 <= k < w.len() ==> is_ws(w[k]),
        t.len() > 0 ==> !is_ws(t[0]),
    ensures
        skip_ws_spec(w + t) == t,
    decreases w.len(),
{
    if w.len() == 0 {
        assert(w + t =~= t);
    } else {
        assert((w + t)[0] == w[0]);
        assert((w + t).drop_first() =~= w.drop_first() + t);
        lemma_skip_ws_prefix(w.drop_first(), t);
    }
}

proof fn lemma_hex_char_val(d: nat)
    requires
        d <= 15,
    ensures
        is_hex(hex_char(d)),
        hex_val(hex_char(d)) == d,
{
}

/// Decoding a string body inverts escaping: an escaped string followed by
/// its closing quote parses back to the original characters.
pub proof fn lemma_parse_escaped_body(x: Seq<char>, rest: Seq<char>)
    ensures
        parse_string_body_spec(escape_seq(x) + seq!['"'] + rest) == Some((x, rest)),
    decreases x.len(),
{
    let s = escape_seq(x) + seq!['"'] + rest;
    if x.len() == 0 {
        assert(s =~= seq!['"'] + rest);
        assert(s[0] == '"');
        assert(s.drop_first() =~= rest);
        assert(x =~= Seq::<char>::empty());
    } else {
        let c = x[0];
        let x1 = x.drop_first();
        let tail = escape_seq(x1) + seq!['"'] + rest;
        assert(escape_seq(x) == escape_char(c) + escape_seq(x1));
        assert(s =~= escape_char(c) + tail);
        lemma_parse_escaped_body(x1, rest);
        if c == '"' {
            assert(s[0] == '\\' && s[1] == '"');
            assert(s.skip(2) =~= tail);
            assert(seq![c] + x1 =~= x);
        } else if c == '\\' {
            assert(s[0] == '\\' && s[1] == '\\');
            assert(s.skip(2) =~= tail);
            assert(seq![c] + x1 =~= x);
        } else if c == '\u{8}' {
            assert(s[0] == '\\' && s[1] == 'b');
            assert(s.skip(2) =~= tail);
            assert(seq![c] + x1 =~= x);
        } else if c == '\t' {
            assert(s[0] == '\\' && s[1] == 't');
            assert(s.skip(2) =~= tail);
            assert(seq![c] + x1 =~= x);
        } else if c == '\n' {
            assert(s[0] == '\\' && s[1] == 'n');
            assert(s.skip(2) =~= tail);
            assert(seq![c] + x1 =~= x);
        } else if c == '\u{c}' {
            assert(s[0] == '\\' && s[1] == 'f');
            assert(s.skip(2) =~= tail);
            assert(seq![c] + x1 =~= x);
        } else if c == '\r' {
            assert(s[0] == '\\' && s[1] == 'r');
            assert(s.skip(2) =~= tail);
            assert(seq![c] + x1 =~= x);
        } else if (c as u32) < 0x20 {
            let v = c as u32;
            assert(s[0] == '\\' && s[1] == 'u');
            assert(s[2] == '0' && s[3] == '0');
            assert(s[4] == hex_char(((v as u32) / 16) as nat));
            assert(s[5] == hex_char(((v as u32) % 16) as nat));
            lemma_hex_char_val(((v as u32) / 16) as nat);
            lemma_hex_char_val(((v as u32) % 16) as nat);
            assert(hex_val(s[2]) * 4096 + hex_val(s[3]) * 256 + hex_val(s[4]) * 16 + hex_val(s[5])
                == v as nat);
            assert(s.skip(6) =~= tail);
            vstd::utf8::char_u32_cast(c, v);
            assert(((v as u32) as char) == c);
            assert(seq![c] + x1 =~= x);
        } else {
            assert(s[0] == c);
            assert(s.drop_first() =~= tail);
            assert(seq![c] + x1 =~= x);
        }
    }
}

/// Skipping whitespace never lengthens the text.
pub proof fn lemma_skip_ws_len(s: Seq<char>)
    ensures
        skip_ws_spec(s).len() <= s.len(),
    decreases s.len(),
{
    if s.len() > 0 && is_ws(s[0]) {
        lemma_skip_ws_len(s.drop_first());
    }
}

/// A decoded string body consumes at least its closing quote.
pub proof fn lemma_parse_string_body_len(s: Seq<char>)
    ensures
        parse_string_body_spec(s) matches Some(p) ==> p.1.len() < s.len(),
    decreases s.len(),
{
    if s.len() == 0 {
    } else if s[0] == '"' {
    } else if s[0] == '\\' {
        if s.len() >= 2 {
            if s[1] == 'u' {
                if s.len() >= 6 {
                    lemma_parse_string_body_len(s.skip(6));
                }
            } else {
                lemma_parse_string_body_len(s.skip(2));
            }
        }
    } else {
        lemma_parse_string_body_len(s.drop_first());
    }
}

/// A decoded scalar consumes at least one character.
pub proof fn lemma_parse_scalar_len(s: Seq<char>)
    ensures
        parse_scalar_spec(s) matches Some(p) ==> p.1.len() < s.len(),
{
    if s.len() > 0 && s[0] == '"' {
        lemma_parse_string_body_len(s.drop_first());
    }
}

/// A decoded object member consumes at least part of the text.
pub proof fn lemma_parse_pair_len(s: Seq<char>)
    ensures
        parse_pair_spec(s) matches Some(p) ==> p.2.len() < s.len(),
{
    let s1 = skip_ws_spec(s);
    lemma_skip_ws_len(s);
    match parse_string_spec(s1) {
        Some(kp) => {
            if s1.len() > 0 && s1[0] == '"' {
                lemma_parse_string_body_len(s1.drop_first());
            }
            let s2 = skip_ws_spec(kp.1);
            lemma_skip_ws_len(kp.1);
            if s2.len() > 0 && s2[0] == ':' {
                lemma_skip_ws_len(s2.drop_first());
                lemma_parse_scalar_len(skip_ws_spec(s2.drop_first()));
            }
        },
        None => {},
    }
}

/// A string with no quote, backslash or control character parses back as
/// itself.
pub proof fn lemma_parse_plain_body(x: Seq<char>, rest: Seq<char>)
    requires
        forall|k: int|
            0 <= k < x.len() ==> x[k] != '"' && x[k] != '\\' && (x[k] as u32) >= 0x20,
    ensures
        parse_string_body_spec(x + seq!['"'] + rest) == Some((x, rest)),
    decreases x.len(),
{
    let s = x + seq!['"'] + rest;
    if x.len() == 0 {
        assert(s =~= seq!['"'] + rest);
        assert(s.drop_first() =~= rest);
        assert(x =~= Seq::<char>::empty());
    } else {
        assert(s[0] == x[0]);
        assert(s.drop_first() =~= x.drop_first() + seq!['"'] + rest);
        lemma_parse_plain_body(x.drop_first(), rest);
        assert(seq![x[0]] + x.drop_first() =~= x);
    }
}

} // verus!
