//! Character-level primitives of the client's JSON-shaped wire and file
//! grammar: string escaping and unescaping — the named escapes and the
//! `\uXXXX` form, surrogate pairs included — whitespace, literal matching
//! and decimal numerals. The grammar is defined by the spec functions here;
//! the executable code is proved to follow them exactly.

use vstd::prelude::*;

verus! {

// ---------------------------------------------------------------------------
// Character codes and hexadecimal digits
// ---------------------------------------------------------------------------
/// The Unicode code point of a character.
pub open spec fn code_of(c: char) -> int {
    c as int
}

/// The character with a given code point, if one exists. Every character's
/// code is a valid scalar value, so this is `Some` exactly on those.
pub open spec fn char_from_code(n: int) -> Option<char> {
    if exists|c: char| #[trigger] code_of(c) == n {
        Some(choose|c: char| #[trigger] code_of(c) == n)
    } else {
        None
    }
}

/// A character is recovered from its own code.
pub proof fn lemma_char_from_code_of(c: char, n: int)
    requires
        c as int == n,
    ensures
        char_from_code(n) == Some(c),
{
    assert(code_of(c) == n);
    assert(exists|x: char| #[trigger] code_of(x) == n);
    let w = choose|x: char| #[trigger] code_of(x) == n;
    assert(w == c);
}

/// A character's code is always a valid scalar value.
pub proof fn lemma_char_code_range(c: char)
    ensures
        (0 <= (c as int) && (c as int) < 0xD800) || (0xE000 <= (c as int) && (c as int)
            <= 0x10FFFF),
{
}

/// No character has a code outside the scalar-value ranges.
pub proof fn lemma_char_from_code_none(n: int)
    requires
        !((0 <= n && n < 0xD800) || (0xE000 <= n && n <= 0x10FFFF)),
    ensures
        char_from_code(n) == None::<char>,
{
    if exists|c: char| #[trigger] code_of(c) == n {
        let w = choose|c: char| #[trigger] code_of(c) == n;
        lemma_char_code_range(w);
        assert(false);
    }
}

/// Relies on `char::from_u32`: `Some` exactly on code points that are valid
/// Unicode scalar values (not surrogates, at most `0x10FFFF`), yielding the
/// character with that code.
#[verifier::external_body]
fn char_from_u32_checked(n: u32) -> (r: Option<char>)
    ensures
        r matches Some(c) ==> c as u32 == n,
        (r is Some) == (n < 0xD800 || (0xE000 <= n && n <= 0x10FFFF)),
{
    char::from_u32(n)
}

/// The value of one hexadecimal digit, either case.
pub open spec fn hex_val(c: char) -> Option<int> {
    if '0' <= c && c <= '9' {
        Some(c as int - '0' as int)
    } else if 'a' <= c && c <= 'f' {
        Some(10 + c as int - 'a' as int)
    } else if 'A' <= c && c <= 'F' {
        Some(10 + c as int - 'A' as int)
    } else {
        None
    }
}

fn hex_val_exec(c: char) -> (r: Option<u8>)
    ensures
        match r {
            Some(d) => hex_val(c) == Some(d as int) && d < 16,
            None => hex_val(c) == None::<int>,
        },
{
    if '0' <= c && c <= '9' {
        Some((c as u32 - '0' as u32) as u8)
    } else if 'a' <= c && c <= 'f' {
        Some((10 + c as u32 - 'a' as u32) as u8)
    } else if 'A' <= c && c <= 'F' {
        Some((10 + c as u32 - 'A' as u32) as u8)
    } else {
        None
    }
}

/// The lower-case numeral of one hexadecimal digit.
pub open spec fn hex_digit(d: int) -> char {
    if d == 0 {
        '0'
    } else if d == 1 {
        '1'
    } else if d == 2 {
        '2'
    } else if d == 3 {
        '3'
    } else if d == 4 {
        '4'
    } else if d == 5 {
        '5'
    } else if d == 6 {
        '6'
    } else if d == 7 {
        '7'
    } else if d == 8 {
        '8'
    } else if d == 9 {
        '9'
    } else if d == 10 {
        'a'
    } else if d == 11 {
        'b'
    } else if d == 12 {
        'c'
    } else if d == 13 {
        'd'
    } else if d == 14 {
        'e'
    } else {
        'f'
    }
}

fn hex_digit_exec(d: u8) -> (c: char)
    requires
        d < 16,
    ensures
        c == hex_digit(d as int),
{
    if d == 0 {
        '0'
    } else if d == 1 {
        '1'
    } else if d == 2 {
        '2'
    } else if d == 3 {
        '3'
    } else if d == 4 {
        '4'
    } else if d == 5 {
        '5'
    } else if d == 6 {
        '6'
    } else if d == 7 {
        '7'
    } else if d == 8 {
        '8'
    } else if d == 9 {
        '9'
    } else if d == 10 {
        'a'
    } else if d == 11 {
        'b'
    } else if d == 12 {
        'c'
    } else if d == 13 {
        'd'
    } else if d == 14 {
        'e'
    } else {
        'f'
    }
}

proof fn lemma_hex_digit_val(d: int)
    requires
        0 <= d < 16,
    ensures
        hex_val(hex_digit(d)) == Some(d),
{
}

/// The value of the first four characters read as hexadecimal digits.
pub open spec fn hex4(s: Seq<char>) -> Option<int> {
    if s.len() < 4 {
        None
    } else {
        match (hex_val(s[0]), hex_val(s[1]), hex_val(s[2]), hex_val(s[3])) {
            (Some(a), Some(b), Some(c), Some(d)) => Some(a * 4096 + b * 256 + c * 16 + d),
            _ => None,
        }
    }
}

/// Reads four hexadecimal digits starting at `v[i]`.
fn read_hex4(v: &Vec<char>, i: usize) -> (r: Option<u32>)
    requires
        i <= v@.len(),
    ensures
        match r {
            Some(n) => i + 4 <= v@.len() && hex4(v@.skip(i as int)) == Some(n as int) && n
                < 0x10000,
            None => hex4(v@.skip(i as int)) == None::<int>,
        },
{
    if v.len() - i < 4 {
        proof {
            assert(v@.skip(i as int).len() < 4);
        }
        return None;
    }
    proof {
        assert(v@.skip(i as int)[0] == v@[i as int]);
        assert(v@.skip(i as int)[1] == v@[i as int + 1]);
        assert(v@.skip(i as int)[2] == v@[i as int + 2]);
        assert(v@.skip(i as int)[3] == v@[i as int + 3]);
    }
    let a = match hex_val_exec(v[i]) {
        Some(d) => d,
        None => {
            return None;
        },
    };
    let b = match hex_val_exec(v[i + 1]) {
        Some(d) => d,
        None => {
            return None;
        },
    };
    let c = match hex_val_exec(v[i + 2]) {
        Some(d) => d,
        None => {
            return None;
        },
    };
    let d = match hex_val_exec(v[i + 3]) {
        Some(d) => d,
        None => {
            return None;
        },
    };
    Some((a as u32) * 4096 + (b as u32) * 256 + (c as u32) * 16 + (d as u32))
}

// ---------------------------------------------------------------------------
// String escaping
// ---------------------------------------------------------------------------
/// How one character is written inside a quoted string.
pub open spec fn esc_char(c: char) -> Seq<char> {
    if c == '"' {
        seq!['\\', '"']
    } else if c == '\\' {
        seq!['\\', '\\']
    } else if c == '\n' {
        seq!['\\', 'n']
    } else if c == '\r' {
        seq!['\\', 'r']
    } else if c == '\t' {
        seq!['\\', 't']
    } else if c == '\u{0008}' {
        seq!['\\', 'b']
    } else if c == '\u{000C}' {
        seq!['\\', 'f']
    } else if (c as int) < 0x20 {
        seq!['\\', 'u', '0', '0', hex_digit((c as int) / 16), hex_digit((c as int) % 16)]
    } else {
        seq![c]
    }
}

/// How a whole string body is written inside quotes.
pub open spec fn esc_str(s: Seq<char>) -> Seq<char>
    decreases s.len(),
{
    if s.len() == 0 {
        Seq::empty()
    } else {
        esc_char(s[0]) + esc_str(s.skip(1))
    }
}

pub proof fn lemma_esc_str_push(s: Seq<char>, c: char)
    ensures
        esc_str(s.push(c)) == esc_str(s) + esc_char(c),
    decreases s.len(),
{
    if s.len() == 0 {
        assert(s.push(c).skip(1) =~= Seq::<char>::empty());
        assert(s.push(c)[0] == c);
        assert(esc_str(s.push(c)) == esc_char(c) + esc_str(Seq::<char>::empty()));
        assert(esc_str(s.push(c)) =~= esc_char(c));
        assert(esc_str(s) + esc_char(c) =~= esc_char(c));
    } else {
        assert(s.push(c).skip(1) =~= s.skip(1).push(c));
        lemma_esc_str_push(s.skip(1), c);
        assert(esc_str(s.push(c)) =~= esc_str(s) + esc_char(c));
    }
}

/// The character an escape letter stands for, if it is one the grammar
/// knows. The `\u` form is not a letter escape; the string reader handles it
/// separately.
pub open spec fn unesc_char(c: char) -> Option<char> {
    if c == '"' {
        Some('"')
    } else if c == '\\' {
        Some('\\')
    } else if c == '/' {
        Some('/')
    } else if c == 'n' {
        Some('\n')
    } else if c == 'r' {
        Some('\r')
    } else if c == 't' {
        Some('\t')
    } else if c == 'b' {
        Some('\u{0008}')
    } else if c == 'f' {
        Some('\u{000C}')
    } else {
        None
    }
}

fn unesc_char_exec(c: char) -> (r: Option<char>)
    ensures
        r == unesc_char(c),
{
    if c == '"' {
        Some('"')
    } else if c == '\\' {
        Some('\\')
    } else if c == '/' {
        Some('/')
    } else if c == 'n' {
        Some('\n')
    } else if c == 'r' {
        Some('\r')
    } else if c == 't' {
        Some('\t')
    } else if c == 'b' {
        Some('\u{0008}')
    } else if c == 'f' {
        Some('\u{000C}')
    } else {
        None
    }
}

/// Appends the escaped form of `s` to `out`.
pub fn push_escaped(out: &mut Vec<char>, s: &Vec<char>)
    ensures
        final(out)@ == old(out)@ + esc_str(s@),
{
    let ghost base = out@;
    let mut i: usize = 0;
    proof {
        assert(s@.take(0) =~= Seq::<char>::empty());
        assert(out@ =~= base + esc_str(s@.take(0)));
    }
    while i < s.len()
        invariant
            i <= s.len(),
            out@ == base + esc_str(s@.take(i as int)),
        decreases s.len() - i,
    {
        let c = s[i];
        if c == '"' {
            out.push('\\');
            out.push('"');
        } else if c == '\\' {
            out.push('\\');
            out.push('\\');
        } else if c == '\n' {
            out.push('\\');
            out.push('n');
        } else if c == '\r' {
            out.push('\\');
            out.push('r');
        } else if c == '\t' {
            out.push('\\');
            out.push('t');
        } else if c == '\u{0008}' {
            out.push('\\');
            out.push('b');
        } else if c == '\u{000C}' {
            out.push('\\');
            out.push('f');
        } else if (c as u32) < 0x20 {
            let v32 = c as u32;
            proof {
                lemma_char_code_range(c);
                assert(v32 as int == c as int);
                assert(((v32 / 16) as u8) as int == (c as int) / 16);
                assert(((v32 % 16) as u8) as int == (c as int) % 16);
            }
            let d1 = hex_digit_exec((v32 / 16) as u8);
            let d2 = hex_digit_exec((v32 % 16) as u8);
            proof {
                assert(esc_char(c) == seq!['\\', 'u', '0', '0', d1, d2]);
            }
            let ghost out_before = out@;
            out.push('\\');
            out.push('u');
            out.push('0');
            out.push('0');
            out.push(d1);
            out.push(d2);
            proof {
                assert(out@ =~= out_before + esc_char(c));
            }
        } else {
            proof {
                lemma_char_code_range(c);
                assert((c as int) >= 0x20);
                assert(esc_char(c) =~= seq![c]);
            }
            out.push(c);
        }
        proof {
            lemma_esc_str_push(s@.take(i as int), s@[i as int]);
            assert(s@.take(i as int).push(s@[i as int]) =~= s@.take(i as int + 1));
            assert(out@ =~= base + esc_str(s@.take(i as int + 1)));
        }
        i = i + 1;
    }
    proof {
        assert(s@.take(s@.len() as int) =~= s@);
    }
}

// ---------------------------------------------------------------------------
// Quoted string bodies
// ---------------------------------------------------------------------------
/// Reads a string body up to and including its closing quote: the unescaped
/// content, and what follows the quote. `None` when the input ends before the
/// quote or an escape letter is unknown.
pub open spec fn parse_str_chars(s: Seq<char>) -> Option<(Seq<char>, Seq<char>)>
    decreases s.len(),
{
    if s.len() == 0 {
        None
    } else if s[0] == '"' {
        Some((Seq::empty(), s.skip(1)))
    } else if s[0] == '\\' {
        if s.len() >= 2 {
            if s[1] == 'u' {
                match hex4(s.skip(2)) {
                    None => None,
                    Some(n) => if 0xD800 <= n && n < 0xDC00 {
                        // high surrogate: a low one must follow
                        if s.len() >= 12 && s[6] == '\\' && s[7] == 'u' {
                            match hex4(s.skip(8)) {
                                None => None,
                                Some(n2) => if 0xDC00 <= n2 && n2 < 0xE000 {
                                    match char_from_code(
                                        0x10000 + (n - 0xD800) * 0x400 + (n2 - 0xDC00),
                                    ) {
                                        Some(c) => match parse_str_chars(s.skip(12)) {
                                            Some(p) => Some((seq![c] + p.0, p.1)),
                                            None => None,
                                        },
                                        None => None,
                                    }
                                } else {
                                    None
                                },
                            }
                        } else {
                            None
                        }
                    } else if 0xDC00 <= n && n < 0xE000 {
                        // a lone low surrogate names no character
                        None
                    } else {
                        match char_from_code(n) {
                            Some(c) => match parse_str_chars(s.skip(6)) {
                                Some(p) => Some((seq![c] + p.0, p.1)),
                                None => None,
                            },
                            None => None,
                        }
                    },
                }
            } else {
                match unesc_char(s[1]) {
                    Some(c) => match parse_str_chars(s.skip(2)) {
                        Some(p) => Some((seq![c] + p.0, p.1)),
                        None => None,
                    },
                    None => None,
                }
            }
        } else {
            None
        }
    } else {
        match parse_str_chars(s.skip(1)) {
            Some(p) => Some((seq![s[0]] + p.0, p.1)),
            None => None,
        }
    }
}

/// `o` with `a` prepended to the content of a successful parse.
pub open spec fn prepend_parsed(a: Seq<char>, o: Option<(Seq<char>, Seq<char>)>) -> Option<
    (Seq<char>, Seq<char>),
> {
    match o {
        Some(p) => Some((a + p.0, p.1)),
        None => None,
    }
}

/// Reads one `\u` escape starting at the backslash `v[cur]`: the character
/// it names — via a surrogate pair where the four digits name a high
/// surrogate — and the index just past the escape.
fn read_u_escape_at(v: &Vec<char>, cur: usize) -> (r: Option<(char, usize)>)
    requires
        cur + 1 < v@.len(),
        v@[cur as int] == '\\',
        v@[cur as int + 1] == 'u',
    ensures
        match r {
            Some(p) => cur < p.1 <= v@.len() && parse_str_chars(v@.skip(cur as int))
                == prepend_parsed(seq![p.0], parse_str_chars(v@.skip(p.1 as int))),
            None => parse_str_chars(v@.skip(cur as int)) == None::<(Seq<char>, Seq<char>)>,
        },
{
    let ghost s = v@.skip(cur as int);
    let vn = v.len();
    proof {
        assert(s[0] == v@[cur as int]);
        assert(s[1] == v@[cur as int + 1]);
        assert(s.skip(2) =~= v@.skip(cur as int + 2));
    }
    let n = match read_hex4(v, cur + 2) {
        Some(n) => n,
        None => {
            return None;
        },
    };
    if 0xD800 <= n && n < 0xDC00 {
        // high surrogate: a low-surrogate escape must follow
        if vn - cur < 12 {
            proof {
                assert(s.len() < 12);
            }
            return None;
        }
        proof {
            assert(s[6] == v@[cur as int + 6]);
            assert(s[7] == v@[cur as int + 7]);
            assert(s.skip(8) =~= v@.skip(cur as int + 8));
        }
        if !(v[cur + 6] == '\\' && v[cur + 7] == 'u') {
            return None;
        }
        let n2 = match read_hex4(v, cur + 8) {
            Some(n2) => n2,
            None => {
                return None;
            },
        };
        if 0xDC00 <= n2 && n2 < 0xE000 {
            let cp: u32 = 0x10000 + (n - 0xD800) * 0x400 + (n2 - 0xDC00);
            match char_from_u32_checked(cp) {
                Some(c) => {
                    proof {
                        lemma_char_code_range(c);
                        assert(c as u32 == cp);
                        assert(c as int == cp as int);
                        lemma_char_from_code_of(c, cp as int);
                        assert(s.skip(12) =~= v@.skip(cur as int + 12));
                        assert(parse_str_chars(s) == prepend_parsed(
                            seq![c],
                            parse_str_chars(v@.skip(cur as int + 12)),
                        ));
                    }
                    Some((c, cur + 12))
                },
                None => {
                    proof {
                        assert(false);
                    }
                    None
                },
            }
        } else {
            None
        }
    } else if 0xDC00 <= n && n < 0xE000 {
        None
    } else {
        // a code in the basic plane outside the surrogate range is always a
        // valid scalar value
        match char_from_u32_checked(n) {
            Some(c) => {
                proof {
                    lemma_char_code_range(c);
                    assert(c as u32 == n);
                    assert(c as int == n as int);
                    lemma_char_from_code_of(c, n as int);
                    assert(s.skip(6) =~= v@.skip(cur as int + 6));
                    assert(parse_str_chars(s) == prepend_parsed(
                        seq![c],
                        parse_str_chars(v@.skip(cur as int + 6)),
                    ));
                }
                Some((c, cur + 6))
            },
            None => {
                proof {
                    assert(false);
                }
                None
            },
        }
    }
}

/// Reads the string body starting at `v[i]` (just after an opening quote).
/// On success returns the content and the index just past the closing quote.
pub fn parse_string_at(v: &Vec<char>, i: usize) -> (r: Option<(Vec<char>, usize)>)
    requires
        i <= v@.len(),
    ensures
        match r {
            Some(p) => i < p.1 <= v@.len() && parse_str_chars(v@.skip(i as int)) == Some(
                (p.0@, v@.skip(p.1 as int)),
            ),
            None => parse_str_chars(v@.skip(i as int)) == None::<(Seq<char>, Seq<char>)>,
        },
{
    let mut acc: Vec<char> = Vec::new();
    let mut cur: usize = i;
    loop
        invariant
            i <= cur <= v@.len(),
            parse_str_chars(v@.skip(i as int)) == prepend_parsed(
                acc@,
                parse_str_chars(v@.skip(cur as int)),
            ),
        decreases v@.len() - cur,
    {
        if cur >= v.len() {
            return None;
        }
        proof {
            assert(v@.skip(cur as int)[0] == v@[cur as int]);
        }
        let c = v[cur];
        if c == '"' {
            proof {
                assert(acc@ + Seq::<char>::empty() =~= acc@);
            }
            return Some((acc, cur + 1));
        } else if c == '\\' {
            if cur + 1 >= v.len() {
                return None;
            }
            proof {
                assert(v@.skip(cur as int)[1] == v@[cur as int + 1]);
            }
            let e = v[cur + 1];
            if e == 'u' {
                match read_u_escape_at(v, cur) {
                    Some((uc, j)) => {
                        let ghost old_acc = acc@;
                        acc.push(uc);
                        proof {
                            assert forall|p: (Seq<char>, Seq<char>)|
                                old_acc + (seq![uc] + p.0) =~= acc@ + p.0 by {}
                            assert(parse_str_chars(v@.skip(i as int)) == prepend_parsed(
                                acc@,
                                parse_str_chars(v@.skip(j as int)),
                            ));
                        }
                        cur = j;
                    },
                    None => {
                        return None;
                    },
                }
            } else {
                match unesc_char_exec(e) {
                    Some(uc) => {
                        proof {
                            assert(v@.skip(cur as int).skip(2) =~= v@.skip(cur as int + 2));
                        }
                        let ghost old_acc = acc@;
                        acc.push(uc);
                        proof {
                            assert forall|p: (Seq<char>, Seq<char>)|
                                old_acc + (seq![uc] + p.0) =~= acc@ + p.0 by {}
                            assert(parse_str_chars(v@.skip(i as int)) == prepend_parsed(
                                acc@,
                                parse_str_chars(v@.skip(cur as int + 2)),
                            ));
                        }
                        cur = cur + 2;
                    },
                    None => {
                        return None;
                    },
                }
            }
        } else {
            proof {
                assert(v@.skip(cur as int).skip(1) =~= v@.skip(cur as int + 1));
            }
            let ghost old_acc = acc@;
            acc.push(c);
            proof {
                assert forall|p: (Seq<char>, Seq<char>)|
                    old_acc + (seq![c] + p.0) =~= acc@ + p.0 by {}
                assert(parse_str_chars(v@.skip(i as int)) == prepend_parsed(
                    acc@,
                    parse_str_chars(v@.skip(cur as int + 1)),
                ));
            }
            cur = cur + 1;
        }
    }
}

/// Reading a string body undoes escaping: an escaped text followed by a
/// closing quote parses back to the original text, leaving the tail.
pub proof fn lemma_parse_escaped(x: Seq<char>, rest: Seq<char>)
    ensures
        parse_str_chars(esc_str(x) + seq!['"'] + rest) == Some((x, rest)),
    decreases x.len(),
{
    let s = esc_str(x) + seq!['"'] + rest;
    if x.len() == 0 {
        assert(s =~= seq!['"'] + rest);
        assert(s[0] == '"');
        assert(s.skip(1) =~= rest);
        assert(x =~= Seq::<char>::empty());
    } else {
        let c = x[0];
        let x1 = x.skip(1);
        lemma_parse_escaped(x1, rest);
        let s1 = esc_str(x1) + seq!['"'] + rest;
        assert(esc_str(x) == esc_char(c) + esc_str(x1));
        if esc_char(c).len() == 2 {
            let e = esc_char(c)[1];
            assert(s[0] == esc_char(c)[0]);
            assert(s[0] == '\\');
            assert(s.len() >= 2);
            assert(s[1] == e);
            assert(e != 'u');
            assert(unesc_char(e) == Some(c));
            assert(s.skip(2) =~= s1);
            assert(parse_str_chars(s) == Some((seq![c] + x1, rest)));
            assert(seq![c] + x1 =~= x);
        } else if esc_char(c).len() == 6 {
            // an unnamed control character, written `\u00XX`
            let code = c as int;
            lemma_char_code_range(c);
            assert(0 <= code && code < 0x20);
            let h1 = hex_digit(code / 16);
            let h2 = hex_digit(code % 16);
            assert(s[0] == esc_char(c)[0]);
            assert(s[0] == '\\');
            assert(s.len() >= 6);
            assert(s[1] == esc_char(c)[1]);
            assert(s[1] == 'u');
            let s2 = s.skip(2);
            assert(s2[0] == s[2] && s[2] == esc_char(c)[2]);
            assert(s2[1] == s[3] && s[3] == esc_char(c)[3]);
            assert(s2[2] == s[4] && s[4] == esc_char(c)[4]);
            assert(s2[3] == s[5] && s[5] == esc_char(c)[5]);
            assert(s2[0] == '0' && s2[1] == '0' && s2[2] == h1 && s2[3] == h2);
            lemma_hex_digit_val(code / 16);
            lemma_hex_digit_val(code % 16);
            assert(hex_val('0') == Some(0int));
            assert(hex4(s2) == Some(0 * 4096 + 0 * 256 + (code / 16) * 16 + code % 16));
            assert((code / 16) * 16 + code % 16 == code);
            assert(hex4(s2) == Some(code));
            assert(!(0xD800 <= code && code < 0xDC00));
            assert(!(0xDC00 <= code && code < 0xE000));
            lemma_char_from_code_of(c, code);
            assert(s.skip(6) =~= s1);
            assert(parse_str_chars(s) == Some((seq![c] + x1, rest)));
            assert(seq![c] + x1 =~= x);
        } else {
            assert(esc_char(c) =~= seq![c]);
            assert(s[0] == c);
            assert(c != '"' && c != '\\');
            assert(s.skip(1) =~= s1);
            assert(parse_str_chars(s) == Some((seq![c] + x1, rest)));
            assert(seq![c] + x1 =~= x);
        }
    }
}

// ---------------------------------------------------------------------------
// Whitespace and literals
// ---------------------------------------------------------------------------
pub open spec fn is_ws(c: char) -> bool {
    c == ' ' || c == '\n' || c == '\r' || c == '\t'
}

/// `s` with its leading whitespace removed.
pub open spec fn skip_ws(s: Seq<char>) -> Seq<char>
    decreases s.len(),
{
    if s.len() > 0 && is_ws(s[0]) {
        skip_ws(s.skip(1))
    } else {
        s
    }
}

/// Advances `i` past the whitespace at `v[i]`.
pub fn skip_ws_at(v: &Vec<char>, i: usize) -> (j: usize)
    requires
        i <= v@.len(),
    ensures
        i <= j <= v@.len(),
        skip_ws(v@.skip(i as int)) == v@.skip(j as int),
{
    let mut cur: usize = i;
    while cur < v.len() && (v[cur] == ' ' || v[cur] == '\n' || v[cur] == '\r' || v[cur] == '\t')
        invariant
            i <= cur <= v@.len(),
            skip_ws(v@.skip(i as int)) == skip_ws(v@.skip(cur as int)),
        decreases v@.len() - cur,
    {
        proof {
            assert(v@.skip(cur as int)[0] == v@[cur as int]);
            assert(v@.skip(cur as int).skip(1) =~= v@.skip(cur as int + 1));
        }
        cur = cur + 1;
    }
    proof {
        if cur < v@.len() {
            assert(v@.skip(cur as int)[0] == v@[cur as int]);
        }
    }
    cur
}

/// Does `s` start with `lit`?
pub open spec fn starts_with(s: Seq<char>, lit: Seq<char>) -> bool {
    lit.len() <= s.len() && s.subrange(0, lit.len() as int) == lit
}

/// Consumes the exact text `lit` at `v[i]`: the index just past it, or `None`
/// if the input reads otherwise there.
pub fn eat_lit(v: &Vec<char>, i: usize, lit: &str) -> (r: Option<usize>)
    requires
        i <= v@.len(),
    ensures
        match r {
            Some(j) => i <= j <= v@.len() && j == i + lit@.len() && starts_with(
                v@.skip(i as int),
                lit@,
            ),
            None => !starts_with(v@.skip(i as int), lit@),
        },
{
    let lc = crate::util::chars_of(lit);
    let n = lc.len();
    let vn = v.len();
    if n > vn - i {
        proof {
            assert(v@.skip(i as int).len() == v@.len() - i);
        }
        return None;
    }
    let mut k: usize = 0;
    while k < n
        invariant
            k <= n,
            n == lit@.len(),
            lc@ == lit@,
            vn == v@.len(),
            i + n <= vn,
            forall|m: int| 0 <= m < k ==> v@[i + m] == lit@[m],
        decreases n - k,
    {
        if v[i + k] != lc[k] {
            proof {
                assert(v@.skip(i as int).subrange(0, lit@.len() as int)[k as int] == v@[i + k]);
            }
            return None;
        }
        k = k + 1;
    }
    proof {
        assert(v@.skip(i as int).subrange(0, lit@.len() as int) =~= lit@);
    }
    Some(i + n)
}

// ---------------------------------------------------------------------------
// Decimal numerals
// ---------------------------------------------------------------------------
/// The numeral of one decimal digit.
pub open spec fn digit_char(d: int) -> char {
    if d == 0 {
        '0'
    } else if d == 1 {
        '1'
    } else if d == 2 {
        '2'
    } else if d == 3 {
        '3'
    } else if d == 4 {
        '4'
    } else if d == 5 {
        '5'
    } else if d == 6 {
        '6'
    } else if d == 7 {
        '7'
    } else if d == 8 {
        '8'
    } else {
        '9'
    }
}

/// The decimal numeral of `n`, most significant digit first, no sign and no
/// leading zeros (except for `0` itself).
pub open spec fn dec_str(n: nat) -> Seq<char>
    decreases n,
{
    if n < 10 {
        seq![digit_char(n as int)]
    } else {
        dec_str(n / 10) + seq![digit_char((n % 10) as int)]
    }
}

/// The decimal numeral of `n`, `-` first where `n` is negative.
pub open spec fn dec_str_int(n: int) -> Seq<char> {
    if n < 0 {
        seq!['-'] + dec_str((-n) as nat)
    } else {
        dec_str(n as nat)
    }
}

fn digit_exec(d: u64) -> (c: char)
    requires
        d < 10,
    ensures
        c == digit_char(d as int),
{
    if d == 0 {
        '0'
    } else if d == 1 {
        '1'
    } else if d == 2 {
        '2'
    } else if d == 3 {
        '3'
    } else if d == 4 {
        '4'
    } else if d == 5 {
        '5'
    } else if d == 6 {
        '6'
    } else if d == 7 {
        '7'
    } else if d == 8 {
        '8'
    } else {
        '9'
    }
}

/// Appends the decimal numeral of `n`.
pub fn push_dec_u64(out: &mut Vec<char>, n: u64)
    ensures
        final(out)@ == old(out)@ + dec_str(n as nat),
    decreases n,
{
    if n < 10 {
        let c = digit_exec(n);
        out.push(c);
        proof {
            assert(out@ =~= old(out)@ + dec_str(n as nat));
        }
    } else {
        push_dec_u64(out, n / 10);
        let c = digit_exec(n % 10);
        out.push(c);
        proof {
            assert(out@ =~= old(out)@ + dec_str(n as nat));
        }
    }
}

/// Appends the decimal numeral of `n`, sign included.
pub fn push_dec_i64(out: &mut Vec<char>, n: i64)
    requires
        n > i64::MIN,
    ensures
        final(out)@ == old(out)@ + dec_str_int(n as int),
{
    if n < 0 {
        out.push('-');
        let m: u64 = (-n) as u64;
        push_dec_u64(out, m);
        proof {
            assert(out@ =~= old(out)@ + dec_str_int(n as int));
        }
    } else {
        push_dec_u64(out, n as u64);
    }
}

/// Do the characters of `cs` read exactly as `s`?
pub fn chars_eq_str(cs: &Vec<char>, s: &str) -> (r: bool)
    ensures
        r == (cs@ == s@),
{
    let sc = crate::util::chars_of(s);
    if cs.len() != sc.len() {
        proof {
            assert(cs@.len() != s@.len());
        }
        return false;
    }
    let n = cs.len();
    let mut i: usize = 0;
    while i < n
        invariant
            i <= n,
            n == cs@.len(),
            n == sc@.len(),
            sc@ == s@,
            forall|m: int| 0 <= m < i ==> cs@[m] == s@[m],
        decreases n - i,
    {
        if cs[i] != sc[i] {
            return false;
        }
        i = i + 1;
    }
    proof {
        assert(cs@ =~= s@);
    }
    true
}

/// The view of an optional buffer of characters.
pub open spec fn opt_view(o: Option<Vec<char>>) -> Option<Seq<char>> {
    match o {
        Some(v) => Some(v@),
        None => None,
    }
}

// ---------------------------------------------------------------------------
// Skipping values the schema does not consume
// ---------------------------------------------------------------------------
/// Characters a numeric token is made of. Lenient: the schema only ever
/// skips numbers, never reads them.
pub open spec fn is_num_char(c: char) -> bool {
    ('0' <= c && c <= '9') || c == '-' || c == '+' || c == '.' || c == 'e' || c == 'E'
}

fn is_num_char_exec(c: char) -> (r: bool)
    ensures
        r == is_num_char(c),
{
    ('0' <= c && c <= '9') || c == '-' || c == '+' || c == '.' || c == 'e' || c == 'E'
}

/// `s` with its leading numeric characters removed.
pub open spec fn skip_num(s: Seq<char>) -> Seq<char>
    decreases s.len(),
{
    if s.len() > 0 && is_num_char(s[0]) {
        skip_num(s.skip(1))
    } else {
        s
    }
}

fn skip_num_at(v: &Vec<char>, i: usize) -> (j: usize)
    requires
        i <= v@.len(),
    ensures
        i <= j <= v@.len(),
        skip_num(v@.skip(i as int)) == v@.skip(j as int),
{
    let mut cur: usize = i;
    while cur < v.len() && is_num_char_exec(v[cur])
        invariant
            i <= cur <= v@.len(),
            skip_num(v@.skip(i as int)) == skip_num(v@.skip(cur as int)),
        decreases v@.len() - cur,
    {
        proof {
            assert(v@.skip(cur as int)[0] == v@[cur as int]);
            assert(v@.skip(cur as int).skip(1) =~= v@.skip(cur as int + 1));
        }
        cur = cur + 1;
    }
    proof {
        if cur < v@.len() {
            assert(v@.skip(cur as int)[0] == v@[cur as int]);
        }
    }
    cur
}

/// Consumes one value of any shape: a string, an object, an array, one of
/// the three literal words, or a number. `fuel` bounds the recursion; the
/// input length is always fuel enough.
pub open spec fn skip_value(s: Seq<char>, fuel: nat) -> Option<Seq<char>>
    decreases fuel,
{
    if fuel == 0 {
        None
    } else {
        let s0 = skip_ws(s);
        if s0.len() == 0 {
            None
        } else if s0[0] == '"' {
            match parse_str_chars(s0.skip(1)) {
                Some(p) => Some(p.1),
                None => None,
            }
        } else if s0[0] == '{' {
            skip_members(s0.skip(1), (fuel - 1) as nat)
        } else if s0[0] == '[' {
            skip_elems(s0.skip(1), (fuel - 1) as nat)
        } else if starts_with(s0, "true"@) {
            Some(s0.skip("true"@.len() as int))
        } else if starts_with(s0, "false"@) {
            Some(s0.skip("false"@.len() as int))
        } else if starts_with(s0, "null"@) {
            Some(s0.skip("null"@.len() as int))
        } else if is_num_char(s0[0]) {
            Some(skip_num(s0.skip(1)))
        } else {
            None
        }
    }
}

/// Consumes the members of an object after its opening brace, up to and
/// including the closing brace.
pub open spec fn skip_members(s: Seq<char>, fuel: nat) -> Option<Seq<char>>
    decreases fuel,
{
    if fuel == 0 {
        None
    } else {
        let s0 = skip_ws(s);
        if s0.len() == 0 {
            None
        } else if s0[0] == '}' {
            Some(s0.skip(1))
        } else if s0[0] != '"' {
            None
        } else {
            match parse_str_chars(s0.skip(1)) {
                None => None,
                Some(key_p) => {
                    let s2 = skip_ws(key_p.1);
                    if s2.len() == 0 || s2[0] != ':' {
                        None
                    } else {
                        match skip_value(s2.skip(1), (fuel - 1) as nat) {
                            None => None,
                            Some(s3) => {
                                let s4 = skip_ws(s3);
                                if s4.len() == 0 {
                                    None
                                } else if s4[0] == ',' {
                                    skip_members(s4.skip(1), (fuel - 1) as nat)
                                } else if s4[0] == '}' {
                                    Some(s4.skip(1))
                                } else {
                                    None
                                }
                            },
                        }
                    }
                },
            }
        }
    }
}

/// Consumes the elements of an array after its opening bracket, up to and
/// including the closing bracket.
pub open spec fn skip_elems(s: Seq<char>, fuel: nat) -> Option<Seq<char>>
    decreases fuel,
{
    if fuel == 0 {
        None
    } else {
        let s0 = skip_ws(s);
        if s0.len() == 0 {
            None
        } else if s0[0] == ']' {
            Some(s0.skip(1))
        } else {
            match skip_value(s0, (fuel - 1) as nat) {
                None => None,
                Some(s1) => {
                    let s2 = skip_ws(s1);
                    if s2.len() == 0 {
                        None
                    } else if s2[0] == ',' {
                        skip_elems(s2.skip(1), (fuel - 1) as nat)
                    } else if s2[0] == ']' {
                        Some(s2.skip(1))
                    } else {
                        None
                    }
                },
            }
        }
    }
}

/// Executable form of `skip_value`.
pub fn skip_value_at(v: &Vec<char>, i: usize, fuel: usize) -> (r: Option<usize>)
    requires
        i <= v@.len(),
    ensures
        match r {
            Some(j) => i <= j <= v@.len() && skip_value(v@.skip(i as int), fuel as nat) == Some(
                v@.skip(j as int),
            ),
            None => skip_value(v@.skip(i as int), fuel as nat) == None::<Seq<char>>,
        },
    decreases fuel,
{
    if fuel == 0 {
        return None;
    }
    let j0 = skip_ws_at(v, i);
    if j0 >= v.len() {
        proof {
            assert(v@.skip(j0 as int).len() == 0);
        }
        return None;
    }
    proof {
        assert(v@.skip(j0 as int)[0] == v@[j0 as int]);
        assert(v@.skip(j0 as int).skip(1) =~= v@.skip(j0 as int + 1));
    }
    let c = v[j0];
    if c == '"' {
        match parse_string_at(v, j0 + 1) {
            Some(p) => Some(p.1),
            None => None,
        }
    } else if c == '{' {
        skip_members_at(v, j0 + 1, fuel - 1)
    } else if c == '[' {
        skip_elems_at(v, j0 + 1, fuel - 1)
    } else {
        match eat_lit(v, j0, "true") {
            Some(j) => {
                proof {
                    assert(v@.skip(j0 as int).skip("true"@.len() as int) =~= v@.skip(j as int));
                }
                return Some(j);
            },
            None => {},
        }
        match eat_lit(v, j0, "false") {
            Some(j) => {
                proof {
                    assert(!starts_with(v@.skip(j0 as int), "true"@));
                    assert(v@.skip(j0 as int).skip("false"@.len() as int) =~= v@.skip(j as int));
                }
                return Some(j);
            },
            None => {},
        }
        match eat_lit(v, j0, "null") {
            Some(j) => {
                proof {
                    assert(v@.skip(j0 as int).skip("null"@.len() as int) =~= v@.skip(j as int));
                }
                return Some(j);
            },
            None => {},
        }
        if is_num_char_exec(c) {
            let j = skip_num_at(v, j0 + 1);
            Some(j)
        } else {
            None
        }
    }
}

/// Executable form of `skip_members`.
pub fn skip_members_at(v: &Vec<char>, i: usize, fuel: usize) -> (r: Option<usize>)
    requires
        i <= v@.len(),
    ensures
        match r {
            Some(j) => i <= j <= v@.len() && skip_members(v@.skip(i as int), fuel as nat) == Some(
                v@.skip(j as int),
            ),
            None => skip_members(v@.skip(i as int), fuel as nat) == None::<Seq<char>>,
        },
    decreases fuel,
{
    if fuel == 0 {
        return None;
    }
    let j0 = skip_ws_at(v, i);
    if j0 >= v.len() {
        proof {
            assert(v@.skip(j0 as int).len() == 0);
        }
        return None;
    }
    proof {
        assert(v@.skip(j0 as int)[0] == v@[j0 as int]);
        assert(v@.skip(j0 as int).skip(1) =~= v@.skip(j0 as int + 1));
    }
    let c = v[j0];
    if c == '}' {
        return Some(j0 + 1);
    }
    if c != '"' {
        return None;
    }
    let key = match parse_string_at(v, j0 + 1) {
        Some(p) => p,
        None => {
            return None;
        },
    };
    let j2 = skip_ws_at(v, key.1);
    if j2 >= v.len() {
        proof {
            assert(v@.skip(j2 as int).len() == 0);
        }
        return None;
    }
    proof {
        assert(v@.skip(j2 as int)[0] == v@[j2 as int]);
        assert(v@.skip(j2 as int).skip(1) =~= v@.skip(j2 as int + 1));
    }
    if v[j2] != ':' {
        return None;
    }
    let j3 = match skip_value_at(v, j2 + 1, fuel - 1) {
        Some(j) => j,
        None => {
            return None;
        },
    };
    let j4 = skip_ws_at(v, j3);
    if j4 >= v.len() {
        proof {
            assert(v@.skip(j4 as int).len() == 0);
        }
        return None;
    }
    proof {
        assert(v@.skip(j4 as int)[0] == v@[j4 as int]);
        assert(v@.skip(j4 as int).skip(1) =~= v@.skip(j4 as int + 1));
    }
    let c4 = v[j4];
    if c4 == ',' {
        skip_members_at(v, j4 + 1, fuel - 1)
    } else if c4 == '}' {
        Some(j4 + 1)
    } else {
        None
    }
}

/// Executable form of `skip_elems`.
pub fn skip_elems_at(v: &Vec<char>, i: usize, fuel: usize) -> (r: Option<usize>)
    requires
        i <= v@.len(),
    ensures
        match r {
            Some(j) => i <= j <= v@.len() && skip_elems(v@.skip(i as int), fuel as nat) == Some(
                v@.skip(j as int),
            ),
            None => skip_elems(v@.skip(i as int), fuel as nat) == None::<Seq<char>>,
        },
    decreases fuel,
{
    if fuel == 0 {
        return None;
    }
    let j0 = skip_ws_at(v, i);
    if j0 >= v.len() {
        proof {
            assert(v@.skip(j0 as int).len() == 0);
        }
        return None;
    }
    proof {
        assert(v@.skip(j0 as int)[0] == v@[j0 as int]);
        assert(v@.skip(j0 as int).skip(1) =~= v@.skip(j0 as int + 1));
    }
    if v[j0] == ']' {
        return Some(j0 + 1);
    }
    let j1 = match skip_value_at(v, j0, fuel - 1) {
        Some(j) => j,
        None => {
            return None;
        },
    };
    let j2 = skip_ws_at(v, j1);
    if j2 >= v.len() {
        proof {
            assert(v@.skip(j2 as int).len() == 0);
        }
        return None;
    }
    proof {
        assert(v@.skip(j2 as int)[0] == v@[j2 as int]);
        assert(v@.skip(j2 as int).skip(1) =~= v@.skip(j2 as int + 1));
    }
    let c2 = v[j2];
    if c2 == ',' {
        skip_elems_at(v, j2 + 1, fuel - 1)
    } else if c2 == ']' {
        Some(j2 + 1)
    } else {
        None
    }
}

} // verus!
