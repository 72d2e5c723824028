//! A strict scanner for flat JSON objects whose member values are scalars
//! (strings, numbers, booleans, null), together with the matching
//! encoders. String values take the short escapes and `\uXXXX` hex escapes
//! (surrogate pairs included) and must be well-formed UTF-8; numbers take
//! fraction and exponent parts. Both directions are specified by recursive
//! spec functions over the raw byte sequence; the executable code is
//! proved to compute exactly those functions.
use vstd::prelude::*;
use crate::bytes::dec_of;

verus! {

/// JSON insignificant whitespace.
pub open spec fn is_ws(b: u8) -> bool {
    b == 32 || b == 9 || b == 10 || b == 13
}

/// ASCII decimal digit.
pub open spec fn is_digit(b: u8) -> bool {
    48 <= b <= 57
}

/// A decoded scalar member value.
pub enum Scalar {
    SStr(Vec<u8>),
    SNum(Vec<u8>),
    SBool(bool),
    SNull,
}

/// Spec-level image of a [`Scalar`].
#[verifier::ext_equal]
pub enum ScalarV {
    Str(Seq<u8>),
    Num(Seq<u8>),
    Bool(bool),
    Null,
}

impl View for Scalar {
    type V = ScalarV;

    open spec fn view(&self) -> ScalarV {
        match self {
            Scalar::SStr(t) => ScalarV::Str(t@),
            Scalar::SNum(t) => ScalarV::Num(t@),
            Scalar::SBool(b) => ScalarV::Bool(*b),
            Scalar::SNull => ScalarV::Null,
        }
    }
}

/// The members of a decoded object, in source order.
pub type Members = Vec<(Vec<u8>, Scalar)>;

/// Spec-level image of [`Members`].
pub open spec fn members_v(ms: Seq<(Vec<u8>, Scalar)>) -> Seq<(Seq<u8>, ScalarV)> {
    ms.map(|i: int, p: (Vec<u8>, Scalar)| (p.0@, p.1@))
}

/// First position at or after `i` that holds no whitespace.
pub open spec fn skip_ws(s: Seq<u8>, i: int) -> int
    decreases s.len() - i,
{
    if 0 <= i && i < s.len() && is_ws(s[i]) {
        skip_ws(s, i + 1)
    } else {
        i
    }
}

/// First position at or after `i` that holds no digit.
pub open spec fn span_digits(s: Seq<u8>, i: int) -> int
    decreases s.len() - i,
{
    if 0 <= i && i < s.len() && is_digit(s[i]) {
        span_digits(s, i + 1)
    } else {
        i
    }
}

/// A UTF-8 continuation byte.
pub open spec fn is_cont(b: u8) -> bool {
    128 <= b <= 191
}

/// The length of the well-formed multibyte UTF-8 sequence that starts at
/// `i` (2, 3 or 4), or 0 where none does: overlong forms, surrogate code
/// points and truncated sequences all yield 0.
pub open spec fn utf8_mb_len(s: Seq<u8>, i: int) -> int {
    if !(0 <= i && i < s.len()) {
        0
    } else {
        let b = s[i];
        if 194 <= b && b <= 223 {
            if i + 1 < s.len() && is_cont(s[i + 1]) {
                2
            } else {
                0
            }
        } else if b == 224 {
            if i + 2 < s.len() && 160 <= s[i + 1] <= 191 && is_cont(s[i + 2]) {
                3
            } else {
                0
            }
        } else if (225 <= b && b <= 236) || b == 238 || b == 239 {
            if i + 2 < s.len() && is_cont(s[i + 1]) && is_cont(s[i + 2]) {
                3
            } else {
                0
            }
        } else if b == 237 {
            if i + 2 < s.len() && 128 <= s[i + 1] <= 159 && is_cont(s[i + 2]) {
                3
            } else {
                0
            }
        } else if b == 240 {
            if i + 3 < s.len() && 144 <= s[i + 1] <= 191 && is_cont(s[i + 2]) && is_cont(
                s[i + 3],
            ) {
                4
            } else {
                0
            }
        } else if 241 <= b && b <= 243 {
            if i + 3 < s.len() && is_cont(s[i + 1]) && is_cont(s[i + 2]) && is_cont(s[i + 3]) {
                4
            } else {
                0
            }
        } else if b == 244 {
            if i + 3 < s.len() && 128 <= s[i + 1] <= 143 && is_cont(s[i + 2]) && is_cont(
                s[i + 3],
            ) {
                4
            } else {
                0
            }
        } else {
            0
        }
    }
}

/// The value of one hex digit, or -1.
pub open spec fn hex_val(b: u8) -> int {
    if 48 <= b && b <= 57 {
        b - 48
    } else if 97 <= b && b <= 102 {
        b - 87
    } else if 65 <= b && b <= 70 {
        b - 55
    } else {
        -1
    }
}

/// The value of the four hex digits at `i`, or -1.
pub open spec fn hex4(s: Seq<u8>, i: int) -> int {
    if 0 <= i && i + 3 < s.len() {
        if hex_val(s[i]) >= 0 && hex_val(s[i + 1]) >= 0 && hex_val(s[i + 2]) >= 0 && hex_val(
            s[i + 3],
        ) >= 0 {
            hex_val(s[i]) * 4096 + hex_val(s[i + 1]) * 256 + hex_val(s[i + 2]) * 16 + hex_val(
                s[i + 3],
            )
        } else {
            -1
        }
    } else {
        -1
    }
}

/// The UTF-8 encoding of the code point `c`.
pub open spec fn utf8_enc(c: int) -> Seq<u8> {
    if c < 128 {
        seq![c as u8]
    } else if c < 2048 {
        seq![(192 + c / 64) as u8, (128 + c % 64) as u8]
    } else if c < 65536 {
        seq![(224 + c / 4096) as u8, (128 + (c / 64) % 64) as u8, (128 + c % 64) as u8]
    } else {
        seq![
            (240 + c / 262144) as u8,
            (128 + (c / 4096) % 64) as u8,
            (128 + (c / 64) % 64) as u8,
            (128 + c % 64) as u8,
        ]
    }
}

/// What a backslash escape denotes, if it is one of the simple escapes.
pub open spec fn esc_byte(b: u8) -> Option<u8> {
    if b == 34 {
        Some(34u8)
    } else if b == 92 {
        Some(92u8)
    } else if b == 47 {
        Some(47u8)
    } else if b == 98 {
        Some(8u8)
    } else if b == 102 {
        Some(12u8)
    } else if b == 110 {
        Some(10u8)
    } else if b == 114 {
        Some(13u8)
    } else if b == 116 {
        Some(9u8)
    } else {
        None
    }
}

/// Scans a string body starting just after the opening quote: yields the
/// unescaped bytes and the position just after the closing quote.
/// Unescaped control bytes, unknown escapes, lone surrogates in hex
/// escapes and ill-formed UTF-8 are all rejected.
pub open spec fn parse_str_body(s: Seq<u8>, i: int) -> Option<(Seq<u8>, int)>
    decreases s.len() - i,
{
    if !(0 <= i && i < s.len()) {
        None
    } else if s[i] == 34 {
        Some((Seq::empty(), i + 1))
    } else if s[i] == 92 {
        if i + 1 < s.len() && s[i + 1] == 117 {
            if i + 5 < s.len() {
                let v = hex4(s, i + 2);
                if v < 0 {
                    None
                } else if 55296 <= v && v <= 56319 {
                    if i + 11 < s.len() && s[i + 6] == 92 && s[i + 7] == 117 {
                        let w = hex4(s, i + 8);
                        if 56320 <= w && w <= 57343 {
                            match parse_str_body(s, i + 12) {
                                Some(tj) => Some(
                                    (utf8_enc(65536 + (v - 55296) * 1024 + (w - 56320)) + tj.0, tj.1),
                                ),
                                None => None,
                            }
                        } else {
                            None
                        }
                    } else {
                        None
                    }
                } else if 56320 <= v && v <= 57343 {
                    None
                } else {
                    match parse_str_body(s, i + 6) {
                        Some(tj) => Some((utf8_enc(v) + tj.0, tj.1)),
                        None => None,
                    }
                }
            } else {
                None
            }
        } else if i + 1 < s.len() {
            match esc_byte(s[i + 1]) {
                Some(e) => match parse_str_body(s, i + 2) {
                    Some(tj) => Some((seq![e] + tj.0, tj.1)),
                    None => None,
                },
                None => None,
            }
        } else {
            None
        }
    } else if s[i] < 32 {
        None
    } else if s[i] < 128 {
        match parse_str_body(s, i + 1) {
            Some(tj) => Some((seq![s[i]] + tj.0, tj.1)),
            None => None,
        }
    } else {
        let n = utf8_mb_len(s, i);
        if n == 0 {
            None
        } else if i + n <= s.len() {
            match parse_str_body(s, i + n) {
                Some(tj) => Some((s.subrange(i, i + n) + tj.0, tj.1)),
                None => None,
            }
        } else {
            None
        }
    }
}

/// Scans a number token `-? (0 | [1-9][0-9]*) (. [0-9]+)? ([eE] [+-]? [0-9]+)?`
/// starting at `i`: yields the token's own bytes and the position after it.
pub open spec fn parse_number(s: Seq<u8>, i: int) -> Option<(Seq<u8>, int)> {
    let st = if 0 <= i && i < s.len() && s[i] == 45 {
        i + 1
    } else {
        i
    };
    let j = span_digits(s, st);
    if j == st {
        None
    } else if s[st] == 48 && j != st + 1 {
        None
    } else {
        let j2 = if j < s.len() && s[j] == 46 {
            let k = span_digits(s, j + 1);
            if k == j + 1 {
                -1
            } else {
                k
            }
        } else {
            j
        };
        if j2 < 0 {
            None
        } else {
            let j3 = if j2 < s.len() && (s[j2] == 101 || s[j2] == 69) {
                let es = if j2 + 1 < s.len() && (s[j2 + 1] == 43 || s[j2 + 1] == 45) {
                    j2 + 2
                } else {
                    j2 + 1
                };
                let m = span_digits(s, es);
                if m == es {
                    -1
                } else {
                    m
                }
            } else {
                j2
            };
            if j3 < 0 {
                None
            } else {
                Some((s.subrange(i, j3), j3))
            }
        }
    }
}

/// Scans one scalar value starting at `i`.
pub open spec fn parse_scalar(s: Seq<u8>, i: int) -> Option<(ScalarV, int)> {
    if !(0 <= i && i < s.len()) {
        None
    } else if s[i] == 34 {
        match parse_str_body(s, i + 1) {
            Some(tj) => Some((ScalarV::Str(tj.0), tj.1)),
            None => None,
        }
    } else if s[i] == 45 || is_digit(s[i]) {
        match parse_number(s, i) {
            Some(tj) => Some((ScalarV::Num(tj.0), tj.1)),
            None => None,
        }
    } else if i + 4 <= s.len() && s[i] == 116 && s[i + 1] == 114 && s[i + 2] == 117 && s[i + 3]
        == 101 {
        Some((ScalarV::Bool(true), i + 4))
    } else if i + 5 <= s.len() && s[i] == 102 && s[i + 1] == 97 && s[i + 2] == 108 && s[i + 3]
        == 115 && s[i + 4] == 101 {
        Some((ScalarV::Bool(false), i + 5))
    } else if i + 4 <= s.len() && s[i] == 110 && s[i + 1] == 117 && s[i + 2] == 108 && s[i + 3]
        == 108 {
        Some((ScalarV::Null, i + 4))
    } else {
        None
    }
}

/// Scans the member list of an object from the first key (position `i`,
/// whitespace already skipped) up to and including the closing brace.
pub open spec fn parse_members(s: Seq<u8>, i: int) -> Option<(Seq<(Seq<u8>, ScalarV)>, int)>
    decreases s.len() - i,
{
    if !(0 <= i && i < s.len() && s[i] == 34) {
        None
    } else {
        match parse_str_body(s, i + 1) {
            None => None,
            Some(kj) => {
                let j2 = skip_ws(s, kj.1);
                if !(0 <= j2 && j2 < s.len() && s[j2] == 58) {
                    None
                } else {
                    match parse_scalar(s, skip_ws(s, j2 + 1)) {
                        None => None,
                        Some(vj) => {
                            let j5 = skip_ws(s, vj.1);
                            if 0 <= j5 && j5 < s.len() && s[j5] == 44 {
                                let j6 = skip_ws(s, j5 + 1);
                                if i < j6 && j6 <= s.len() {
                                    match parse_members(s, j6) {
                                        None => None,
                                        Some(rj) => Some(
                                            (seq![(kj.0, vj.0)] + rj.0, rj.1),
                                        ),
                                    }
                                } else {
                                    None
                                }
                            } else if 0 <= j5 && j5 < s.len() && s[j5] == 125 {
                                Some((seq![(kj.0, vj.0)], j5 + 1))
                            } else {
                                None
                            }
                        },
                    }
                }
            },
        }
    }
}

/// Scans a whole object starting at its opening brace.
pub open spec fn parse_object(s: Seq<u8>, i: int) -> Option<(Seq<(Seq<u8>, ScalarV)>, int)> {
    if !(0 <= i && i < s.len() && s[i] == 123) {
        None
    } else {
        let j = skip_ws(s, i + 1);
        if 0 <= j && j < s.len() && s[j] == 125 {
            Some((Seq::empty(), j + 1))
        } else {
            parse_members(s, j)
        }
    }
}

/// The member list of a body that is one object with nothing but
/// whitespace around it; `None` if the body is malformed.
pub open spec fn parse_top(s: Seq<u8>) -> Option<Seq<(Seq<u8>, ScalarV)>> {
    match parse_object(s, skip_ws(s, 0)) {
        None => None,
        Some(mj) => if skip_ws(s, mj.1) == s.len() {
            Some(mj.0)
        } else {
            None
        },
    }
}

/// The value of the first member named `k`.
pub open spec fn find_field(ms: Seq<(Seq<u8>, ScalarV)>, k: Seq<u8>) -> Option<ScalarV>
    decreases ms.len(),
{
    if ms.len() == 0 {
        None
    } else if ms[0].0 == k {
        Some(ms[0].1)
    } else {
        find_field(ms.drop_first(), k)
    }
}

/// A token of decimal digits only: the integer numbers our typed fields take.
pub open spec fn is_int_token(t: Seq<u8>) -> bool {
    t.len() > 0 && forall|i: int| 0 <= i < t.len() ==> is_digit(#[trigger] t[i])
}

/// The numeric value of a digit token.
pub open spec fn digits_val(t: Seq<u8>) -> nat
    decreases t.len(),
{
    if t.len() == 0 {
        0
    } else {
        digits_val(t.drop_last()) * 10 + (t.last() - 48) as nat
    }
}

/// Runs [`skip_ws`].
pub fn skip_ws_exec(s: &Vec<u8>, i: usize) -> (r: usize)
    requires
        i <= s.len(),
    ensures
        r == skip_ws(s@, i as int),
        i <= r <= s@.len(),
{
    let mut j: usize = i;
    while j < s.len() && (s[j] == 32 || s[j] == 9 || s[j] == 10 || s[j] == 13)
        invariant
            i <= j <= s.len(),
            skip_ws(s@, i as int) == skip_ws(s@, j as int),
        decreases s.len() - j,
    {
        proof {
            assert(skip_ws(s@, j as int) == skip_ws(s@, j + 1 as int));
        }
        j += 1;
    }
    j
}

/// Runs [`span_digits`].
pub fn span_digits_exec(s: &Vec<u8>, i: usize) -> (r: usize)
    requires
        i <= s.len(),
    ensures
        r == span_digits(s@, i as int),
        i <= r <= s@.len(),
{
    let mut j: usize = i;
    while j < s.len() && 48 <= s[j] && s[j] <= 57
        invariant
            i <= j <= s.len(),
            span_digits(s@, i as int) == span_digits(s@, j as int),
        decreases s.len() - j,
    {
        proof {
            assert(span_digits(s@, j as int) == span_digits(s@, j + 1 as int));
        }
        j += 1;
    }
    j
}

/// The bytes of `s` from `a` up to `b`.
pub fn copy_range(s: &Vec<u8>, a: usize, b: usize) -> (r: Vec<u8>)
    requires
        a <= b <= s.len(),
    ensures
        r@ == s@.subrange(a as int, b as int),
{
    let mut out: Vec<u8> = Vec::new();
    let mut i: usize = a;
    while i < b
        invariant
            a <= i <= b <= s.len(),
            out@ == s@.subrange(a as int, i as int),
        decreases b - i,
    {
        out.push(s[i]);
        proof {
            assert(out@ =~= s@.subrange(a as int, i + 1 as int));
        }
        i += 1;
    }
    out
}

/// Runs [`esc_byte`].
pub fn esc_byte_exec(b: u8) -> (r: Option<u8>)
    ensures
        r == esc_byte(b),
{
    if b == 34 {
        Some(34)
    } else if b == 92 {
        Some(92)
    } else if b == 47 {
        Some(47)
    } else if b == 98 {
        Some(8)
    } else if b == 102 {
        Some(12)
    } else if b == 110 {
        Some(10)
    } else if b == 114 {
        Some(13)
    } else if b == 116 {
        Some(9)
    } else {
        None
    }
}

/// Runs [`utf8_mb_len`].
fn utf8_mb_len_exec(s: &Vec<u8>, i: usize) -> (r: usize)
    requires
        i < s.len(),
    ensures
        r == utf8_mb_len(s@, i as int),
{
    let b = s[i];
    if 194 <= b && b <= 223 {
        if s.len() - i >= 2 && 128 <= s[i + 1] && s[i + 1] <= 191 {
            2
        } else {
            0
        }
    } else if b == 224 {
        if s.len() - i >= 3 && 160 <= s[i + 1] && s[i + 1] <= 191 && 128 <= s[i + 2] && s[i + 2]
            <= 191 {
            3
        } else {
            0
        }
    } else if (225 <= b && b <= 236) || b == 238 || b == 239 {
        if s.len() - i >= 3 && 128 <= s[i + 1] && s[i + 1] <= 191 && 128 <= s[i + 2] && s[i + 2]
            <= 191 {
            3
        } else {
            0
        }
    } else if b == 237 {
        if s.len() - i >= 3 && 128 <= s[i + 1] && s[i + 1] <= 159 && 128 <= s[i + 2] && s[i + 2]
            <= 191 {
            3
        } else {
            0
        }
    } else if b == 240 {
        if s.len() - i >= 4 && 144 <= s[i + 1] && s[i + 1] <= 191 && 128 <= s[i + 2] && s[i + 2]
            <= 191 && 128 <= s[i + 3] && s[i + 3] <= 191 {
            4
        } else {
            0
        }
    } else if 241 <= b && b <= 243 {
        if s.len() - i >= 4 && 128 <= s[i + 1] && s[i + 1] <= 191 && 128 <= s[i + 2] && s[i + 2]
            <= 191 && 128 <= s[i + 3] && s[i + 3] <= 191 {
            4
        } else {
            0
        }
    } else if b == 244 {
        if s.len() - i >= 4 && 128 <= s[i + 1] && s[i + 1] <= 143 && 128 <= s[i + 2] && s[i + 2]
            <= 191 && 128 <= s[i + 3] && s[i + 3] <= 191 {
            4
        } else {
            0
        }
    } else {
        0
    }
}

/// Runs [`hex_val`], with -1 mapped to `None`.
fn hex_val_exec(b: u8) -> (r: Option<u32>)
    ensures
        match r {
            Some(v) => hex_val(b) == v as int && v < 16,
            None => hex_val(b) < 0,
        },
{
    if 48 <= b && b <= 57 {
        Some((b - 48) as u32)
    } else if 97 <= b && b <= 102 {
        Some((b - 87) as u32)
    } else if 65 <= b && b <= 70 {
        Some((b - 55) as u32)
    } else {
        None
    }
}

/// Runs [`hex4`], with -1 mapped to `None`.
fn hex4_exec(s: &Vec<u8>, i: usize) -> (r: Option<u32>)
    ensures
        match r {
            Some(v) => hex4(s@, i as int) == v as int && v <= 65535,
            None => hex4(s@, i as int) < 0,
        },
{
    if !(i < s.len() && s.len() - i >= 4) {
        return None;
    }
    match (hex_val_exec(s[i]), hex_val_exec(s[i + 1]), hex_val_exec(s[i + 2]), hex_val_exec(
        s[i + 3],
    )) {
        (Some(a), Some(b), Some(c), Some(d)) => Some(a * 4096 + b * 256 + c * 16 + d),
        _ => None,
    }
}

/// Runs [`utf8_enc`].
fn utf8_enc_vec(c: u32) -> (r: Vec<u8>)
    requires
        c <= 1114111,
    ensures
        r@ == utf8_enc(c as int),
{
    let mut v: Vec<u8> = Vec::new();
    if c < 128 {
        v.push(c as u8);
    } else if c < 2048 {
        v.push((192 + c / 64) as u8);
        v.push((128 + c % 64) as u8);
    } else if c < 65536 {
        v.push((224 + c / 4096) as u8);
        v.push((128 + (c / 64) % 64) as u8);
        v.push((128 + c % 64) as u8);
    } else {
        v.push((240 + c / 262144) as u8);
        v.push((128 + (c / 4096) % 64) as u8);
        v.push((128 + (c / 64) % 64) as u8);
        v.push((128 + c % 64) as u8);
    }
    proof {
        assert(v@ =~= utf8_enc(c as int));
    }
    v
}

/// Runs [`parse_str_body`].
pub fn parse_str_body_exec(s: &Vec<u8>, i: usize) -> (r: Option<(Vec<u8>, usize)>)
    requires
        i <= s.len(),
    ensures
        match r {
            Some(tj) => parse_str_body(s@, i as int) == Some((tj.0@, tj.1 as int)) && i < tj.1
                <= s.len(),
            None => parse_str_body(s@, i as int) is None,
        },
    decreases s.len() - i,
{
    if i >= s.len() {
        return None;
    }
    let b = s[i];
    if b == 34 {
        let t: Vec<u8> = Vec::new();
        proof {
            assert(t@ =~= Seq::<u8>::empty());
        }
        Some((t, i + 1))
    } else if b == 92 {
        if s.len() - i >= 2 && s[i + 1] == 117 {
            if !(s.len() - i >= 6) {
                return None;
            }
            let v = match hex4_exec(s, i + 2) {
                Some(v) => v,
                None => {
                    return None;
                },
            };
            if 55296 <= v && v <= 56319 {
                if !(s.len() - i >= 12 && s[i + 6] == 92 && s[i + 7] == 117) {
                    return None;
                }
                let w = match hex4_exec(s, i + 8) {
                    Some(w) => w,
                    None => {
                        return None;
                    },
                };
                if !(56320 <= w && w <= 57343) {
                    return None;
                }
                match parse_str_body_exec(s, i + 12) {
                    Some((t, j)) => {
                        let code: u32 = 65536 + (v - 55296) * 1024 + (w - 56320);
                        let mut enc = utf8_enc_vec(code);
                        crate::bytes::push_all(&mut enc, &t);
                        Some((enc, j))
                    },
                    None => None,
                }
            } else if 56320 <= v && v <= 57343 {
                None
            } else {
                match parse_str_body_exec(s, i + 6) {
                    Some((t, j)) => {
                        let mut enc = utf8_enc_vec(v);
                        crate::bytes::push_all(&mut enc, &t);
                        Some((enc, j))
                    },
                    None => None,
                }
            }
        } else if i + 1 < s.len() {
            match esc_byte_exec(s[i + 1]) {
                Some(e) => match parse_str_body_exec(s, i + 2) {
                    Some((mut t, j)) => {
                        let ghost t0 = t@;
                        t.insert(0, e);
                        proof {
                            assert(t@ =~= seq![e] + t0);
                        }
                        Some((t, j))
                    },
                    None => None,
                },
                None => None,
            }
        } else {
            None
        }
    } else if b < 32 {
        None
    } else if b < 128 {
        match parse_str_body_exec(s, i + 1) {
            Some((mut t, j)) => {
                let ghost t0 = t@;
                t.insert(0, b);
                proof {
                    assert(t@ =~= seq![b] + t0);
                }
                Some((t, j))
            },
            None => None,
        }
    } else {
        let n = utf8_mb_len_exec(s, i);
        if n == 0 {
            return None;
        }
        proof {
            assert(2 <= n <= 4 && i + n <= s.len());
        }
        match parse_str_body_exec(s, i + n) {
            Some((t, j)) => {
                let mut raw = copy_range(s, i, i + n);
                crate::bytes::push_all(&mut raw, &t);
                Some((raw, j))
            },
            None => None,
        }
    }
}

/// Runs [`parse_number`].
pub fn parse_number_exec(s: &Vec<u8>, i: usize) -> (r: Option<(Vec<u8>, usize)>)
    requires
        i <= s.len(),
    ensures
        match r {
            Some(tj) => parse_number(s@, i as int) == Some((tj.0@, tj.1 as int)) && i < tj.1
                <= s.len(),
            None => parse_number(s@, i as int) is None,
        },
{
    let st: usize = if i < s.len() && s[i] == 45 {
        i + 1
    } else {
        i
    };
    let j = span_digits_exec(s, st);
    if j == st {
        return None;
    }
    if s[st] == 48 && j != st + 1 {
        return None;
    }
    let j2: usize = if j < s.len() && s[j] == 46 {
        let k = span_digits_exec(s, j + 1);
        if k == j + 1 {
            return None;
        }
        k
    } else {
        j
    };
    let j3: usize = if j2 < s.len() && (s[j2] == 101 || s[j2] == 69) {
        let es: usize = if j2 + 1 < s.len() && (s[j2 + 1] == 43 || s[j2 + 1] == 45) {
            j2 + 2
        } else {
            j2 + 1
        };
        let m = span_digits_exec(s, es);
        if m == es {
            return None;
        }
        m
    } else {
        j2
    };
    Some((copy_range(s, i, j3), j3))
}

/// Runs [`parse_scalar`].
pub fn parse_scalar_exec(s: &Vec<u8>, i: usize) -> (r: Option<(Scalar, usize)>)
    requires
        i <= s.len(),
    ensures
        match r {
            Some(vj) => parse_scalar(s@, i as int) == Some((vj.0@, vj.1 as int)) && i < vj.1
                <= s.len(),
            None => parse_scalar(s@, i as int) is None,
        },
{
    if i >= s.len() {
        return None;
    }
    let b = s[i];
    if b == 34 {
        match parse_str_body_exec(s, i + 1) {
            Some((t, j)) => Some((Scalar::SStr(t), j)),
            None => None,
        }
    } else if b == 45 || (48 <= b && b <= 57) {
        match parse_number_exec(s, i) {
            Some((t, j)) => Some((Scalar::SNum(t), j)),
            None => None,
        }
    } else if s.len() - i >= 4 && b == 116 && s[i + 1] == 114 && s[i + 2] == 117 && s[i + 3]
        == 101 {
        Some((Scalar::SBool(true), i + 4))
    } else if s.len() - i >= 5 && b == 102 && s[i + 1] == 97 && s[i + 2] == 108 && s[i + 3] == 115
        && s[i + 4] == 101 {
        Some((Scalar::SBool(false), i + 5))
    } else if s.len() - i >= 4 && b == 110 && s[i + 1] == 117 && s[i + 2] == 108 && s[i + 3]
        == 108 {
        Some((Scalar::SNull, i + 4))
    } else {
        None
    }
}

/// Runs [`parse_members`].
pub fn parse_members_exec(s: &Vec<u8>, i: usize) -> (r: Option<(Members, usize)>)
    requires
        i <= s.len(),
    ensures
        match r {
            Some(mj) => parse_members(s@, i as int) == Some((members_v(mj.0@), mj.1 as int)) && i
                < mj.1 <= s.len(),
            None => parse_members(s@, i as int) is None,
        },
    decreases s.len() - i,
{
    if i >= s.len() {
        return None;
    }
    if s[i] != 34 {
        return None;
    }
    match parse_str_body_exec(s, i + 1) {
        None => None,
        Some((k, j)) => {
            let j2 = skip_ws_exec(s, j);
            if j2 >= s.len() {
                return None;
            }
            if s[j2] != 58 {
                return None;
            }
            let j3 = skip_ws_exec(s, j2 + 1);
            match parse_scalar_exec(s, j3) {
                None => None,
                Some((v, j4)) => {
                    let j5 = skip_ws_exec(s, j4);
                    if j5 < s.len() && s[j5] == 44 {
                        let j6 = skip_ws_exec(s, j5 + 1);
                        match parse_members_exec(s, j6) {
                            None => None,
                            Some((mut rest, jr)) => {
                                let ghost rest0 = rest@;
                                rest.insert(0, (k, v));
                                proof {
                                    assert(members_v(rest@) =~= seq![(k@, v@)] + members_v(
                                        rest0,
                                    ));
                                }
                                Some((rest, jr))
                            },
                        }
                    } else if j5 < s.len() && s[j5] == 125 {
                        let mut ms: Members = Vec::new();
                        ms.push((k, v));
                        proof {
                            assert(members_v(ms@) =~= seq![(k@, v@)]);
                        }
                        Some((ms, j5 + 1))
                    } else {
                        None
                    }
                },
            }
        },
    }
}

/// Runs [`parse_object`].
pub fn parse_object_exec(s: &Vec<u8>, i: usize) -> (r: Option<(Members, usize)>)
    requires
        i <= s.len(),
    ensures
        match r {
            Some(mj) => parse_object(s@, i as int) == Some((members_v(mj.0@), mj.1 as int)) && i
                < mj.1 <= s.len(),
            None => parse_object(s@, i as int) is None,
        },
{
    if i >= s.len() {
        return None;
    }
    if s[i] != 123 {
        return None;
    }
    let j = skip_ws_exec(s, i + 1);
    if j < s.len() && s[j] == 125 {
        let ms: Members = Vec::new();
        proof {
            assert(members_v(ms@) =~= Seq::<(Seq<u8>, ScalarV)>::empty());
        }
        Some((ms, j + 1))
    } else {
        parse_members_exec(s, j)
    }
}

/// Runs [`parse_top`].
pub fn parse_top_exec(s: &Vec<u8>) -> (r: Option<Members>)
    ensures
        match r {
            Some(ms) => parse_top(s@) == Some(members_v(ms@)),
            None => parse_top(s@) is None,
        },
{
    let i = skip_ws_exec(s, 0);
    match parse_object_exec(s, i) {
        None => None,
        Some((ms, j)) => {
            let j2 = skip_ws_exec(s, j);
            if j2 == s.len() {
                Some(ms)
            } else {
                None
            }
        },
    }
}

/// Runs [`find_field`]: yields the index of the first member named `k`.
pub fn find_field_exec(ms: &Members, k: &Vec<u8>) -> (r: Option<usize>)
    ensures
        match r {
            Some(ix) => ix < ms.len() && find_field(members_v(ms@), k@) == Some(
                ms@[ix as int].1@,
            ),
            None => find_field(members_v(ms@), k@) is None,
        },
{
    let mut i: usize = 0;
    proof {
        assert(members_v(ms@).skip(0) =~= members_v(ms@));
    }
    while i < ms.len()
        invariant
            i <= ms.len(),
            find_field(members_v(ms@), k@) == find_field(
                members_v(ms@).skip(i as int),
                k@,
            ),
        decreases ms.len() - i,
    {
        if crate::bytes::bytes_eq(&ms[i].0, k) {
            proof {
                assert(members_v(ms@).skip(i as int)[0] == (ms@[i as int].0@, ms@[i as int].1@));
            }
            return Some(i);
        }
        proof {
            assert(members_v(ms@).skip(i as int).drop_first() =~= members_v(ms@).skip(
                i + 1 as int,
            ));
            assert(members_v(ms@).skip(i as int)[0] == (ms@[i as int].0@, ms@[i as int].1@));
        }
        i += 1;
    }
    proof {
        assert(members_v(ms@).skip(ms@.len() as int) =~= Seq::<(Seq<u8>, ScalarV)>::empty());
    }
    None
}

/// Digit tokens no longer than any machine word have these prefix values.
proof fn lemma_digits_val_take_le(t: Seq<u8>, i: int, j: int)
    requires
        0 <= i <= j <= t.len(),
    ensures
        digits_val(t.take(i)) <= digits_val(t.take(j)),
    decreases j - i,
{
    if i < j {
        lemma_digits_val_take_le(t, i, j - 1);
        assert(t.take(j).drop_last() =~= t.take(j - 1));
        assert(digits_val(t.take(j - 1)) * 10 >= digits_val(t.take(j - 1)) * 1);
    }
}

/// The machine value of a digit token, or `None` where it exceeds `usize`.
pub fn digits_to_usize(t: &Vec<u8>) -> (r: Option<usize>)
    requires
        is_int_token(t@),
    ensures
        match r {
            Some(v) => v as nat == digits_val(t@) && digits_val(t@) <= usize::MAX,
            None => digits_val(t@) > usize::MAX,
        },
{
    let mut acc: usize = 0;
    let mut i: usize = 0;
    while i < t.len()
        invariant
            i <= t.len(),
            is_int_token(t@),
            acc as nat == digits_val(t@.take(i as int)),
        decreases t.len() - i,
    {
        proof {
            assert(is_digit(t@[i as int]));
        }
        let d = t[i] - 48;
        let du = d as usize;
        proof {
            assert(t@.take(i + 1 as int).drop_last() =~= t@.take(i as int));
            assert(t@.take(i + 1 as int).last() == t@[i as int]);
        }
        if acc > (usize::MAX - du) / 10 {
            proof {
                assert(acc * 10 + du > usize::MAX) by (nonlinear_arith)
                    requires
                        acc > (usize::MAX - du) / 10,
                        du <= 9,
                        acc >= 0,
                ;
                lemma_digits_val_take_le(t@, i + 1, t@.len() as int);
                assert(t@.take(t@.len() as int) =~= t@);
            }
            return None;
        }
        proof {
            assert(acc * 10 + du <= usize::MAX) by (nonlinear_arith)
                requires
                    acc <= (usize::MAX - du) / 10,
                    du <= 9,
                    acc >= 0,
            ;
        }
        acc = acc * 10 + du;
        i += 1;
    }
    proof {
        assert(t@.take(t@.len() as int) =~= t@);
    }
    Some(acc)
}

/// The lower-case hex digit of a value below 16.
pub open spec fn hex_digit(n: int) -> u8 {
    if n < 10 {
        (48 + n) as u8
    } else {
        (87 + n) as u8
    }
}

/// How one byte of a string value is written out: the quote, the
/// backslash and the common control characters as their short escapes,
/// the remaining control bytes as hex escapes, everything else verbatim.
pub open spec fn esc_of(b: u8) -> Seq<u8> {
    if b == 34 {
        seq![92u8, 34u8]
    } else if b == 92 {
        seq![92u8, 92u8]
    } else if b == 8 {
        seq![92u8, 98u8]
    } else if b == 12 {
        seq![92u8, 102u8]
    } else if b == 10 {
        seq![92u8, 110u8]
    } else if b == 13 {
        seq![92u8, 114u8]
    } else if b == 9 {
        seq![92u8, 116u8]
    } else if b < 32 {
        seq![92u8, 117u8, 48u8, 48u8, hex_digit(b as int / 16), hex_digit(b as int % 16)]
    } else {
        seq![b]
    }
}

/// The escaped form of `t` from position `i` on.
pub open spec fn esc_from(t: Seq<u8>, i: int) -> Seq<u8>
    decreases t.len() - i,
{
    if 0 <= i && i < t.len() {
        esc_of(t[i]) + esc_from(t, i + 1)
    } else {
        Seq::empty()
    }
}

/// The JSON string literal that denotes `t`.
pub open spec fn enc_str(t: Seq<u8>) -> Seq<u8> {
    seq![34u8] + esc_from(t, 0) + seq![34u8]
}

/// Appends the escaped form of `t` from position `i` on.
pub fn push_escaped(out: &mut Vec<u8>, t: &Vec<u8>, i: usize)
    requires
        i <= t.len(),
    ensures
        final(out)@ == old(out)@ + esc_from(t@, i as int),
    decreases t.len() - i,
{
    if i < t.len() {
        let ghost base = out@;
        let b = t[i];
        if b == 34 {
            out.push(92);
            out.push(34);
        } else if b == 92 {
            out.push(92);
            out.push(92);
        } else if b == 8 {
            out.push(92);
            out.push(98);
        } else if b == 12 {
            out.push(92);
            out.push(102);
        } else if b == 10 {
            out.push(92);
            out.push(110);
        } else if b == 13 {
            out.push(92);
            out.push(114);
        } else if b == 9 {
            out.push(92);
            out.push(116);
        } else if b < 32 {
            out.push(92);
            out.push(117);
            out.push(48);
            out.push(48);
            let hi = b / 16;
            let lo = b % 16;
            out.push(if hi < 10 {
                48 + hi
            } else {
                87 + hi
            });
            out.push(if lo < 10 {
                48 + lo
            } else {
                87 + lo
            });
        } else {
            out.push(b);
        }
        proof {
            assert(out@ =~= base + esc_of(t@[i as int]));
        }
        push_escaped(out, t, i + 1);
        proof {
            assert(base + esc_of(t@[i as int]) + esc_from(t@, i + 1 as int) =~= base + esc_from(
                t@,
                i as int,
            ));
        }
    } else {
        proof {
            assert(old(out)@ + esc_from(t@, i as int) =~= old(out)@);
        }
    }
}

/// Appends the JSON string literal that denotes `t`.
pub fn push_json_str(out: &mut Vec<u8>, t: &Vec<u8>)
    ensures
        final(out)@ == old(out)@ + enc_str(t@),
{
    let ghost base = out@;
    out.push(34);
    push_escaped(out, t, 0);
    out.push(34);
    proof {
        assert(out@ =~= base + enc_str(t@));
    }
}

/// The decimal form of a (signed) integer.
pub open spec fn enc_int(v: int) -> Seq<u8> {
    if v < 0 {
        seq![45u8] + dec_of((-v) as nat)
    } else {
        dec_of(v as nat)
    }
}

/// Appends the decimal form of `v`.
pub fn push_i32(out: &mut Vec<u8>, v: i32)
    ensures
        final(out)@ == old(out)@ + enc_int(v as int),
{
    let ghost base = out@;
    let w: i64 = v as i64;
    if w < 0 {
        out.push(45);
        let d = crate::bytes::enc_u64((-w) as u64);
        crate::bytes::push_all(out, &d);
        proof {
            assert(out@ =~= base + enc_int(v as int));
        }
    } else {
        let d = crate::bytes::enc_u64(w as u64);
        crate::bytes::push_all(out, &d);
    }
}

/// Appends the decimal form of `v`.
pub fn push_usize(out: &mut Vec<u8>, v: usize)
    ensures
        final(out)@ == old(out)@ + dec_of(v as nat),
{
    let d = crate::bytes::enc_u64(v as u64);
    crate::bytes::push_all(out, &d);
}

} // verus!
