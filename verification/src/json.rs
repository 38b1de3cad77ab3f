//! A small JSON reader and writer for the control protocol.
//!
//! Every protocol line is one flat JSON object whose members are strings,
//! numbers, booleans or arrays of strings.  The grammar below is the
//! protocol's own definition: `parse_obj_text` reads such an object from a
//! sequence of characters, and `render_obj` writes the canonical form that
//! the emitter puts on the wire.

use vstd::prelude::*;
use vstd::slice::slice_subrange;

verus! {

// ---------------------------------------------------------------------------
// Scalar values of a flat object
// ---------------------------------------------------------------------------

/// Mathematical value of one object member.
pub enum ScalarV {
    SStr(Seq<char>),
    /// A number, kept as its raw token text: the protocol passes numeric
    /// fields through without interpreting their range.
    SNum(Seq<char>),
    SBool(bool),
    SArr(Seq<Seq<char>>),
}

/// Executable value of one object member.
pub enum Scalar {
    SStr(Vec<char>),
    SNum(Vec<char>),
    SBool(bool),
    SArr(Vec<Vec<char>>),
}

/// View of a sequence of character vectors as a sequence of sequences.
pub open spec fn strs_view(v: Seq<Vec<char>>) -> Seq<Seq<char>> {
    Seq::new(v.len(), |i: int| v[i]@)
}

impl View for Scalar {
    type V = ScalarV;

    open spec fn view(&self) -> ScalarV {
        match self {
            Scalar::SStr(t) => ScalarV::SStr(t@),
            Scalar::SNum(t) => ScalarV::SNum(t@),
            Scalar::SBool(b) => ScalarV::SBool(*b),
            Scalar::SArr(items) => ScalarV::SArr(strs_view(items@)),
        }
    }
}

/// View of a member list as a sequence of name/value pairs.
pub open spec fn pairs_view(ps: Seq<(Vec<char>, Scalar)>) -> Seq<(Seq<char>, ScalarV)> {
    Seq::new(ps.len(), |i: int| (ps[i].0@, ps[i].1@))
}

// ---------------------------------------------------------------------------
// Character classes
// ---------------------------------------------------------------------------

pub open spec fn is_ws_c(c: char) -> bool {
    c == ' ' || c == '\t' || c == '\n' || c == '\r'
}

pub open spec fn is_digit_c(c: char) -> bool {
    0x30 <= (c as u32) && (c as u32) <= 0x39
}

pub open spec fn is_num_char_c(c: char) -> bool {
    is_digit_c(c) || c == '-' || c == '+' || c == '.' || c == 'e' || c == 'E'
}

pub open spec fn is_hex_c(c: char) -> bool {
    is_digit_c(c) || (0x61 <= (c as u32) && (c as u32) <= 0x66) || (0x41 <= (c as u32) && (c as u32)
        <= 0x46)
}

pub open spec fn hex_val(c: char) -> int {
    if is_digit_c(c) {
        (c as u32) - 0x30
    } else if 0x61 <= (c as u32) && (c as u32) <= 0x66 {
        (c as u32) - 0x61 + 10
    } else {
        (c as u32) - 0x41 + 10
    }
}

/// The one-character escapes: `\X` stands for the returned character.
pub open spec fn unesc_short(e: char) -> Option<char> {
    if e == '"' {
        Some('"')
    } else if e == '\\' {
        Some('\\')
    } else if e == '/' {
        Some('/')
    } else if e == 'n' {
        Some('\n')
    } else if e == 'r' {
        Some('\r')
    } else if e == 't' {
        Some('\t')
    } else if e == 'b' {
        Some('\u{8}')
    } else if e == 'f' {
        Some('\u{c}')
    } else {
        None
    }
}

// ---------------------------------------------------------------------------
// The reader, at the specification level
// ---------------------------------------------------------------------------

/// Drop leading whitespace.
pub open spec fn skip_ws(s: Seq<char>) -> Seq<char>
    decreases s.len(),
{
    if s.len() > 0 && is_ws_c(s[0]) {
        skip_ws(s.skip(1))
    } else {
        s
    }
}

proof fn lemma_skip_ws_le(s: Seq<char>)
    ensures
        skip_ws(s).len() <= s.len(),
    decreases s.len(),
{
    if s.len() > 0 && is_ws_c(s[0]) {
        lemma_skip_ws_le(s.skip(1));
    }
}

/// The four hex digits starting at `i`, read as a number.
pub open spec fn hex4_at(s: Seq<char>, i: int) -> int {
    hex_val(s[i]) * 4096 + hex_val(s[i + 1]) * 256 + hex_val(s[i + 2]) * 16 + hex_val(s[i + 3])
}

pub open spec fn hex4_ok(s: Seq<char>, i: int) -> bool {
    is_hex_c(s[i]) && is_hex_c(s[i + 1]) && is_hex_c(s[i + 2]) && is_hex_c(s[i + 3])
}

/// The character with scalar value `u`; meaningful when `u` is a valid
/// scalar value (not a surrogate, at most 0x10FFFF).
pub open spec fn char_of(u: u32) -> char {
    u as char
}

/// Read a string body after its opening quote; the result is the decoded
/// content and what follows the closing quote.  Raw control characters
/// are refused; `\uXXXX` is accepted for any scalar value, a surrogate
/// pair standing for one character beyond 0xFFFF.
pub open spec fn p_str_body(s: Seq<char>) -> Option<(Seq<char>, Seq<char>)>
    decreases s.len(),
{
    if s.len() == 0 {
        None
    } else if s[0] == '"' {
        Some((Seq::<char>::empty(), s.skip(1)))
    } else if s[0] == '\\' {
        if s.len() < 2 {
            None
        } else if s[1] == 'u' {
            if s.len() < 6 || !hex4_ok(s, 2) {
                None
            } else {
                let v = hex4_at(s, 2);
                if 0xD800 <= v < 0xDC00 {
                    if s.len() >= 12 && s[6] == '\\' && s[7] == 'u' && hex4_ok(s, 8) && 0xDC00
                        <= hex4_at(s, 8) < 0xE000 {
                        let c = char_of(
                            (0x10000 + (v - 0xD800) * 0x400 + (hex4_at(s, 8) - 0xDC00)) as u32,
                        );
                        match p_str_body(s.skip(12)) {
                            Some((t, r)) => Some((seq![c] + t, r)),
                            None => None,
                        }
                    } else {
                        None
                    }
                } else if 0xDC00 <= v < 0xE000 {
                    None
                } else {
                    let c = char_of(v as u32);
                    match p_str_body(s.skip(6)) {
                        Some((t, r)) => Some((seq![c] + t, r)),
                        None => None,
                    }
                }
            }
        } else {
            match unesc_short(s[1]) {
                Some(c) => match p_str_body(s.skip(2)) {
                    Some((t, r)) => Some((seq![c] + t, r)),
                    None => None,
                },
                None => None,
            }
        }
    } else if (s[0] as u32) < 0x20 {
        None
    } else {
        match p_str_body(s.skip(1)) {
            Some((t, r)) => Some((seq![s[0]] + t, r)),
            None => None,
        }
    }
}

proof fn lemma_str_body_rest(s: Seq<char>)
    ensures
        match p_str_body(s) {
            Some((t, r)) => r.len() < s.len(),
            None => true,
        },
    decreases s.len(),
{
    if s.len() == 0 {
    } else if s[0] == '"' {
    } else if s[0] == '\\' {
        if s.len() >= 12 {
            lemma_str_body_rest(s.skip(12));
        }
        if s.len() >= 6 {
            lemma_str_body_rest(s.skip(6));
        }
        if s.len() >= 2 {
            lemma_str_body_rest(s.skip(2));
        }
    } else {
        lemma_str_body_rest(s.skip(1));
    }
}

// Number tokens: longest run of number characters, checked by a small
// state machine for the shape `-? digits ( . digits )? ( [eE] [+-]? digits )?`.

pub open spec fn num_token(s: Seq<char>) -> Seq<char>
    decreases s.len(),
{
    if s.len() > 0 && is_num_char_c(s[0]) {
        seq![s[0]] + num_token(s.skip(1))
    } else {
        Seq::<char>::empty()
    }
}

#[derive(Clone, Copy)]
pub enum NumSt {
    Start,
    AfterMinus,
    IntPart,
    AfterDot,
    FracPart,
    AfterExp,
    AfterExpSign,
    ExpPart,
    Reject,
}

pub open spec fn num_step(st: NumSt, c: char) -> NumSt {
    match st {
        NumSt::Start => if is_digit_c(c) {
            NumSt::IntPart
        } else if c == '-' {
            NumSt::AfterMinus
        } else {
            NumSt::Reject
        },
        NumSt::AfterMinus => if is_digit_c(c) {
            NumSt::IntPart
        } else {
            NumSt::Reject
        },
        NumSt::IntPart => if is_digit_c(c) {
            NumSt::IntPart
        } else if c == '.' {
            NumSt::AfterDot
        } else if c == 'e' || c == 'E' {
            NumSt::AfterExp
        } else {
            NumSt::Reject
        },
        NumSt::AfterDot => if is_digit_c(c) {
            NumSt::FracPart
        } else {
            NumSt::Reject
        },
        NumSt::FracPart => if is_digit_c(c) {
            NumSt::FracPart
        } else if c == 'e' || c == 'E' {
            NumSt::AfterExp
        } else {
            NumSt::Reject
        },
        NumSt::AfterExp => if is_digit_c(c) {
            NumSt::ExpPart
        } else if c == '+' || c == '-' {
            NumSt::AfterExpSign
        } else {
            NumSt::Reject
        },
        NumSt::AfterExpSign => if is_digit_c(c) {
            NumSt::ExpPart
        } else {
            NumSt::Reject
        },
        NumSt::ExpPart => if is_digit_c(c) {
            NumSt::ExpPart
        } else {
            NumSt::Reject
        },
        NumSt::Reject => NumSt::Reject,
    }
}

pub open spec fn num_run(st: NumSt, t: Seq<char>) -> NumSt
    decreases t.len(),
{
    if t.len() == 0 {
        st
    } else {
        num_run(num_step(st, t[0]), t.skip(1))
    }
}

pub open spec fn num_accepting(st: NumSt) -> bool {
    match st {
        NumSt::IntPart => true,
        NumSt::FracPart => true,
        NumSt::ExpPart => true,
        _ => false,
    }
}

pub open spec fn num_ok(t: Seq<char>) -> bool {
    num_accepting(num_run(NumSt::Start, t))
}

pub open spec fn p_number(s: Seq<char>) -> Option<(Seq<char>, Seq<char>)> {
    let t = num_token(s);
    if num_ok(t) {
        Some((t, s.skip(t.len() as int)))
    } else {
        None
    }
}

proof fn lemma_num_token_le(s: Seq<char>)
    ensures
        num_token(s).len() <= s.len(),
    decreases s.len(),
{
    if s.len() > 0 && is_num_char_c(s[0]) {
        lemma_num_token_le(s.skip(1));
    }
}

proof fn lemma_num_ok_nonempty(t: Seq<char>)
    ensures
        num_ok(t) ==> t.len() > 0,
{
}

// Booleans.

pub open spec fn p_bool(s: Seq<char>) -> Option<(bool, Seq<char>)> {
    if s.len() >= 4 && s[0] == 't' && s[1] == 'r' && s[2] == 'u' && s[3] == 'e' {
        Some((true, s.skip(4)))
    } else if s.len() >= 5 && s[0] == 'f' && s[1] == 'a' && s[2] == 'l' && s[3] == 's' && s[4]
        == 'e' {
        Some((false, s.skip(5)))
    } else {
        None
    }
}

// Arrays of strings.  `p_arr` reads what follows the opening bracket;
// `p_arr_tail` reads what follows an element.

pub open spec fn p_arr_tail(s: Seq<char>) -> Option<(Seq<Seq<char>>, Seq<char>)>
    decreases s.len(),
    via p_arr_tail_dec
{
    let s1 = skip_ws(s);
    if s1.len() == 0 {
        None
    } else if s1[0] == ']' {
        Some((Seq::<Seq<char>>::empty(), s1.skip(1)))
    } else if s1[0] == ',' {
        let s2 = skip_ws(s1.skip(1));
        if s2.len() > 0 && s2[0] == '"' {
            match p_str_body(s2.skip(1)) {
                Some((item, r)) => match p_arr_tail(r) {
                    Some((items, r2)) => Some((seq![item] + items, r2)),
                    None => None,
                },
                None => None,
            }
        } else {
            None
        }
    } else {
        None
    }
}

#[via_fn]
proof fn p_arr_tail_dec(s: Seq<char>) {
    lemma_skip_ws_le(s);
    let s1 = skip_ws(s);
    if s1.len() > 0 && s1[0] == ',' {
        lemma_skip_ws_le(s1.skip(1));
        let s2 = skip_ws(s1.skip(1));
        if s2.len() > 0 && s2[0] == '"' {
            lemma_str_body_rest(s2.skip(1));
        }
    }
}

pub open spec fn p_arr(s: Seq<char>) -> Option<(Seq<Seq<char>>, Seq<char>)> {
    let s1 = skip_ws(s);
    if s1.len() == 0 {
        None
    } else if s1[0] == ']' {
        Some((Seq::<Seq<char>>::empty(), s1.skip(1)))
    } else if s1[0] == '"' {
        match p_str_body(s1.skip(1)) {
            Some((item, r)) => match p_arr_tail(r) {
                Some((items, r2)) => Some((seq![item] + items, r2)),
                None => None,
            },
            None => None,
        }
    } else {
        None
    }
}

proof fn lemma_arr_tail_rest(s: Seq<char>)
    ensures
        match p_arr_tail(s) {
            Some((items, r)) => r.len() <= s.len(),
            None => true,
        },
    decreases s.len(),
{
    lemma_skip_ws_le(s);
    let s1 = skip_ws(s);
    if s1.len() > 0 && s1[0] == ',' {
        lemma_skip_ws_le(s1.skip(1));
        let s2 = skip_ws(s1.skip(1));
        if s2.len() > 0 && s2[0] == '"' {
            lemma_str_body_rest(s2.skip(1));
            match p_str_body(s2.skip(1)) {
                Some((item, r)) => {
                    lemma_arr_tail_rest(r);
                },
                None => {},
            }
        }
    }
}

proof fn lemma_arr_rest(s: Seq<char>)
    ensures
        match p_arr(s) {
            Some((items, r)) => r.len() <= s.len(),
            None => true,
        },
{
    lemma_skip_ws_le(s);
    let s1 = skip_ws(s);
    if s1.len() > 0 && s1[0] == '"' {
        lemma_str_body_rest(s1.skip(1));
        match p_str_body(s1.skip(1)) {
            Some((item, r)) => {
                lemma_arr_tail_rest(r);
            },
            None => {},
        }
    }
}

// One member value.

pub open spec fn p_value(s: Seq<char>) -> Option<(ScalarV, Seq<char>)> {
    if s.len() == 0 {
        None
    } else if s[0] == '"' {
        match p_str_body(s.skip(1)) {
            Some((t, r)) => Some((ScalarV::SStr(t), r)),
            None => None,
        }
    } else if s[0] == 't' || s[0] == 'f' {
        match p_bool(s) {
            Some((b, r)) => Some((ScalarV::SBool(b), r)),
            None => None,
        }
    } else if s[0] == '[' {
        match p_arr(s.skip(1)) {
            Some((items, r)) => Some((ScalarV::SArr(items), r)),
            None => None,
        }
    } else if is_num_char_c(s[0]) {
        match p_number(s) {
            Some((t, r)) => Some((ScalarV::SNum(t), r)),
            None => None,
        }
    } else {
        None
    }
}

proof fn lemma_value_rest(s: Seq<char>)
    ensures
        match p_value(s) {
            Some((v, r)) => r.len() < s.len(),
            None => true,
        },
{
    if s.len() == 0 {
    } else if s[0] == '"' {
        lemma_str_body_rest(s.skip(1));
    } else if s[0] == 't' || s[0] == 'f' {
    } else if s[0] == '[' {
        lemma_arr_rest(s.skip(1));
    } else if is_num_char_c(s[0]) {
        lemma_num_token_le(s);
        lemma_num_ok_nonempty(num_token(s));
    }
}

// One `"name": value` member.

pub open spec fn p_pair(s: Seq<char>) -> Option<((Seq<char>, ScalarV), Seq<char>)> {
    let s1 = skip_ws(s);
    if s1.len() > 0 && s1[0] == '"' {
        match p_str_body(s1.skip(1)) {
            Some((name, r)) => {
                let r1 = skip_ws(r);
                if r1.len() > 0 && r1[0] == ':' {
                    let s2 = skip_ws(r1.skip(1));
                    match p_value(s2) {
                        Some((v, r2)) => Some(((name, v), r2)),
                        None => None,
                    }
                } else {
                    None
                }
            },
            None => None,
        }
    } else {
        None
    }
}

proof fn lemma_pair_rest(s: Seq<char>)
    ensures
        match p_pair(s) {
            Some((pr, r)) => r.len() < s.len(),
            None => true,
        },
{
    lemma_skip_ws_le(s);
    let s1 = skip_ws(s);
    if s1.len() > 0 && s1[0] == '"' {
        lemma_str_body_rest(s1.skip(1));
        match p_str_body(s1.skip(1)) {
            Some((name, r)) => {
                lemma_skip_ws_le(r);
                let r1 = skip_ws(r);
                if r1.len() > 0 && r1[0] == ':' {
                    lemma_skip_ws_le(r1.skip(1));
                    lemma_value_rest(skip_ws(r1.skip(1)));
                }
            },
            None => {},
        }
    }
}

// Member lists.  `p_members_first` reads what follows the opening brace;
// `p_members_tail` reads what follows a member.

pub open spec fn p_members_tail(s: Seq<char>) -> Option<(Seq<(Seq<char>, ScalarV)>, Seq<char>)>
    decreases s.len(),
    via p_members_tail_dec
{
    let s1 = skip_ws(s);
    if s1.len() == 0 {
        None
    } else if s1[0] == '}' {
        Some((Seq::<(Seq<char>, ScalarV)>::empty(), s1.skip(1)))
    } else if s1[0] == ',' {
        match p_pair(s1.skip(1)) {
            Some((pr, r)) => match p_members_tail(r) {
                Some((ps, r2)) => Some((seq![pr] + ps, r2)),
                None => None,
            },
            None => None,
        }
    } else {
        None
    }
}

#[via_fn]
proof fn p_members_tail_dec(s: Seq<char>) {
    lemma_skip_ws_le(s);
    let s1 = skip_ws(s);
    if s1.len() > 0 && s1[0] == ',' {
        lemma_pair_rest(s1.skip(1));
    }
}

pub open spec fn p_members_first(s: Seq<char>) -> Option<(Seq<(Seq<char>, ScalarV)>, Seq<char>)> {
    let s1 = skip_ws(s);
    if s1.len() == 0 {
        None
    } else if s1[0] == '}' {
        Some((Seq::<(Seq<char>, ScalarV)>::empty(), s1.skip(1)))
    } else {
        match p_pair(s) {
            Some((pr, r)) => match p_members_tail(r) {
                Some((ps, r2)) => Some((seq![pr] + ps, r2)),
                None => None,
            },
            None => None,
        }
    }
}

/// Read a whole flat object.
pub open spec fn p_obj(s: Seq<char>) -> Option<(Seq<(Seq<char>, ScalarV)>, Seq<char>)> {
    let s1 = skip_ws(s);
    if s1.len() > 0 && s1[0] == '{' {
        p_members_first(s1.skip(1))
    } else {
        None
    }
}

/// Read a line that must hold exactly one flat object and nothing else.
pub open spec fn parse_obj_text(s: Seq<char>) -> Option<Seq<(Seq<char>, ScalarV)>> {
    match p_obj(s) {
        Some((ps, r)) => if skip_ws(r).len() == 0 {
            Some(ps)
        } else {
            None
        },
        None => None,
    }
}

// ---------------------------------------------------------------------------
// The reader, executable
// ---------------------------------------------------------------------------

/// The tail of a slice, from position `n` on.
fn rest_from<'a>(s: &'a [char], n: usize) -> (r: &'a [char])
    requires
        n <= s@.len(),
    ensures
        r@ == s@.skip(n as int),
{
    let r = slice_subrange(s, n, s.len());
    proof {
        assert(r@ =~= s@.skip(n as int));
    }
    r
}

fn is_ws_x(c: char) -> (r: bool)
    ensures
        r == is_ws_c(c),
{
    c == ' ' || c == '\t' || c == '\n' || c == '\r'
}

fn is_digit_x(c: char) -> (r: bool)
    ensures
        r == is_digit_c(c),
{
    let u = c as u32;
    0x30 <= u && u <= 0x39
}

fn is_num_char_x(c: char) -> (r: bool)
    ensures
        r == is_num_char_c(c),
{
    is_digit_x(c) || c == '-' || c == '+' || c == '.' || c == 'e' || c == 'E'
}

fn is_hex_x(c: char) -> (r: bool)
    ensures
        r == is_hex_c(c),
{
    let u = c as u32;
    is_digit_x(c) || (0x61 <= u && u <= 0x66) || (0x41 <= u && u <= 0x46)
}

fn hex_val_x(c: char) -> (r: u32)
    requires
        is_hex_c(c),
    ensures
        r == hex_val(c),
        r < 16,
{
    let u = c as u32;
    if is_digit_x(c) {
        u - 0x30
    } else if 0x61 <= u && u <= 0x66 {
        u - 0x61 + 10
    } else {
        u - 0x41 + 10
    }
}

fn unesc_short_x(e: char) -> (r: Option<char>)
    ensures
        r == unesc_short(e),
{
    if e == '"' {
        Some('"')
    } else if e == '\\' {
        Some('\\')
    } else if e == '/' {
        Some('/')
    } else if e == 'n' {
        Some('\n')
    } else if e == 'r' {
        Some('\r')
    } else if e == 't' {
        Some('\t')
    } else if e == 'b' {
        Some('\u{8}')
    } else if e == 'f' {
        Some('\u{c}')
    } else {
        None
    }
}

fn skip_ws_x<'a>(s: &'a [char]) -> (r: &'a [char])
    ensures
        r@ == skip_ws(s@),
    decreases s@.len(),
{
    if s.len() > 0 && is_ws_x(s[0]) {
        skip_ws_x(rest_from(s, 1))
    } else {
        s
    }
}

fn hex4_ok_x(s: &[char], i: usize) -> (r: bool)
    requires
        i + 4 <= s@.len(),
    ensures
        r == hex4_ok(s@, i as int),
{
    is_hex_x(s[i]) && is_hex_x(s[i + 1]) && is_hex_x(s[i + 2]) && is_hex_x(s[i + 3])
}

fn hex4_x(s: &[char], i: usize) -> (r: u32)
    requires
        i + 4 <= s@.len(),
        hex4_ok(s@, i as int),
    ensures
        r as int == hex4_at(s@, i as int),
        r <= 0xFFFF,
{
    hex_val_x(s[i]) * 4096 + hex_val_x(s[i + 1]) * 256 + hex_val_x(s[i + 2]) * 16 + hex_val_x(
        s[i + 3],
    )
}

/// Relies on char::from_u32: `Some` holds the character with scalar value
/// `u`, and `None` comes exactly for surrogates and values above 0x10FFFF.
#[verifier::external_body]
fn char_from_u32(u: u32) -> (r: Option<char>)
    ensures
        match r {
            Some(c) => c as u32 == u,
            None => 0xD800 <= u <= 0xDFFF || u > 0x10FFFF,
        },
{
    char::from_u32(u)
}

/// The executable character for a scalar value the reader has already
/// checked to be valid.
fn char_of_x(u: u32) -> (r: char)
    requires
        !(0xD800 <= u <= 0xDFFF),
        u <= 0x10FFFF,
    ensures
        r == char_of(u),
{
    match char_from_u32(u) {
        Some(c) => {
            proof {
                assert(c as u32 == u);
                assert(char_of(u) as u32 == u);
                char_eq_from_u32(c, char_of(u));
            }
            c
        },
        None => {
            proof {
                assert(false);
            }
            '\u{0}'
        },
    }
}

fn str_body_x<'a>(s: &'a [char]) -> (r: Option<(Vec<char>, &'a [char])>)
    ensures
        match r {
            Some((t, rest)) => p_str_body(s@) == Some((t@, rest@)),
            None => p_str_body(s@) is None,
        },
    decreases s@.len(),
{
    if s.len() == 0 {
        None
    } else if s[0] == '"' {
        Some((Vec::new(), rest_from(s, 1)))
    } else if s[0] == '\\' {
        if s.len() < 2 {
            None
        } else if s[1] == 'u' {
            if s.len() < 6 || !hex4_ok_x(s, 2) {
                None
            } else {
                let v = hex4_x(s, 2);
                if 0xD800 <= v && v < 0xDC00 {
                    if s.len() >= 12 && s[6] == '\\' && s[7] == 'u' && hex4_ok_x(s, 8) {
                        let w = hex4_x(s, 8);
                        if 0xDC00 <= w && w < 0xE000 {
                            let code: u32 = 0x10000 + (v - 0xD800) * 0x400 + (w - 0xDC00);
                            let c = char_of_x(code);
                            match str_body_x(rest_from(s, 12)) {
                                Some((mut t, rest)) => {
                                    t.insert(0, c);
                                    proof {
                                        assert(t@ =~= seq![c] + t@.skip(1));
                                    }
                                    Some((t, rest))
                                },
                                None => None,
                            }
                        } else {
                            None
                        }
                    } else {
                        None
                    }
                } else if 0xDC00 <= v && v < 0xE000 {
                    None
                } else {
                    let c = char_of_x(v);
                    match str_body_x(rest_from(s, 6)) {
                        Some((mut t, rest)) => {
                            t.insert(0, c);
                            proof {
                                assert(t@ =~= seq![c] + t@.skip(1));
                            }
                            Some((t, rest))
                        },
                        None => None,
                    }
                }
            }
        } else {
            match unesc_short_x(s[1]) {
                Some(c) => match str_body_x(rest_from(s, 2)) {
                    Some((mut t, rest)) => {
                        t.insert(0, c);
                        proof {
                            assert(t@ =~= seq![c] + t@.skip(1));
                        }
                        Some((t, rest))
                    },
                    None => None,
                },
                None => None,
            }
        }
    } else if (s[0] as u32) < 0x20 {
        None
    } else {
        let c = s[0];
        match str_body_x(rest_from(s, 1)) {
            Some((mut t, rest)) => {
                t.insert(0, c);
                proof {
                    assert(t@ =~= seq![c] + t@.skip(1));
                }
                Some((t, rest))
            },
            None => None,
        }
    }
}

fn scan_num_x<'a>(s: &'a [char]) -> (r: (Vec<char>, &'a [char]))
    ensures
        r.0@ == num_token(s@),
        r.1@ == s@.skip(num_token(s@).len() as int),
    decreases s@.len(),
{
    if s.len() > 0 && is_num_char_x(s[0]) {
        let c = s[0];
        let (mut t, rest) = scan_num_x(rest_from(s, 1));
        t.insert(0, c);
        proof {
            assert(t@ =~= seq![c] + t@.skip(1));
            lemma_num_token_le(s@.skip(1));
            assert(num_token(s@) == seq![c] + num_token(s@.skip(1)));
            assert(s@.skip(1).skip(num_token(s@.skip(1)).len() as int) =~= s@.skip(
                num_token(s@).len() as int,
            ));
        }
        (t, rest)
    } else {
        (Vec::new(), s)
    }
}

fn num_step_x(st: NumSt, c: char) -> (r: NumSt)
    ensures
        r == num_step(st, c),
{
    match st {
        NumSt::Start => if is_digit_x(c) {
            NumSt::IntPart
        } else if c == '-' {
            NumSt::AfterMinus
        } else {
            NumSt::Reject
        },
        NumSt::AfterMinus => if is_digit_x(c) {
            NumSt::IntPart
        } else {
            NumSt::Reject
        },
        NumSt::IntPart => if is_digit_x(c) {
            NumSt::IntPart
        } else if c == '.' {
            NumSt::AfterDot
        } else if c == 'e' || c == 'E' {
            NumSt::AfterExp
        } else {
            NumSt::Reject
        },
        NumSt::AfterDot => if is_digit_x(c) {
            NumSt::FracPart
        } else {
            NumSt::Reject
        },
        NumSt::FracPart => if is_digit_x(c) {
            NumSt::FracPart
        } else if c == 'e' || c == 'E' {
            NumSt::AfterExp
        } else {
            NumSt::Reject
        },
        NumSt::AfterExp => if is_digit_x(c) {
            NumSt::ExpPart
        } else if c == '+' || c == '-' {
            NumSt::AfterExpSign
        } else {
            NumSt::Reject
        },
        NumSt::AfterExpSign => if is_digit_x(c) {
            NumSt::ExpPart
        } else {
            NumSt::Reject
        },
        NumSt::ExpPart => if is_digit_x(c) {
            NumSt::ExpPart
        } else {
            NumSt::Reject
        },
        NumSt::Reject => NumSt::Reject,
    }
}

fn num_run_x(st: NumSt, t: &[char]) -> (r: NumSt)
    ensures
        r == num_run(st, t@),
    decreases t@.len(),
{
    if t.len() == 0 {
        st
    } else {
        num_run_x(num_step_x(st, t[0]), rest_from(t, 1))
    }
}

fn num_accepting_x(st: NumSt) -> (r: bool)
    ensures
        r == num_accepting(st),
{
    match st {
        NumSt::IntPart => true,
        NumSt::FracPart => true,
        NumSt::ExpPart => true,
        _ => false,
    }
}

fn p_number_x<'a>(s: &'a [char]) -> (r: Option<(Vec<char>, &'a [char])>)
    ensures
        match r {
            Some((t, rest)) => p_number(s@) == Some((t@, rest@)),
            None => p_number(s@) is None,
        },
{
    let (t, rest) = scan_num_x(s);
    let st = num_run_x(NumSt::Start, t.as_slice());
    if num_accepting_x(st) {
        Some((t, rest))
    } else {
        None
    }
}

fn p_bool_x<'a>(s: &'a [char]) -> (r: Option<(bool, &'a [char])>)
    ensures
        match r {
            Some((b, rest)) => p_bool(s@) == Some((b, rest@)),
            None => p_bool(s@) is None,
        },
{
    if s.len() >= 4 && s[0] == 't' && s[1] == 'r' && s[2] == 'u' && s[3] == 'e' {
        Some((true, rest_from(s, 4)))
    } else if s.len() >= 5 && s[0] == 'f' && s[1] == 'a' && s[2] == 'l' && s[3] == 's' && s[4]
        == 'e' {
        Some((false, rest_from(s, 5)))
    } else {
        None
    }
}

fn arr_tail_x<'a>(s: &'a [char]) -> (r: Option<(Vec<Vec<char>>, &'a [char])>)
    ensures
        match r {
            Some((items, rest)) => p_arr_tail(s@) == Some((strs_view(items@), rest@)),
            None => p_arr_tail(s@) is None,
        },
    decreases s@.len(),
{
    proof {
        lemma_skip_ws_le(s@);
    }
    let s1 = skip_ws_x(s);
    if s1.len() == 0 {
        None
    } else if s1[0] == ']' {
        let items: Vec<Vec<char>> = Vec::new();
        proof {
            assert(strs_view(items@) =~= Seq::<Seq<char>>::empty());
        }
        Some((items, rest_from(s1, 1)))
    } else if s1[0] == ',' {
        let s2 = skip_ws_x(rest_from(s1, 1));
        if s2.len() > 0 && s2[0] == '"' {
            proof {
                lemma_str_body_rest(s2@.skip(1));
                lemma_skip_ws_le(s1@.skip(1));
            }
            match str_body_x(rest_from(s2, 1)) {
                Some((item, r)) => match arr_tail_x(r) {
                    Some((mut items, r2)) => {
                        items.insert(0, item);
                        proof {
                            assert(strs_view(items@) =~= seq![items@[0]@] + strs_view(
                                items@.skip(1),
                            ));
                        }
                        Some((items, r2))
                    },
                    None => None,
                },
                None => None,
            }
        } else {
            None
        }
    } else {
        None
    }
}

fn arr_x<'a>(s: &'a [char]) -> (r: Option<(Vec<Vec<char>>, &'a [char])>)
    ensures
        match r {
            Some((items, rest)) => p_arr(s@) == Some((strs_view(items@), rest@)),
            None => p_arr(s@) is None,
        },
{
    let s1 = skip_ws_x(s);
    if s1.len() == 0 {
        None
    } else if s1[0] == ']' {
        let items: Vec<Vec<char>> = Vec::new();
        proof {
            assert(strs_view(items@) =~= Seq::<Seq<char>>::empty());
        }
        Some((items, rest_from(s1, 1)))
    } else if s1[0] == '"' {
        match str_body_x(rest_from(s1, 1)) {
            Some((item, r)) => match arr_tail_x(r) {
                Some((mut items, r2)) => {
                    items.insert(0, item);
                    proof {
                        assert(strs_view(items@) =~= seq![items@[0]@] + strs_view(items@.skip(1)));
                    }
                    Some((items, r2))
                },
                None => None,
            },
            None => None,
        }
    } else {
        None
    }
}

fn value_x<'a>(s: &'a [char]) -> (r: Option<(Scalar, &'a [char])>)
    ensures
        match r {
            Some((v, rest)) => p_value(s@) == Some((v@, rest@)),
            None => p_value(s@) is None,
        },
{
    if s.len() == 0 {
        None
    } else if s[0] == '"' {
        match str_body_x(rest_from(s, 1)) {
            Some((t, rest)) => Some((Scalar::SStr(t), rest)),
            None => None,
        }
    } else if s[0] == 't' || s[0] == 'f' {
        match p_bool_x(s) {
            Some((b, rest)) => Some((Scalar::SBool(b), rest)),
            None => None,
        }
    } else if s[0] == '[' {
        match arr_x(rest_from(s, 1)) {
            Some((items, rest)) => Some((Scalar::SArr(items), rest)),
            None => None,
        }
    } else if is_num_char_x(s[0]) {
        match p_number_x(s) {
            Some((t, rest)) => Some((Scalar::SNum(t), rest)),
            None => None,
        }
    } else {
        None
    }
}

fn pair_x<'a>(s: &'a [char]) -> (r: Option<((Vec<char>, Scalar), &'a [char])>)
    ensures
        match r {
            Some((pr, rest)) => p_pair(s@) == Some(((pr.0@, pr.1@), rest@)),
            None => p_pair(s@) is None,
        },
{
    let s1 = skip_ws_x(s);
    if s1.len() > 0 && s1[0] == '"' {
        match str_body_x(rest_from(s1, 1)) {
            Some((name, r)) => {
                let r1 = skip_ws_x(r);
                if r1.len() > 0 && r1[0] == ':' {
                    let s2 = skip_ws_x(rest_from(r1, 1));
                    match value_x(s2) {
                        Some((v, r2)) => Some(((name, v), r2)),
                        None => None,
                    }
                } else {
                    None
                }
            },
            None => None,
        }
    } else {
        None
    }
}

fn members_tail_x<'a>(s: &'a [char]) -> (r: Option<(Vec<(Vec<char>, Scalar)>, &'a [char])>)
    ensures
        match r {
            Some((ps, rest)) => p_members_tail(s@) == Some((pairs_view(ps@), rest@)),
            None => p_members_tail(s@) is None,
        },
    decreases s@.len(),
{
    proof {
        lemma_skip_ws_le(s@);
    }
    let s1 = skip_ws_x(s);
    if s1.len() == 0 {
        None
    } else if s1[0] == '}' {
        let ps: Vec<(Vec<char>, Scalar)> = Vec::new();
        proof {
            assert(pairs_view(ps@) =~= Seq::<(Seq<char>, ScalarV)>::empty());
        }
        Some((ps, rest_from(s1, 1)))
    } else if s1[0] == ',' {
        proof {
            lemma_pair_rest(s1@.skip(1));
        }
        match pair_x(rest_from(s1, 1)) {
            Some((pr, r)) => match members_tail_x(r) {
                Some((mut ps, r2)) => {
                    ps.insert(0, pr);
                    proof {
                        assert(pairs_view(ps@) =~= seq![(ps@[0].0@, ps@[0].1@)] + pairs_view(
                            ps@.skip(1),
                        ));
                    }
                    Some((ps, r2))
                },
                None => None,
            },
            None => None,
        }
    } else {
        None
    }
}

fn members_first_x<'a>(s: &'a [char]) -> (r: Option<(Vec<(Vec<char>, Scalar)>, &'a [char])>)
    ensures
        match r {
            Some((ps, rest)) => p_members_first(s@) == Some((pairs_view(ps@), rest@)),
            None => p_members_first(s@) is None,
        },
{
    let s1 = skip_ws_x(s);
    if s1.len() == 0 {
        None
    } else if s1[0] == '}' {
        let ps: Vec<(Vec<char>, Scalar)> = Vec::new();
        proof {
            assert(pairs_view(ps@) =~= Seq::<(Seq<char>, ScalarV)>::empty());
        }
        Some((ps, rest_from(s1, 1)))
    } else {
        match pair_x(s) {
            Some((pr, r)) => match members_tail_x(r) {
                Some((mut ps, r2)) => {
                    ps.insert(0, pr);
                    proof {
                        assert(pairs_view(ps@) =~= seq![(ps@[0].0@, ps@[0].1@)] + pairs_view(
                            ps@.skip(1),
                        ));
                    }
                    Some((ps, r2))
                },
                None => None,
            },
            None => None,
        }
    }
}

/// Read a whole line as one flat object; `None` on any malformed input.
pub fn parse_obj_chars(s: &[char]) -> (r: Option<Vec<(Vec<char>, Scalar)>>)
    ensures
        match r {
            Some(ps) => parse_obj_text(s@) == Some(pairs_view(ps@)),
            None => parse_obj_text(s@) is None,
        },
{
    let s1 = skip_ws_x(s);
    if s1.len() > 0 && s1[0] == '{' {
        match members_first_x(rest_from(s1, 1)) {
            Some((ps, r)) => {
                let r1 = skip_ws_x(r);
                if r1.len() == 0 {
                    Some(ps)
                } else {
                    None
                }
            },
            None => None,
        }
    } else {
        None
    }
}

// ---------------------------------------------------------------------------
// Looking a member up by name
// ---------------------------------------------------------------------------

/// The value of the first member with the given name.
pub open spec fn lookup(ps: Seq<(Seq<char>, ScalarV)>, name: Seq<char>) -> Option<ScalarV>
    decreases ps.len(),
{
    if ps.len() == 0 {
        None
    } else if ps[0].0 == name {
        Some(ps[0].1)
    } else {
        lookup(ps.skip(1), name)
    }
}

/// Index of the first member with the given name.
pub fn lookup_x(ps: &Vec<(Vec<char>, Scalar)>, name: &[char]) -> (r: Option<usize>)
    ensures
        match r {
            Some(i) => i < ps@.len() && lookup(pairs_view(ps@), name@) == Some(ps@[i as int].1@),
            None => lookup(pairs_view(ps@), name@) is None,
        },
{
    let n = ps.len();
    let mut i: usize = 0;
    proof {
        assert(pairs_view(ps@).skip(0) =~= pairs_view(ps@));
    }
    while i < n
        invariant
            n == ps@.len(),
            i <= n,
            lookup(pairs_view(ps@), name@) == lookup(pairs_view(ps@).skip(i as int), name@),
        decreases n - i,
    {
        let entry = &ps[i];
        proof {
            assert(pairs_view(ps@).skip(i as int)[0] == (ps@[i as int].0@, ps@[i as int].1@));
            assert(pairs_view(ps@).skip(i as int).skip(1) =~= pairs_view(ps@).skip(i as int + 1));
        }
        if crate::text::chars_eq(entry.0.as_slice(), name) {
            return Some(i);
        }
        i = i + 1;
    }
    proof {
        assert(pairs_view(ps@).skip(n as int) =~= Seq::<(Seq<char>, ScalarV)>::empty());
    }
    None
}

// ---------------------------------------------------------------------------
// The writer: canonical rendering
// ---------------------------------------------------------------------------

pub open spec fn hexdig(n: int) -> char {
    if n == 0 {
        '0'
    } else if n == 1 {
        '1'
    } else if n == 2 {
        '2'
    } else if n == 3 {
        '3'
    } else if n == 4 {
        '4'
    } else if n == 5 {
        '5'
    } else if n == 6 {
        '6'
    } else if n == 7 {
        '7'
    } else if n == 8 {
        '8'
    } else if n == 9 {
        '9'
    } else if n == 10 {
        'a'
    } else if n == 11 {
        'b'
    } else if n == 12 {
        'c'
    } else if n == 13 {
        'd'
    } else if n == 14 {
        'e'
    } else {
        'f'
    }
}

/// Canonical escape of one character inside a string literal.
pub open spec fn esc_char(c: char) -> Seq<char> {
    if c == '"' {
        seq!['\\', '"']
    } else if c == '\\' {
        seq!['\\', '\\']
    } else if c == '\n' {
        seq!['\\', 'n']
    } else if c == '\r' {
        seq!['\\', 'r']
    } else if c == '\t' {
        seq!['\\', 't']
    } else if c == '\u{8}' {
        seq!['\\', 'b']
    } else if c == '\u{c}' {
        seq!['\\', 'f']
    } else if (c as u32) < 0x20 {
        seq!['\\', 'u', '0', '0', hexdig((c as u32) as int / 16), hexdig((c as u32) as int % 16)]
    } else {
        seq![c]
    }
}

pub open spec fn esc(s: Seq<char>) -> Seq<char>
    decreases s.len(),
{
    if s.len() == 0 {
        Seq::<char>::empty()
    } else {
        esc_char(s[0]) + esc(s.skip(1))
    }
}

/// A canonical string literal: quotes around the escaped content.
pub open spec fn quoted(s: Seq<char>) -> Seq<char> {
    seq!['"'] + esc(s) + seq!['"']
}

/// Decimal digits of `n`, most significant first.
pub open spec fn dec_str(n: nat) -> Seq<char>
    decreases n,
{
    if n < 10 {
        seq![hexdig(n as int)]
    } else {
        dec_str(n / 10) + seq![hexdig((n % 10) as int)]
    }
}

pub open spec fn dval(c: char) -> int {
    (c as u32) - 0x30
}

pub open spec fn all_digits(t: Seq<char>) -> bool {
    forall|i: int| 0 <= i < t.len() ==> is_digit_c(t[i])
}

/// Value of a string of decimal digits.
pub open spec fn dec_val(t: Seq<char>) -> int
    decreases t.len(),
{
    if t.len() == 0 {
        0
    } else {
        dec_val(t.drop_last()) * 10 + dval(t.last())
    }
}

/// A digit string read as a `u64`, if it is one and fits.
pub open spec fn to_u64_v(t: Seq<char>) -> Option<u64> {
    if t.len() > 0 && all_digits(t) && dec_val(t) <= u64::MAX {
        Some(dec_val(t) as u64)
    } else {
        None
    }
}

proof fn lemma_dec_val_nonneg(t: Seq<char>)
    requires
        all_digits(t),
    ensures
        dec_val(t) >= 0,
    decreases t.len(),
{
    if t.len() > 0 {
        assert(all_digits(t.drop_last()));
        lemma_dec_val_nonneg(t.drop_last());
    }
}

proof fn lemma_dec_val_mono(t: Seq<char>, j: int)
    requires
        all_digits(t),
        0 <= j <= t.len(),
    ensures
        dec_val(t.take(j)) <= dec_val(t),
    decreases t.len() - j,
{
    if j == t.len() {
        assert(t.take(j) =~= t);
    } else {
        assert(t.take(j + 1).drop_last() =~= t.take(j));
        assert(t.take(j + 1).last() == t[j]);
        assert(all_digits(t.take(j)));
        lemma_dec_val_nonneg(t.take(j));
        assert(dec_val(t.take(j)) <= dec_val(t.take(j + 1)));
        lemma_dec_val_mono(t, j + 1);
    }
}

pub open spec fn render_bool(b: bool) -> Seq<char> {
    if b {
        seq!['t', 'r', 'u', 'e']
    } else {
        seq!['f', 'a', 'l', 's', 'e']
    }
}

pub open spec fn arr_tail_r(items: Seq<Seq<char>>) -> Seq<char>
    decreases items.len(),
{
    if items.len() == 0 {
        seq![']']
    } else {
        seq![','] + quoted(items[0]) + arr_tail_r(items.skip(1))
    }
}

pub open spec fn arr_inner_r(items: Seq<Seq<char>>) -> Seq<char> {
    if items.len() == 0 {
        seq![']']
    } else {
        quoted(items[0]) + arr_tail_r(items.skip(1))
    }
}

pub open spec fn render_scalar(v: ScalarV) -> Seq<char> {
    match v {
        ScalarV::SStr(t) => quoted(t),
        ScalarV::SNum(t) => t,
        ScalarV::SBool(b) => render_bool(b),
        ScalarV::SArr(items) => seq!['['] + arr_inner_r(items),
    }
}

pub open spec fn render_pair(p: (Seq<char>, ScalarV)) -> Seq<char> {
    quoted(p.0) + seq![':'] + render_scalar(p.1)
}

pub open spec fn obj_tail_r(ps: Seq<(Seq<char>, ScalarV)>) -> Seq<char>
    decreases ps.len(),
{
    if ps.len() == 0 {
        seq!['}']
    } else {
        seq![','] + render_pair(ps[0]) + obj_tail_r(ps.skip(1))
    }
}

/// Canonical text of a flat object.
pub open spec fn render_obj(ps: Seq<(Seq<char>, ScalarV)>) -> Seq<char> {
    if ps.len() == 0 {
        seq!['{', '}']
    } else {
        seq!['{'] + render_pair(ps[0]) + obj_tail_r(ps.skip(1))
    }
}

/// A scalar the renderer may be asked to write: number tokens must be
/// well-formed, everything else always is.
pub open spec fn wf_scalar(v: ScalarV) -> bool {
    match v {
        ScalarV::SNum(t) => num_ok(t),
        _ => true,
    }
}

pub open spec fn wf_pairs(ps: Seq<(Seq<char>, ScalarV)>) -> bool {
    forall|i: int| 0 <= i < ps.len() ==> wf_scalar(#[trigger] ps[i].1)
}

// ---------------------------------------------------------------------------
// The writer, executable
// ---------------------------------------------------------------------------

fn hexdig_x(n: u32) -> (r: char)
    requires
        n < 16,
    ensures
        r == hexdig(n as int),
{
    if n == 0 {
        '0'
    } else if n == 1 {
        '1'
    } else if n == 2 {
        '2'
    } else if n == 3 {
        '3'
    } else if n == 4 {
        '4'
    } else if n == 5 {
        '5'
    } else if n == 6 {
        '6'
    } else if n == 7 {
        '7'
    } else if n == 8 {
        '8'
    } else if n == 9 {
        '9'
    } else if n == 10 {
        'a'
    } else if n == 11 {
        'b'
    } else if n == 12 {
        'c'
    } else if n == 13 {
        'd'
    } else if n == 14 {
        'e'
    } else {
        'f'
    }
}

fn esc_char_x(c: char) -> (r: Vec<char>)
    ensures
        r@ == esc_char(c),
{
    if c == '"' {
        vec!['\\', '"']
    } else if c == '\\' {
        vec!['\\', '\\']
    } else if c == '\n' {
        vec!['\\', 'n']
    } else if c == '\r' {
        vec!['\\', 'r']
    } else if c == '\t' {
        vec!['\\', 't']
    } else if c == '\u{8}' {
        vec!['\\', 'b']
    } else if c == '\u{c}' {
        vec!['\\', 'f']
    } else {
        let u = c as u32;
        if u < 0x20 {
            vec!['\\', 'u', '0', '0', hexdig_x(u / 16), hexdig_x(u % 16)]
        } else {
            vec![c]
        }
    }
}

fn esc_x(s: &[char]) -> (r: Vec<char>)
    ensures
        r@ == esc(s@),
    decreases s@.len(),
{
    if s.len() == 0 {
        Vec::new()
    } else {
        let mut h = esc_char_x(s[0]);
        let mut t = esc_x(rest_from(s, 1));
        h.append(&mut t);
        h
    }
}

fn quoted_x(s: &[char]) -> (r: Vec<char>)
    ensures
        r@ == quoted(s@),
{
    let mut out: Vec<char> = Vec::new();
    out.push('"');
    let mut e = esc_x(s);
    out.append(&mut e);
    out.push('"');
    proof {
        assert(out@ =~= quoted(s@));
    }
    out
}

/// Decimal digits of `n`.
pub fn dec_str_x(n: u64) -> (r: Vec<char>)
    ensures
        r@ == dec_str(n as nat),
    decreases n,
{
    if n < 10 {
        let mut v: Vec<char> = Vec::new();
        v.push(hexdig_x(n as u32));
        proof {
            assert(v@ =~= seq![hexdig(n as int)]);
        }
        v
    } else {
        let mut v = dec_str_x(n / 10);
        v.push(hexdig_x((n % 10) as u32));
        proof {
            assert((n as nat) / 10 == (n / 10) as nat);
            assert((n as nat) % 10 == (n % 10) as nat);
            assert(v@ =~= dec_str((n / 10) as nat) + seq![hexdig((n % 10) as int)]);
        }
        v
    }
}

/// A digit string read as a `u64`, if it is one and fits.
pub fn parse_u64_x(t: &[char]) -> (r: Option<u64>)
    ensures
        r == to_u64_v(t@),
{
    let n = t.len();
    if n == 0 {
        return None;
    }
    let mut acc: u64 = 0;
    let mut i: usize = 0;
    while i < n
        invariant
            n == t@.len(),
            0 < n,
            i <= n,
            all_digits(t@.take(i as int)),
            acc == dec_val(t@.take(i as int)),
        decreases n - i,
    {
        let c = t[i];
        if !is_digit_x(c) {
            proof {
                assert(!all_digits(t@));
            }
            return None;
        }
        let d: u64 = (c as u32 - 0x30) as u64;
        proof {
            assert(t@.take(i as int + 1).drop_last() =~= t@.take(i as int));
            assert(t@.take(i as int + 1).last() == t@[i as int]);
            assert(all_digits(t@.take(i as int + 1)));
        }
        if acc > (u64::MAX - d) / 10 {
            proof {
                assert(10 * ((u64::MAX - d) / 10) + (u64::MAX - d) % 10 == u64::MAX - d);
                assert(acc * 10 + d > u64::MAX);
                assert(dec_val(t@.take(i as int + 1)) > u64::MAX);
                if all_digits(t@) {
                    lemma_dec_val_mono(t@, i as int + 1);
                    assert(dec_val(t@) > u64::MAX);
                }
            }
            return None;
        }
        proof {
            assert(acc * 10 <= ((u64::MAX - d) / 10) * 10 <= u64::MAX - d);
        }
        acc = acc * 10 + d;
        i = i + 1;
    }
    proof {
        assert(t@.take(n as int) =~= t@);
    }
    Some(acc)
}

fn render_scalar_x(v: &Scalar) -> (r: Vec<char>)
    ensures
        r@ == render_scalar(v@),
{
    match v {
        Scalar::SStr(t) => quoted_x(t.as_slice()),
        Scalar::SNum(t) => vstd::slice::slice_to_vec(t.as_slice()),
        Scalar::SBool(b) => {
            if *b {
                vec!['t', 'r', 'u', 'e']
            } else {
                vec!['f', 'a', 'l', 's', 'e']
            }
        },
        Scalar::SArr(items) => {
            let mut out: Vec<char> = Vec::new();
            out.push('[');
            let mut inner = arr_inner_x(items.as_slice());
            out.append(&mut inner);
            proof {
                assert(out@ =~= seq!['['] + arr_inner_r(strs_view(items@)));
            }
            out
        },
    }
}

fn arr_tail_x_r(items: &[Vec<char>]) -> (r: Vec<char>)
    ensures
        r@ == arr_tail_r(strs_view(items@)),
    decreases items@.len(),
{
    if items.len() == 0 {
        let v: Vec<char> = vec![']'];
        proof {
            assert(strs_view(items@) =~= Seq::<Seq<char>>::empty());
        }
        v
    } else {
        let mut out: Vec<char> = Vec::new();
        out.push(',');
        let first = vstd::slice::slice_index_get(items, 0);
        let mut q = quoted_x(first.as_slice());
        out.append(&mut q);
        let mut t = arr_tail_x_r(slice_subrange(items, 1, items.len()));
        out.append(&mut t);
        proof {
            assert(strs_view(items@.subrange(1, items@.len() as int)) =~= strs_view(
                items@,
            ).skip(1));
            assert(strs_view(items@)[0] == items@[0]@);
            assert(out@ =~= arr_tail_r(strs_view(items@)));
        }
        out
    }
}

fn arr_inner_x(items: &[Vec<char>]) -> (r: Vec<char>)
    ensures
        r@ == arr_inner_r(strs_view(items@)),
{
    if items.len() == 0 {
        let v: Vec<char> = vec![']'];
        proof {
            assert(strs_view(items@) =~= Seq::<Seq<char>>::empty());
        }
        v
    } else {
        let first = vstd::slice::slice_index_get(items, 0);
        let mut out = quoted_x(first.as_slice());
        let mut t = arr_tail_x_r(slice_subrange(items, 1, items.len()));
        out.append(&mut t);
        proof {
            assert(strs_view(items@.subrange(1, items@.len() as int)) =~= strs_view(
                items@,
            ).skip(1));
            assert(strs_view(items@)[0] == items@[0]@);
            assert(out@ =~= arr_inner_r(strs_view(items@)));
        }
        out
    }
}

fn render_pair_x(p: &(Vec<char>, Scalar)) -> (r: Vec<char>)
    ensures
        r@ == render_pair((p.0@, p.1@)),
{
    let mut out = quoted_x(p.0.as_slice());
    out.push(':');
    let mut v = render_scalar_x(&p.1);
    out.append(&mut v);
    proof {
        assert(out@ =~= render_pair((p.0@, p.1@)));
    }
    out
}

fn obj_tail_x_r(ps: &[(Vec<char>, Scalar)]) -> (r: Vec<char>)
    ensures
        r@ == obj_tail_r(pairs_view(ps@)),
    decreases ps@.len(),
{
    if ps.len() == 0 {
        let v: Vec<char> = vec!['}'];
        proof {
            assert(pairs_view(ps@) =~= Seq::<(Seq<char>, ScalarV)>::empty());
        }
        v
    } else {
        let mut out: Vec<char> = Vec::new();
        out.push(',');
        let first = vstd::slice::slice_index_get(ps, 0);
        let mut p = render_pair_x(first);
        out.append(&mut p);
        let mut t = obj_tail_x_r(slice_subrange(ps, 1, ps.len()));
        out.append(&mut t);
        proof {
            assert(pairs_view(ps@.subrange(1, ps@.len() as int)) =~= pairs_view(ps@).skip(1));
            assert(pairs_view(ps@)[0] == (ps@[0].0@, ps@[0].1@));
            assert(out@ =~= obj_tail_r(pairs_view(ps@)));
        }
        out
    }
}

/// Write the canonical text of a flat object.
pub fn render_obj_x(ps: &[(Vec<char>, Scalar)]) -> (r: Vec<char>)
    ensures
        r@ == render_obj(pairs_view(ps@)),
{
    if ps.len() == 0 {
        let v: Vec<char> = vec!['{', '}'];
        proof {
            assert(pairs_view(ps@) =~= Seq::<(Seq<char>, ScalarV)>::empty());
        }
        v
    } else {
        let mut out: Vec<char> = Vec::new();
        out.push('{');
        let first = vstd::slice::slice_index_get(ps, 0);
        let mut p = render_pair_x(first);
        out.append(&mut p);
        let mut t = obj_tail_x_r(slice_subrange(ps, 1, ps.len()));
        out.append(&mut t);
        proof {
            assert(pairs_view(ps@.subrange(1, ps@.len() as int)) =~= pairs_view(ps@).skip(1));
            assert(pairs_view(ps@)[0] == (ps@[0].0@, ps@[0].1@));
            assert(out@ =~= render_obj(pairs_view(ps@)));
        }
        out
    }
}

// ---------------------------------------------------------------------------
// The reader recovers what the writer wrote
// ---------------------------------------------------------------------------

proof fn lemma_hexdig(n: int)
    requires
        0 <= n < 16,
    ensures
        is_hex_c(hexdig(n)),
        hex_val(hexdig(n)) == n,
        n < 10 ==> is_digit_c(hexdig(n)) && dval(hexdig(n)) == n,
{
}

proof fn char_eq_from_u32(a: char, b: char)
    requires
        a as u32 == b as u32,
    ensures
        a == b,
{
}

#[verifier::rlimit(100)]
proof fn lemma_str_body_complete(s: Seq<char>, rest: Seq<char>)
    ensures
        p_str_body(esc(s) + seq!['"'] + rest) == Some((s, rest)),
    decreases s.len(),
{
    let input = esc(s) + seq!['"'] + rest;
    if s.len() == 0 {
        assert(esc(s) =~= Seq::<char>::empty());
        assert(input =~= seq!['"'] + rest);
        assert(input[0] == '"');
        assert(input.skip(1) =~= rest);
    } else {
        let c = s[0];
        let s2 = s.skip(1);
        let tail2 = esc(s2) + seq!['"'] + rest;
        lemma_str_body_complete(s2, rest);
        assert(esc(s) == esc_char(c) + esc(s2));
        assert(input =~= esc_char(c) + tail2);
        assert(seq![c] + s2 =~= s);
        if c == '"' {
            assert(esc_char(c) =~= seq!['\\', '"']);
            assert(input[0] == '\\' && input[1] == '"');
            assert(input.skip(2) =~= tail2);
        } else if c == '\\' {
            assert(esc_char(c) =~= seq!['\\', '\\']);
            assert(input[0] == '\\' && input[1] == '\\');
            assert(input.skip(2) =~= tail2);
        } else if c == '\n' {
            assert(esc_char(c) =~= seq!['\\', 'n']);
            assert(input[0] == '\\' && input[1] == 'n');
            assert(input.skip(2) =~= tail2);
        } else if c == '\r' {
            assert(esc_char(c) =~= seq!['\\', 'r']);
            assert(input[0] == '\\' && input[1] == 'r');
            assert(input.skip(2) =~= tail2);
        } else if c == '\t' {
            assert(esc_char(c) =~= seq!['\\', 't']);
            assert(input[0] == '\\' && input[1] == 't');
            assert(input.skip(2) =~= tail2);
        } else if c == '\u{8}' {
            assert(esc_char(c) =~= seq!['\\', 'b']);
            assert(input[0] == '\\' && input[1] == 'b');
            assert(input.skip(2) =~= tail2);
        } else if c == '\u{c}' {
            assert(esc_char(c) =~= seq!['\\', 'f']);
            assert(input[0] == '\\' && input[1] == 'f');
            assert(input.skip(2) =~= tail2);
        } else if (c as u32) < 0x20 {
            let u = (c as u32) as int;
            lemma_hexdig(u / 16);
            lemma_hexdig(u % 16);
            assert(esc_char(c) =~= seq!['\\', 'u', '0', '0', hexdig(u / 16), hexdig(u % 16)]);
            assert(input.len() >= 6);
            assert(input[0] == '\\' && input[1] == 'u' && input[2] == '0' && input[3] == '0');
            assert(input[4] == hexdig(u / 16) && input[5] == hexdig(u % 16));
            assert(is_hex_c('0') && hex_val('0') == 0);
            assert(hex4_ok(input, 2));
            assert(hex4_at(input, 2) == u);
            let c2 = char_of((u as u32));
            assert(c as u32 == u as u32);
            assert(c2 as u32 == u as u32);
            char_eq_from_u32(c2, c);
            assert(input.skip(6) =~= tail2);
        } else {
            assert(esc_char(c) =~= seq![c]);
            assert(input[0] == c);
            assert(input.skip(1) =~= tail2);
        }
    }
}

proof fn lemma_reject_stays(t: Seq<char>)
    ensures
        num_run(NumSt::Reject, t) == NumSt::Reject,
    decreases t.len(),
{
    if t.len() > 0 {
        lemma_reject_stays(t.skip(1));
    }
}

proof fn lemma_num_first(t: Seq<char>)
    requires
        num_ok(t),
    ensures
        t.len() > 0,
        is_digit_c(t[0]) || t[0] == '-',
{
    if t.len() == 0 {
        assert(num_run(NumSt::Start, t) == NumSt::Start);
    } else if !(is_digit_c(t[0]) || t[0] == '-') {
        assert(num_step(NumSt::Start, t[0]) == NumSt::Reject);
        lemma_reject_stays(t.skip(1));
        assert(false);
    }
}

proof fn lemma_run_chars(st: NumSt, t: Seq<char>)
    requires
        num_accepting(num_run(st, t)),
    ensures
        forall|i: int| 0 <= i < t.len() ==> is_num_char_c(#[trigger] t[i]),
    decreases t.len(),
{
    if t.len() > 0 {
        if !is_num_char_c(t[0]) {
            assert(num_step(st, t[0]) == NumSt::Reject);
            lemma_reject_stays(t.skip(1));
            assert(false);
        }
        lemma_run_chars(num_step(st, t[0]), t.skip(1));
        assert(forall|i: int|
            0 <= i < t.len() ==> is_num_char_c(#[trigger] t[i]) == is_num_char_c(
                if i == 0 {
                    t[0]
                } else {
                    t.skip(1)[i - 1]
                },
            ));
    }
}

proof fn lemma_numchar_token(t: Seq<char>, rest: Seq<char>)
    requires
        forall|i: int| 0 <= i < t.len() ==> is_num_char_c(#[trigger] t[i]),
        rest.len() > 0,
        !is_num_char_c(rest[0]),
    ensures
        num_token(t + rest) == t,
    decreases t.len(),
{
    if t.len() == 0 {
        assert(t + rest =~= rest);
        assert(num_token(t + rest) =~= t);
    } else {
        assert((t + rest)[0] == t[0]);
        assert((t + rest).skip(1) =~= t.skip(1) + rest);
        lemma_numchar_token(t.skip(1), rest);
        assert(num_token(t + rest) == seq![t[0]] + num_token(t.skip(1) + rest));
        assert(seq![t[0]] + t.skip(1) =~= t);
    }
}

proof fn lemma_num_run_digits(t: Seq<char>)
    requires
        all_digits(t),
    ensures
        num_run(NumSt::IntPart, t) == NumSt::IntPart,
    decreases t.len(),
{
    if t.len() > 0 {
        assert(num_step(NumSt::IntPart, t[0]) == NumSt::IntPart);
        assert(all_digits(t.skip(1)));
        lemma_num_run_digits(t.skip(1));
    }
}

/// A nonempty string of digits is a well-formed number token.
pub proof fn lemma_digits_num_ok(t: Seq<char>)
    requires
        all_digits(t),
        t.len() > 0,
    ensures
        num_ok(t),
{
    assert(num_step(NumSt::Start, t[0]) == NumSt::IntPart);
    assert(all_digits(t.skip(1)));
    lemma_num_run_digits(t.skip(1));
    assert(num_run(NumSt::Start, t) == num_run(NumSt::IntPart, t.skip(1)));
}

proof fn lemma_number_complete(t: Seq<char>, rest: Seq<char>)
    requires
        num_ok(t),
        rest.len() > 0,
        !is_num_char_c(rest[0]),
    ensures
        p_number(t + rest) == Some((t, rest)),
{
    lemma_run_chars(NumSt::Start, t);
    lemma_numchar_token(t, rest);
    assert((t + rest).skip(t.len() as int) =~= rest);
}

/// Decimal strings are digit strings.
pub proof fn lemma_dec_str_digits(n: nat)
    ensures
        all_digits(dec_str(n)),
        dec_str(n).len() >= 1,
    decreases n,
{
    if n < 10 {
        lemma_hexdig(n as int);
        assert(dec_str(n) == seq![hexdig(n as int)]);
        assert(forall|i: int| 0 <= i < 1 ==> is_digit_c(#[trigger] dec_str(n)[i]));
    } else {
        lemma_dec_str_digits(n / 10);
        lemma_hexdig((n % 10) as int);
        let pre = dec_str(n / 10);
        let d = hexdig((n % 10) as int);
        assert(dec_str(n) == pre + seq![d]);
        assert forall|i: int| 0 <= i < dec_str(n).len() implies is_digit_c(
            #[trigger] dec_str(n)[i],
        ) by {
            if i < pre.len() {
                assert(dec_str(n)[i] == pre[i]);
            } else {
                assert(dec_str(n)[i] == d);
            }
        }
    }
}

/// Reading back the decimal digits of `n` gives `n`.
pub proof fn lemma_dec_val_round(n: nat)
    ensures
        dec_val(dec_str(n)) == n,
    decreases n,
{
    if n < 10 {
        lemma_hexdig(n as int);
        let d = hexdig(n as int);
        assert(dec_str(n) == seq![d]);
        assert(seq![d].drop_last() =~= Seq::<char>::empty());
        assert(seq![d].last() == d);
        assert(dec_val(Seq::<char>::empty()) == 0);
        assert(dec_val(seq![d]) == dval(d));
    } else {
        lemma_dec_val_round(n / 10);
        lemma_hexdig((n % 10) as int);
        let pre = dec_str(n / 10);
        let d = hexdig((n % 10) as int);
        assert(dec_str(n) == pre + seq![d]);
        assert((pre + seq![d]).drop_last() =~= pre);
        assert((pre + seq![d]).last() == d);
        assert(dec_val(dec_str(n)) == dec_val(pre) * 10 + dval(d));
        assert(10 * (n / 10) + n % 10 == n);
    }
}

/// The decimal digits of a `u64` read back as exactly that value.
pub proof fn lemma_to_u64_dec(n: u64)
    ensures
        to_u64_v(dec_str(n as nat)) == Some(n),
{
    lemma_dec_str_digits(n as nat);
    lemma_dec_val_round(n as nat);
}

/// The decimal digits of a `u64` form a well-formed number token.
pub proof fn lemma_dec_num_ok(n: u64)
    ensures
        num_ok(dec_str(n as nat)),
{
    lemma_dec_str_digits(n as nat);
    lemma_digits_num_ok(dec_str(n as nat));
}

proof fn lemma_arr_tail_complete(items: Seq<Seq<char>>, rest: Seq<char>)
    ensures
        p_arr_tail(arr_tail_r(items) + rest) == Some((items, rest)),
    decreases items.len(),
{
    let input = arr_tail_r(items) + rest;
    if items.len() == 0 {
        assert(input =~= seq![']'] + rest);
        assert(input[0] == ']');
        assert(skip_ws(input) == input);
        assert(input.skip(1) =~= rest);
    } else {
        let i0 = items[0];
        let tailr = arr_tail_r(items.skip(1)) + rest;
        assert(arr_tail_r(items) == seq![','] + quoted(i0) + arr_tail_r(items.skip(1)));
        assert(input =~= seq![','] + (quoted(i0) + tailr));
        assert(input[0] == ',');
        assert(skip_ws(input) == input);
        let s2 = input.skip(1);
        assert(s2 =~= quoted(i0) + tailr);
        assert(s2[0] == '"');
        assert(skip_ws(s2) == s2);
        assert(s2.skip(1) =~= esc(i0) + seq!['"'] + tailr);
        lemma_str_body_complete(i0, tailr);
        lemma_arr_tail_complete(items.skip(1), rest);
        assert(seq![i0] + items.skip(1) =~= items);
    }
}

proof fn lemma_arr_inner_complete(items: Seq<Seq<char>>, rest: Seq<char>)
    ensures
        p_arr(arr_inner_r(items) + rest) == Some((items, rest)),
{
    let input = arr_inner_r(items) + rest;
    if items.len() == 0 {
        assert(input =~= seq![']'] + rest);
        assert(input[0] == ']');
        assert(skip_ws(input) == input);
        assert(input.skip(1) =~= rest);
    } else {
        let i0 = items[0];
        let tailr = arr_tail_r(items.skip(1)) + rest;
        assert(input =~= seq!['"'] + (esc(i0) + seq!['"'] + tailr));
        assert(input[0] == '"');
        assert(skip_ws(input) == input);
        assert(input.skip(1) =~= esc(i0) + seq!['"'] + tailr);
        lemma_str_body_complete(i0, tailr);
        lemma_arr_tail_complete(items.skip(1), rest);
        assert(seq![i0] + items.skip(1) =~= items);
    }
}

#[verifier::rlimit(100)]
proof fn lemma_value_complete(v: ScalarV, rest: Seq<char>)
    requires
        wf_scalar(v),
        rest.len() > 0,
        !is_num_char_c(rest[0]),
    ensures
        p_value(render_scalar(v) + rest) == Some((v, rest)),
{
    let input = render_scalar(v) + rest;
    match v {
        ScalarV::SStr(t) => {
            assert(input =~= seq!['"'] + (esc(t) + seq!['"'] + rest));
            assert(input[0] == '"');
            assert(input.skip(1) =~= esc(t) + seq!['"'] + rest);
            lemma_str_body_complete(t, rest);
        },
        ScalarV::SBool(b) => {
            if b {
                assert(input =~= seq!['t', 'r', 'u', 'e'] + rest);
                assert(input[0] == 't' && input[1] == 'r' && input[2] == 'u' && input[3] == 'e');
                assert(input.skip(4) =~= rest);
            } else {
                assert(input =~= seq!['f', 'a', 'l', 's', 'e'] + rest);
                assert(input[0] == 'f' && input[1] == 'a' && input[2] == 'l' && input[3] == 's'
                    && input[4] == 'e');
                assert(input.skip(5) =~= rest);
            }
        },
        ScalarV::SArr(items) => {
            assert(input =~= seq!['['] + (arr_inner_r(items) + rest));
            assert(input[0] == '[');
            assert(input.skip(1) =~= arr_inner_r(items) + rest);
            lemma_arr_inner_complete(items, rest);
        },
        ScalarV::SNum(t) => {
            lemma_num_first(t);
            assert(input =~= t + rest);
            assert(input[0] == t[0]);
            assert(is_num_char_c(input[0]));
            assert(input[0] != '"' && input[0] != 't' && input[0] != 'f' && input[0] != '[');
            lemma_number_complete(t, rest);
        },
    }
}

#[verifier::rlimit(100)]
proof fn lemma_pair_complete(name: Seq<char>, v: ScalarV, rest: Seq<char>)
    requires
        wf_scalar(v),
        rest.len() > 0,
        !is_num_char_c(rest[0]),
    ensures
        p_pair(render_pair((name, v)) + rest) == Some(((name, v), rest)),
{
    let input = render_pair((name, v)) + rest;
    let r = seq![':'] + render_scalar(v) + rest;
    assert(input =~= seq!['"'] + (esc(name) + seq!['"'] + r));
    assert(input[0] == '"');
    assert(skip_ws(input) == input);
    assert(input.skip(1) =~= esc(name) + seq!['"'] + r);
    lemma_str_body_complete(name, r);
    assert(r[0] == ':');
    assert(skip_ws(r) == r);
    let r2 = render_scalar(v) + rest;
    assert(r.skip(1) =~= r2);
    match v {
        ScalarV::SStr(t) => {
            assert(r2[0] == '"');
        },
        ScalarV::SBool(b) => {
            assert(r2[0] == 't' || r2[0] == 'f');
        },
        ScalarV::SArr(items) => {
            assert(r2[0] == '[');
        },
        ScalarV::SNum(t) => {
            lemma_num_first(t);
            assert(r2[0] == t[0]);
        },
    }
    assert(!is_ws_c(r2[0]));
    assert(skip_ws(r2) == r2);
    lemma_value_complete(v, rest);
}

proof fn lemma_members_tail_complete(ps: Seq<(Seq<char>, ScalarV)>, rest: Seq<char>)
    requires
        wf_pairs(ps),
    ensures
        p_members_tail(obj_tail_r(ps) + rest) == Some((ps, rest)),
    decreases ps.len(),
{
    let input = obj_tail_r(ps) + rest;
    if ps.len() == 0 {
        assert(input =~= seq!['}'] + rest);
        assert(input[0] == '}');
        assert(skip_ws(input) == input);
        assert(input.skip(1) =~= rest);
    } else {
        let p0 = ps[0];
        let tl = obj_tail_r(ps.skip(1)) + rest;
        assert(obj_tail_r(ps) == seq![','] + render_pair(p0) + obj_tail_r(ps.skip(1)));
        assert(input =~= seq![','] + (render_pair(p0) + tl));
        assert(input[0] == ',');
        assert(skip_ws(input) == input);
        assert(input.skip(1) =~= render_pair(p0) + tl);
        if ps.skip(1).len() == 0 {
            assert(tl[0] == '}');
        } else {
            assert(tl[0] == ',');
        }
        assert(tl.len() > 0 && !is_num_char_c(tl[0]));
        assert(wf_scalar(ps[0].1));
        lemma_pair_complete(p0.0, p0.1, tl);
        assert((p0.0, p0.1) == p0);
        assert(wf_pairs(ps.skip(1)));
        lemma_members_tail_complete(ps.skip(1), rest);
        assert(seq![p0] + ps.skip(1) =~= ps);
    }
}

/// The reader recovers exactly the member list that the writer rendered.
#[verifier::rlimit(60)]
pub proof fn lemma_render_obj_parses(ps: Seq<(Seq<char>, ScalarV)>)
    requires
        wf_pairs(ps),
    ensures
        parse_obj_text(render_obj(ps)) == Some(ps),
{
    let input = render_obj(ps);
    if ps.len() == 0 {
        assert(input == seq!['{', '}']);
        assert(input[0] == '{');
        assert(skip_ws(input) == input);
        assert(input.skip(1) =~= seq!['}']);
        assert(input.skip(1)[0] == '}');
        assert(skip_ws(input.skip(1)) == input.skip(1));
        assert(input.skip(1).skip(1) =~= Seq::<char>::empty());
        assert(skip_ws(Seq::<char>::empty()).len() == 0);
    } else {
        let p0 = ps[0];
        let body = render_pair(p0) + obj_tail_r(ps.skip(1));
        assert(input =~= seq!['{'] + body);
        assert(input[0] == '{');
        assert(skip_ws(input) == input);
        assert(input.skip(1) =~= body);
        assert(body =~= seq!['"'] + (esc(p0.0) + seq!['"'] + (seq![':'] + render_scalar(p0.1)
            + obj_tail_r(ps.skip(1)))));
        assert(body[0] == '"');
        assert(skip_ws(body) == body);
        let tl = obj_tail_r(ps.skip(1));
        if ps.skip(1).len() == 0 {
            assert(tl[0] == '}');
        } else {
            assert(tl[0] == ',');
        }
        assert(tl.len() > 0 && !is_num_char_c(tl[0]));
        assert(wf_scalar(ps[0].1));
        assert(render_pair(p0) + tl =~= body);
        lemma_pair_complete(p0.0, p0.1, tl);
        assert((p0.0, p0.1) == p0);
        assert(wf_pairs(ps.skip(1)));
        lemma_members_tail_complete(ps.skip(1), Seq::<char>::empty());
        assert(tl + Seq::<char>::empty() =~= tl);
        assert(seq![p0] + ps.skip(1) =~= ps);
        assert(skip_ws(Seq::<char>::empty()).len() == 0);
    }
}

} // verus!
