use vstd::prelude::*;

use crate::decimal::{
    dec, digit_count, digit_value, digits_value, is_digit, lemma_pow10_add, pad, pow10, push_char,
    push_decimal,
};
use crate::error::{Error, Result};

verus! {

/// The neutral field record that moves values in and out of the text codec.
/// Field values are magnitudes; the sign is held once, in `negative`.
#[derive(Copy, Clone, Debug, PartialEq, Eq, Structural)]
pub struct NaiveDateTime {
    pub year: u32,
    pub month: u32,
    pub day: u32,
    pub hour: u32,
    pub minute: u32,
    pub sec: u32,
    pub usec: u32,
    pub negative: bool,
}

/// The record with every field zero and the sign positive.
pub open spec fn zero_record(negative: bool) -> NaiveDateTime {
    NaiveDateTime {
        year: 0,
        month: 0,
        day: 0,
        hour: 0,
        minute: 0,
        sec: 0,
        usec: 0,
        negative,
    }
}

impl NaiveDateTime {
    /// The record with every field zero and the sign positive.
    pub fn new() -> (r: NaiveDateTime)
        ensures
            r == zero_record(false),
    {
        NaiveDateTime {
            year: 0,
            month: 0,
            day: 0,
            hour: 0,
            minute: 0,
            sec: 0,
            usec: 0,
            negative: false,
        }
    }
}

/// One element of a compiled pattern.
#[derive(Copy, Clone, Debug, PartialEq, Eq, Structural)]
pub enum Token {
    /// The year, written with at least the given number of digits.
    Year(u8),
    /// The month, two digits.
    Month,
    /// The day, at least two digits.
    Day,
    /// The hour of a 24-hour clock, two digits.
    Hour,
    /// The minute, two digits.
    Minute,
    /// The second, two digits.
    Second,
    /// The fraction of a second with the given number of digits; zero when
    /// the pattern gives none.
    Fraction(u8),
    /// Literal text: the characters of the pattern from the first index up to
    /// the second.
    Literal(usize, usize),
}

/// An ASCII letter.
pub open spec fn is_letter(c: char) -> bool {
    ('a' <= c && c <= 'z') || ('A' <= c && c <= 'Z')
}

/// Whitespace that the parser skips.
pub open spec fn is_space(c: char) -> bool {
    c == ' ' || c == '\t' || c == '\n' || c == '\r'
}

/// The letter `u` in either case (`l` is its lower case).
pub open spec fn is_ci(c: char, u: char, l: char) -> bool {
    c == u || c == l
}

/// The character at `i` is the given letter in either case.
pub open spec fn letter_at(p: Seq<char>, i: int, u: char, l: char) -> bool {
    0 <= i < p.len() && is_ci(p[i], u, l)
}

/// How many of the characters from `i` make one year token (one to four `Y`s).
pub open spec fn year_len(p: Seq<char>, i: int) -> int {
    if letter_at(p, i + 1, 'Y', 'y') {
        if letter_at(p, i + 2, 'Y', 'y') {
            if letter_at(p, i + 3, 'Y', 'y') {
                4
            } else {
                3
            }
        } else {
            2
        }
    } else {
        1
    }
}

/// The end of the run of characters from `i` that are not letters.
pub open spec fn literal_end(p: Seq<char>, i: int) -> int
    decreases p.len() - i,
{
    if i < 0 || i >= p.len() || is_letter(p[i]) {
        i
    } else {
        literal_end(p, i + 1)
    }
}

/// The token that starts at `i`, with the index after it; `None` for letters
/// that make no known token.
pub open spec fn lex(p: Seq<char>, i: int) -> Option<(Token, int)> {
    let c = p[i];
    if !is_letter(c) {
        Some((Token::Literal(i as usize, literal_end(p, i) as usize), literal_end(p, i)))
    } else if is_ci(c, 'Y', 'y') {
        Some((Token::Year(year_len(p, i) as u8), i + year_len(p, i)))
    } else if is_ci(c, 'M', 'm') && letter_at(p, i + 1, 'M', 'm') {
        Some((Token::Month, i + 2))
    } else if is_ci(c, 'M', 'm') && letter_at(p, i + 1, 'I', 'i') {
        Some((Token::Minute, i + 2))
    } else if is_ci(c, 'D', 'd') && letter_at(p, i + 1, 'D', 'd') {
        Some((Token::Day, i + 2))
    } else if is_ci(c, 'S', 's') && letter_at(p, i + 1, 'S', 's') {
        Some((Token::Second, i + 2))
    } else if is_ci(c, 'H', 'h') && letter_at(p, i + 1, 'H', 'h') && i + 3 < p.len() && p[i
        + 2] == '2' && p[i + 3] == '4' {
        Some((Token::Hour, i + 4))
    } else if is_ci(c, 'F', 'f') && letter_at(p, i + 1, 'F', 'f') {
        if i + 2 < p.len() && '1' <= p[i + 2] && p[i + 2] <= '9' {
            Some((Token::Fraction(digit_value(p[i + 2]) as u8), i + 3))
        } else {
            Some((Token::Fraction(0), i + 2))
        }
    } else {
        None
    }
}

/// The tokens of the pattern from index `i` on; `None` when it holds an
/// unknown token.
pub open spec fn compile_from(p: Seq<char>, i: int) -> Option<Seq<Token>>
    decreases p.len() - i,
{
    if i < 0 || i >= p.len() {
        Some(Seq::empty())
    } else {
        match lex(p, i) {
            Some((t, j)) => if i < j <= p.len() {
                match compile_from(p, j) {
                    Some(rest) => Some(seq![t] + rest),
                    None => None,
                }
            } else {
                None
            },
            None => None,
        }
    }
}

/// The compiled program of a pattern.
pub open spec fn compile(p: Seq<char>) -> Option<Seq<Token>> {
    compile_from(p, 0)
}

/// A token that fits the pattern it was taken from.
pub open spec fn token_ok(p: Seq<char>, t: Token) -> bool {
    match t {
        Token::Year(w) => 1 <= w <= 4,
        Token::Fraction(q) => q <= 9,
        Token::Literal(a, b) => a <= b <= p.len(),
        _ => true,
    }
}

/// A field of the day-time kind.
pub open spec fn is_day_time_field(t: Token) -> bool {
    t is Day || t is Hour || t is Minute || t is Second || t is Fraction
}

/// A field of the year-month kind.
pub open spec fn is_year_month_field(t: Token) -> bool {
    t is Year || t is Month
}

/// The program names a day, hour, minute, second or fraction field.
pub open spec fn uses_day_time(ts: Seq<Token>) -> bool {
    exists|i: int| 0 <= i < ts.len() && is_day_time_field(#[trigger] ts[i])
}

/// The program names a year or month field.
pub open spec fn uses_year_month(ts: Seq<Token>) -> bool {
    exists|i: int| 0 <= i < ts.len() && is_year_month_field(#[trigger] ts[i])
}

// ---------------------------------------------------------------------------
// Formatting

/// The digits of a fraction of a second with `q` digits (six when none given).
pub open spec fn render_fraction(usec: nat, q: nat) -> Seq<char> {
    let w: nat = if q == 0 {
        6
    } else {
        q
    };
    if w <= 6 {
        pad(dec(usec / pow10((6 - w) as nat)), w)
    } else {
        pad(dec(usec * pow10((w - 6) as nat)), w)
    }
}

/// The text of one token for a record.
pub open spec fn render_token(p: Seq<char>, t: Token, r: NaiveDateTime) -> Seq<char> {
    match t {
        Token::Year(w) => pad(dec(r.year as nat), w as nat),
        Token::Month => pad(dec(r.month as nat), 2),
        Token::Day => pad(dec(r.day as nat), 2),
        Token::Hour => pad(dec(r.hour as nat), 2),
        Token::Minute => pad(dec(r.minute as nat), 2),
        Token::Second => pad(dec(r.sec as nat), 2),
        Token::Fraction(q) => render_fraction(r.usec as nat, q as nat),
        Token::Literal(a, b) => p.subrange(a as int, b as int),
    }
}

/// The text of a run of tokens for a record.
pub open spec fn render_tokens(p: Seq<char>, ts: Seq<Token>, r: NaiveDateTime) -> Seq<char>
    decreases ts.len(),
{
    if ts.len() == 0 {
        Seq::empty()
    } else {
        render_tokens(p, ts.drop_last(), r) + render_token(p, ts.last(), r)
    }
}

/// The sign character of a record.
pub open spec fn sign_char(negative: bool) -> char {
    if negative {
        '-'
    } else {
        '+'
    }
}

/// The text of a record under a program: the sign, then each token in turn.
pub open spec fn format_record(p: Seq<char>, ts: Seq<Token>, r: NaiveDateTime) -> Seq<char> {
    seq![sign_char(r.negative)] + render_tokens(p, ts, r)
}

// ---------------------------------------------------------------------------
// Parsing

/// The input with its leading whitespace removed.
pub open spec fn skip_space(s: Seq<char>) -> Seq<char>
    decreases s.len(),
{
    if s.len() > 0 && is_space(s[0]) {
        skip_space(s.drop_first())
    } else {
        s
    }
}

/// What is left of the input after literal text: whitespace in the literal
/// matches any run of whitespace, other characters match themselves, and
/// whitespace after it is skipped.
pub open spec fn match_literal(lit: Seq<char>, s: Seq<char>) -> Option<Seq<char>>
    decreases lit.len(),
{
    if lit.len() == 0 {
        Some(skip_space(s))
    } else if is_space(lit[0]) {
        match_literal(lit.drop_first(), skip_space(s))
    } else if s.len() > 0 && s[0] == lit[0] {
        match_literal(lit.drop_first(), s.drop_first())
    } else {
        None
    }
}

/// The most digits a field token reads; `None` for no limit.
pub open spec fn max_digits(t: Token) -> Option<nat> {
    match t {
        Token::Year(_) => None,
        Token::Day => None,
        Token::Fraction(q) => Some(
            if q == 0 {
                9
            } else {
                q as nat
            },
        ),
        _ => Some(2),
    }
}

/// Microseconds, rounded half up, of a fraction written with `k` digits.
pub open spec fn fraction_usecs(v: int, k: nat) -> int {
    (v * pow10((9 - k) as nat) + 500) / 1000
}

/// The record with the field of a token set to `v`.
pub open spec fn set_field(r: NaiveDateTime, t: Token, v: u32) -> NaiveDateTime {
    match t {
        Token::Year(_) => NaiveDateTime { year: v, ..r },
        Token::Month => NaiveDateTime { month: v, ..r },
        Token::Day => NaiveDateTime { day: v, ..r },
        Token::Hour => NaiveDateTime { hour: v, ..r },
        Token::Minute => NaiveDateTime { minute: v, ..r },
        Token::Second => NaiveDateTime { sec: v, ..r },
        Token::Fraction(_) => NaiveDateTime { usec: v, ..r },
        Token::Literal(_, _) => r,
    }
}

/// Reads one token after any whitespace: the updated record and the rest of
/// the input, or `None` when the input does not match.
pub open spec fn scan_token(p: Seq<char>, t: Token, s: Seq<char>, r: NaiveDateTime) -> Option<
    (NaiveDateTime, Seq<char>),
> {
    let s1 = skip_space(s);
    match t {
        Token::Literal(a, b) => match match_literal(p.subrange(a as int, b as int), s1) {
            Some(rest) => Some((r, rest)),
            None => None,
        },
        _ => {
            let k = digit_count(
                s1,
                match max_digits(t) {
                    Some(m) => m,
                    None => s1.len(),
                },
            );
            let v = digits_value(s1.take(k as int));
            if k == 0 {
                None
            } else if t is Fraction {
                Some((set_field(r, t, fraction_usecs(v, k) as u32), s1.skip(k as int)))
            } else if v > u32::MAX {
                None
            } else {
                Some((set_field(r, t, v as u32), s1.skip(k as int)))
            }
        },
    }
}

/// Reads a run of tokens, then allows only whitespace.
pub open spec fn scan_tokens(p: Seq<char>, ts: Seq<Token>, s: Seq<char>, r: NaiveDateTime) -> Option<
    NaiveDateTime,
>
    decreases ts.len(),
{
    if ts.len() == 0 {
        if skip_space(s).len() == 0 {
            Some(r)
        } else {
            None
        }
    } else {
        match scan_token(p, ts[0], s, r) {
            Some((r2, rest)) => scan_tokens(p, ts.drop_first(), rest, r2),
            None => None,
        }
    }
}

/// The record that an input gives under a program: leading whitespace, an
/// optional sign, then the tokens; fields that the program does not name stay
/// zero.
pub open spec fn parse_record(p: Seq<char>, ts: Seq<Token>, s: Seq<char>) -> Option<NaiveDateTime> {
    let s1 = skip_space(s);
    if s1.len() > 0 && s1[0] == '-' {
        scan_tokens(p, ts, s1.drop_first(), zero_record(true))
    } else if s1.len() > 0 && s1[0] == '+' {
        scan_tokens(p, ts, s1.drop_first(), zero_record(false))
    } else {
        scan_tokens(p, ts, s1, zero_record(false))
    }
}


/// `o` with `a` in front of the tokens it holds.
pub open spec fn prepend(a: Seq<Token>, o: Option<Seq<Token>>) -> Option<Seq<Token>> {
    match o {
        Some(rest) => Some(a + rest),
        None => None,
    }
}

// ---------------------------------------------------------------------------
// Executable code

/// The characters of a string slice.
fn chars_of(s: &str) -> (r: Vec<char>)
    ensures
        r@ == s@,
{
    let n = s.unicode_len();
    let mut v: Vec<char> = Vec::new();
    let mut i: usize = 0;
    while i < n
        invariant
            n == s@.len(),
            i <= n,
            v@ == s@.take(i as int),
        decreases n - i,
    {
        v.push(s.get_char(i));
        assert(s@.take(i + 1) =~= s@.take(i as int).push(s@[i as int]));
        i += 1;
    }
    assert(s@.take(n as int) =~= s@);
    v
}

fn is_letter_char(c: char) -> (r: bool)
    ensures
        r == is_letter(c),
{
    ('a' <= c && c <= 'z') || ('A' <= c && c <= 'Z')
}

fn is_space_char(c: char) -> (r: bool)
    ensures
        r == is_space(c),
{
    c == ' ' || c == '\t' || c == '\n' || c == '\r'
}

fn is_digit_char(c: char) -> (r: bool)
    ensures
        r == is_digit(c),
{
    '0' <= c && c <= '9'
}

fn letter_at_exec(p: &Vec<char>, i: usize, u: char, l: char) -> (r: bool)
    ensures
        r == letter_at(p@, i as int, u, l),
{
    i < p.len() && (p[i] == u || p[i] == l)
}

/// Ten to the power `n`, for `n` up to nine.
fn pow10_exec(n: u32) -> (r: u64)
    requires
        n <= 9,
    ensures
        r == pow10(n as nat),
        1 <= r <= 1_000_000_000,
{
    proof {
        reveal_with_fuel(pow10, 10);
    }
    if n == 0 {
        1
    } else if n == 1 {
        10
    } else if n == 2 {
        100
    } else if n == 3 {
        1_000
    } else if n == 4 {
        10_000
    } else if n == 5 {
        100_000
    } else if n == 6 {
        1_000_000
    } else if n == 7 {
        10_000_000
    } else if n == 8 {
        100_000_000
    } else {
        1_000_000_000
    }
}

/// The token that starts at `i`, with the index after it.
fn lex_at(p: &Vec<char>, i: usize) -> (r: Option<(Token, usize)>)
    requires
        i < p@.len(),
    ensures
        r matches Some((t, j)) ==> (lex(p@, i as int) == Some((t, j as int)) && i < j <= p@.len()
            && token_ok(p@, t)),
        r is None ==> lex(p@, i as int) is None,
{
    let n = p.len();
    let c = p[i];
    if !is_letter_char(c) {
        let mut j = i;
        while j < n && !is_letter_char(p[j])
            invariant
                i <= j <= n,
                n == p@.len(),
                literal_end(p@, i as int) == literal_end(p@, j as int),
            decreases n - j,
        {
            j += 1;
        }
        assert(j > i);
        Some((Token::Literal(i, j), j))
    } else if c == 'Y' || c == 'y' {
        let w: usize = if letter_at_exec(p, i + 1, 'Y', 'y') {
            if letter_at_exec(p, i + 2, 'Y', 'y') {
                if letter_at_exec(p, i + 3, 'Y', 'y') {
                    4
                } else {
                    3
                }
            } else {
                2
            }
        } else {
            1
        };
        Some((Token::Year(w as u8), i + w))
    } else if (c == 'M' || c == 'm') && letter_at_exec(p, i + 1, 'M', 'm') {
        Some((Token::Month, i + 2))
    } else if (c == 'M' || c == 'm') && letter_at_exec(p, i + 1, 'I', 'i') {
        Some((Token::Minute, i + 2))
    } else if (c == 'D' || c == 'd') && letter_at_exec(p, i + 1, 'D', 'd') {
        Some((Token::Day, i + 2))
    } else if (c == 'S' || c == 's') && letter_at_exec(p, i + 1, 'S', 's') {
        Some((Token::Second, i + 2))
    } else if (c == 'H' || c == 'h') && letter_at_exec(p, i + 1, 'H', 'h') && n - i > 3 && p[i
        + 2] == '2' && p[i + 3] == '4' {
        Some((Token::Hour, i + 4))
    } else if (c == 'F' || c == 'f') && letter_at_exec(p, i + 1, 'F', 'f') {
        if i + 2 < n && '1' <= p[i + 2] && p[i + 2] <= '9' {
            let q = (p[i + 2] as u32 - 48) as u8;
            Some((Token::Fraction(q), i + 3))
        } else {
            Some((Token::Fraction(0), i + 2))
        }
    } else {
        None
    }
}

/// The position after the whitespace that starts at `pos`.
fn skip_space_at(s: &Vec<char>, pos: usize) -> (r: usize)
    requires
        pos <= s@.len(),
    ensures
        pos <= r <= s@.len(),
        skip_space(s@.subrange(pos as int, s@.len() as int)) == s@.subrange(
            r as int,
            s@.len() as int,
        ),
{
    let n = s.len();
    let mut q = pos;
    while q < n && is_space_char(s[q])
        invariant
            pos <= q <= n,
            n == s@.len(),
            skip_space(s@.subrange(pos as int, n as int)) == skip_space(
                s@.subrange(q as int, n as int),
            ),
        decreases n - q,
    {
        assert(s@.subrange(q as int, n as int).drop_first() =~= s@.subrange(q + 1, n as int));
        q += 1;
    }
    q
}

/// A compiled pattern, reusable to format and to parse many values.
pub struct Formatter {
    chars: Vec<char>,
    tokens: Vec<Token>,
}

impl Formatter {
    #[verifier::type_invariant]
    spec fn inv(self) -> bool {
        &&& compile(self.chars@) == Some(self.tokens@)
        &&& forall|i: int|
            0 <= i < self.tokens@.len() ==> token_ok(self.chars@, #[trigger] self.tokens@[i])
    }

    /// The characters of the pattern.
    pub closed spec fn pattern(self) -> Seq<char> {
        self.chars@
    }

    /// The tokens of the pattern.
    pub closed spec fn program(self) -> Seq<Token> {
        self.tokens@
    }

    /// Compiles a pattern; fails on letters that make no known token.
    pub fn try_new(fmt: &str) -> (r: Result<Formatter>)
        ensures
            compile(fmt@) is None ==> r matches Err(Error::InvalidFormat(_)),
            compile(fmt@) is Some ==> (r matches Ok(f) && f.pattern() == fmt@ && compile(fmt@)
                == Some(f.program())),
    {
        let p = chars_of(fmt);
        let n = p.len();
        let mut tokens: Vec<Token> = Vec::new();
        let mut i: usize = 0;
        assert(tokens@ + Seq::<Token>::empty() =~= tokens@);
        assert(forall|rest: Seq<Token>| Seq::<Token>::empty() + rest =~= rest);
        while i < n
            invariant
                i <= n,
                n == p@.len(),
                p@ == fmt@,
                compile_from(p@, 0) == prepend(tokens@, compile_from(p@, i as int)),
                forall|k: int| 0 <= k < tokens@.len() ==> token_ok(p@, #[trigger] tokens@[k]),
            decreases n - i,
        {
            match lex_at(&p, i) {
                Some((t, j)) => {
                    let ghost old_tokens = tokens@;
                    tokens.push(t);
                    proof {
                        assert(compile_from(p@, i as int) == prepend(
                            seq![t],
                            compile_from(p@, j as int),
                        ));
                        match compile_from(p@, j as int) {
                            Some(rest) => {
                                assert(old_tokens + (seq![t] + rest) =~= tokens@ + rest);
                            },
                            None => {},
                        }
                    }
                    i = j;
                },
                None => {
                    assert(compile_from(p@, i as int) is None);
                    return Err(Error::InvalidFormat("the format contains an unknown token".to_string()));
                },
            }
        }
        assert(tokens@ + Seq::<Token>::empty() =~= tokens@);
        Ok(Formatter { chars: p, tokens })
    }

    /// Appends the text of one token for a record.
    fn render_into(&self, out: &mut String, t: Token, dt: NaiveDateTime)
        requires
            token_ok(self.chars@, t),
        ensures
            final(out)@ == old(out)@ + render_token(self.pattern(), t, dt),
    {
        match t {
            Token::Year(w) => push_decimal(out, dt.year as u64, w as usize),
            Token::Month => push_decimal(out, dt.month as u64, 2),
            Token::Day => push_decimal(out, dt.day as u64, 2),
            Token::Hour => push_decimal(out, dt.hour as u64, 2),
            Token::Minute => push_decimal(out, dt.minute as u64, 2),
            Token::Second => push_decimal(out, dt.sec as u64, 2),
            Token::Fraction(q) => {
                let w: u32 = if q == 0 {
                    6
                } else {
                    q as u32
                };
                if w <= 6 {
                    let d = pow10_exec(6 - w);
                    push_decimal(out, dt.usec as u64 / d, w as usize);
                } else {
                    let m = pow10_exec(w - 6);
                    assert(dt.usec as u64 * m <= 0xFFFF_FFFFu64 * 1_000_000_000u64) by (nonlinear_arith)
                        requires
                            m <= 1_000_000_000,
                    ;
                    push_decimal(out, dt.usec as u64 * m, w as usize);
                }
            },
            Token::Literal(a, b) => {
                let ghost start = out@;
                let mut i = a;
                while i < b
                    invariant
                        a <= i <= b <= self.chars@.len(),
                        out@ == start + self.chars@.subrange(a as int, i as int),
                    decreases b - i,
                {
                    push_char(out, self.chars[i]);
                    assert(self.chars@.subrange(a as int, i + 1) =~= self.chars@.subrange(
                        a as int,
                        i as int,
                    ).push(self.chars@[i as int]));
                    i += 1;
                }
            },
        }
    }

    /// The text of a record: its sign, then each token in turn.
    pub fn format(&self, dt: NaiveDateTime) -> (r: String)
        ensures
            r@ == format_record(self.pattern(), self.program(), dt),
    {
        proof {
            use_type_invariant(self);
        }
        let mut out = String::new();
        push_char(&mut out, if dt.negative { '-' } else { '+' });
        let ghost ts = self.tokens@;
        let mut k: usize = 0;
        while k < self.tokens.len()
            invariant
                ts == self.tokens@,
                k <= ts.len(),
                forall|i: int| 0 <= i < ts.len() ==> token_ok(self.chars@, #[trigger] ts[i]),
                out@ == seq![sign_char(dt.negative)] + render_tokens(
                    self.pattern(),
                    ts.take(k as int),
                    dt,
                ),
            decreases ts.len() - k,
        {
            let t = self.tokens[k];
            self.render_into(&mut out, t, dt);
            assert(ts.take(k + 1).drop_last() =~= ts.take(k as int));
            assert(ts.take(k + 1).last() == t);
            k += 1;
        }
        assert(ts.take(ts.len() as int) =~= ts);
        out
    }

    /// The position after literal text matched from `pos`.
    fn match_literal_at(&self, s: &Vec<char>, pos: usize, a: usize, b: usize) -> (r: Option<usize>)
        requires
            pos <= s@.len(),
            a <= b <= self.chars@.len(),
        ensures
            r matches Some(q) ==> (pos <= q <= s@.len() && match_literal(
                self.chars@.subrange(a as int, b as int),
                s@.subrange(pos as int, s@.len() as int),
            ) == Some(s@.subrange(q as int, s@.len() as int))),
            r is None ==> match_literal(
                self.chars@.subrange(a as int, b as int),
                s@.subrange(pos as int, s@.len() as int),
            ) is None,
    {
        let n = s.len();
        let ghost lit = self.chars@.subrange(a as int, b as int);
        let mut q = pos;
        let mut j = a;
        while j < b
            invariant
                a <= j <= b <= self.chars@.len(),
                pos <= q <= n,
                n == s@.len(),
                lit == self.chars@.subrange(a as int, b as int),
                match_literal(lit, s@.subrange(pos as int, n as int)) == match_literal(
                    self.chars@.subrange(j as int, b as int),
                    s@.subrange(q as int, n as int),
                ),
            decreases b - j,
        {
            let c = self.chars[j];
            assert(self.chars@.subrange(j as int, b as int).drop_first() =~= self.chars@.subrange(
                j + 1,
                b as int,
            ));
            assert(self.chars@.subrange(j as int, b as int)[0] == c);
            if is_space_char(c) {
                q = skip_space_at(s, q);
            } else if q < n && s[q] == c {
                assert(s@.subrange(q as int, n as int).drop_first() =~= s@.subrange(
                    q + 1,
                    n as int,
                ));
                q += 1;
            } else {
                return None;
            }
            j += 1;
        }
        Some(skip_space_at(s, q))
    }

    /// Reads one token from `pos`: the updated record and the position after it.
    fn scan_token_at(&self, s: &Vec<char>, pos: usize, t: Token, rec: NaiveDateTime) -> (r: Option<
        (NaiveDateTime, usize),
    >)
        requires
            pos <= s@.len(),
            token_ok(self.chars@, t),
        ensures
            r matches Some((r2, q)) ==> (pos <= q <= s@.len() && scan_token(
                self.pattern(),
                t,
                s@.subrange(pos as int, s@.len() as int),
                rec,
            ) == Some((r2, s@.subrange(q as int, s@.len() as int)))),
            r is None ==> scan_token(
                self.pattern(),
                t,
                s@.subrange(pos as int, s@.len() as int),
                rec,
            ) is None,
    {
        let n = s.len();
        let q0 = skip_space_at(s, pos);
        let ghost s1 = s@.subrange(q0 as int, n as int);
        if let Token::Literal(a, b) = t {
            return match self.match_literal_at(s, q0, a, b) {
                Some(q) => Some((rec, q)),
                None => None,
            };
        }
        let max: usize = match t {
            Token::Year(_) => n - q0,
            Token::Day => n - q0,
            Token::Fraction(q) => if q == 0 {
                9
            } else {
                q as usize
            },
            _ => 2,
        };
        assert(max == match max_digits(t) {
            Some(m) => m,
            None => s1.len(),
        });
        let mut k: usize = 0;
        let mut v: u64 = 0;
        let mut over = false;
        while k < max && k < n - q0 && is_digit_char(s[q0 + k])
            invariant
                q0 <= n,
                n == s@.len(),
                s1 == s@.subrange(q0 as int, n as int),
                k <= max,
                k <= n - q0,
                digit_count(s1, max as nat) == k + digit_count(
                    s@.subrange(q0 + k, n as int),
                    (max - k) as nat,
                ),
                !over ==> v == digits_value(s1.take(k as int)) && v <= u32::MAX,
                over ==> digits_value(s1.take(k as int)) > u32::MAX,
                digits_value(s1.take(k as int)) < pow10(k as nat),
            decreases max - k,
        {
            let c = s[q0 + k];
            let d = (c as u32 - 48) as u64;
            assert(s@.subrange(q0 + k, n as int).drop_first() =~= s@.subrange(
                q0 + k + 1,
                n as int,
            ));
            assert(s1.take(k + 1).drop_last() =~= s1.take(k as int));
            assert(s1.take(k + 1).last() == c);
            if !over {
                v = v * 10 + d;
                if v > 0xFFFF_FFFF {
                    over = true;
                }
            }
            k += 1;
        }
        assert(digit_count(s@.subrange(q0 + k, n as int), (max - k) as nat) == 0);
        assert(s1.skip(k as int) =~= s@.subrange(q0 + k, n as int));
        if k == 0 {
            return None;
        }
        if let Token::Fraction(_) = t {
            proof {
                reveal_with_fuel(pow10, 10);
            }
            assert(!over);
            let m = pow10_exec((9 - k) as u32);
            proof {
                lemma_pow10_add(k as nat, (9 - k) as nat);
                assert(v * m < pow10(k as nat) * m) by (nonlinear_arith)
                    requires
                        v < pow10(k as nat),
                        m >= 1,
                ;
            }
            let usec = ((v * m + 500) / 1000) as u32;
            return Some((NaiveDateTime { usec, ..rec }, q0 + k));
        }
        if over {
            return None;
        }
        let v = v as u32;
        let r2 = match t {
            Token::Year(_) => NaiveDateTime { year: v, ..rec },
            Token::Month => NaiveDateTime { month: v, ..rec },
            Token::Day => NaiveDateTime { day: v, ..rec },
            Token::Hour => NaiveDateTime { hour: v, ..rec },
            Token::Minute => NaiveDateTime { minute: v, ..rec },
            _ => NaiveDateTime { sec: v, ..rec },
        };
        Some((r2, q0 + k))
    }

    /// Reads a record from the input: leading whitespace, an optional sign, the
    /// tokens in turn, then only whitespace.
    pub fn parse(&self, input: &str) -> (r: Result<NaiveDateTime>)
        ensures
            parse_record(self.pattern(), self.program(), input@) is None ==> r matches Err(
                Error::ParseError(_),
            ),
            parse_record(self.pattern(), self.program(), input@) matches Some(rec) ==> (r matches Ok(
                v,
            ) && v == rec),
    {
        proof {
            use_type_invariant(self);
        }
        let s = chars_of(input);
        let n = s.len();
        let ghost ts = self.tokens@;
        assert(s@.subrange(0, n as int) =~= s@);
        let mut pos = skip_space_at(&s, 0);
        let mut rec = NaiveDateTime::new();
        if pos < n && s[pos] == '-' {
            rec.negative = true;
            assert(s@.subrange(pos as int, n as int).drop_first() =~= s@.subrange(pos + 1, n as int));
            pos += 1;
        } else if pos < n && s[pos] == '+' {
            assert(s@.subrange(pos as int, n as int).drop_first() =~= s@.subrange(pos + 1, n as int));
            pos += 1;
        }
        assert(ts.skip(0) =~= ts);
        let mut k: usize = 0;
        while k < self.tokens.len()
            invariant
                ts == self.tokens@,
                k <= ts.len(),
                pos <= n,
                n == s@.len(),
                s@ == input@,
                forall|i: int| 0 <= i < ts.len() ==> token_ok(self.chars@, #[trigger] ts[i]),
                parse_record(self.pattern(), ts, input@) == scan_tokens(
                    self.pattern(),
                    ts.skip(k as int),
                    s@.subrange(pos as int, n as int),
                    rec,
                ),
            decreases ts.len() - k,
        {
            let t = self.tokens[k];
            assert(ts.skip(k as int).drop_first() =~= ts.skip(k + 1));
            assert(ts.skip(k as int)[0] == t);
            match self.scan_token_at(&s, pos, t, rec) {
                Some((r2, q)) => {
                    rec = r2;
                    pos = q;
                },
                None => {
                    return Err(Error::ParseError("the interval is invalid".to_string()));
                },
            }
            k += 1;
        }
        let e = skip_space_at(&s, pos);
        if e < n {
            Err(Error::ParseError("the interval is invalid".to_string()))
        } else {
            Ok(rec)
        }
    }

    /// Tells whether the program names a day, hour, minute, second or fraction field.
    pub fn uses_day_time(&self) -> (r: bool)
        ensures
            r == uses_day_time(self.program()),
    {
        let mut k: usize = 0;
        while k < self.tokens.len()
            invariant
                k <= self.tokens@.len(),
                forall|i: int| 0 <= i < k ==> !is_day_time_field(#[trigger] self.tokens@[i]),
            decreases self.tokens.len() - k,
        {
            match self.tokens[k] {
                Token::Day | Token::Hour | Token::Minute | Token::Second | Token::Fraction(_) => {
                    return true;
                },
                _ => {},
            }
            k += 1;
        }
        false
    }

    /// Tells whether the program names a year or month field.
    pub fn uses_year_month(&self) -> (r: bool)
        ensures
            r == uses_year_month(self.program()),
    {
        let mut k: usize = 0;
        while k < self.tokens.len()
            invariant
                k <= self.tokens@.len(),
                forall|i: int| 0 <= i < k ==> !is_year_month_field(#[trigger] self.tokens@[i]),
            decreases self.tokens.len() - k,
        {
            match self.tokens[k] {
                Token::Year(_) | Token::Month => {
                    return true;
                },
                _ => {},
            }
            k += 1;
        }
        false
    }
}

} // verus!