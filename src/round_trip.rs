use vstd::prelude::*;

use crate::decimal::{
    dec, digit_count, is_digit, lemma_dec, lemma_dec_len,
    lemma_digit_count, lemma_pad, lemma_pow10_add, pad, pow10,
};
use crate::interval_dt::{dt_of_record, dt_record, valid_dhms, valid_usecs};
use crate::interval_ym::{valid_months, valid_ym, ym_of_record, ym_record};
use crate::pattern::{
    compile, compile_from, format_record, is_letter, is_space, lex, literal_end, match_literal,
    max_digits, parse_record, render_token, render_tokens, scan_token, scan_tokens, set_field,
    sign_char, skip_space, token_ok, uses_day_time, is_day_time_field, uses_year_month, is_year_month_field, year_len, zero_record,
    NaiveDateTime, Token,
};

verus! {

/// The value of the record field that a token names; zero for literal text.
pub open spec fn field_value(r: NaiveDateTime, t: Token) -> u32 {
    match t {
        Token::Year(_) => r.year,
        Token::Month => r.month,
        Token::Day => r.day,
        Token::Hour => r.hour,
        Token::Minute => r.minute,
        Token::Second => r.sec,
        Token::Fraction(_) => r.usec,
        Token::Literal(_, _) => 0,
    }
}

/// `acc` with the fields that the tokens name taken from `r`.
pub open spec fn keep_fields(acc: NaiveDateTime, r: NaiveDateTime, ts: Seq<Token>) -> NaiveDateTime
    decreases ts.len(),
{
    if ts.len() == 0 {
        acc
    } else {
        keep_fields(set_field(acc, ts[0], field_value(r, ts[0])), r, ts.drop_first())
    }
}

/// A field token that reads as many digits as follow it.
pub open spec fn reads_open_run(t: Token) -> bool {
    t is Year || t is Day || t == Token::Fraction(0)
}

/// Each field token that reads an open run of digits is the last token, or is
/// followed by literal text that does not start with a digit.
pub open spec fn separated(p: Seq<char>, ts: Seq<Token>) -> bool {
    forall|i: int|
        0 <= i < ts.len() && reads_open_run(#[trigger] ts[i]) ==> (i + 1 == ts.len() || (
        ts[i + 1] matches Token::Literal(a, b) && a < b && !is_digit(p[a as int])))
}

/// Each fraction token keeps all six microsecond digits.
pub open spec fn fractions_exact(ts: Seq<Token>) -> bool {
    forall|i: int|
        0 <= i < ts.len() && (#[trigger] ts[i] is Fraction) ==> (ts[i] matches Token::Fraction(q)
            && (q == 0 || 6 <= q <= 9))
}

/// Every token fits the pattern.
pub open spec fn tokens_ok(p: Seq<char>, ts: Seq<Token>) -> bool {
    forall|i: int| 0 <= i < ts.len() ==> token_ok(p, #[trigger] ts[i])
}

/// The fields of a record are within the ranges of an interval's fields.
pub open spec fn fields_valid(r: NaiveDateTime) -> bool {
    &&& r.month < 12
    &&& r.hour < 24
    &&& r.minute < 60
    &&& r.sec < 60
    &&& r.usec <= 999_999
}

proof fn lemma_skip_space_idem(s: Seq<char>)
    ensures
        skip_space(skip_space(s)) == skip_space(s),
    decreases s.len(),
{
    if s.len() > 0 && is_space(s[0]) {
        lemma_skip_space_idem(s.drop_first());
    }
}

/// Literal text followed by `rest` matches itself, before or after its
/// leading whitespace is skipped, leaving `rest` without its leading whitespace.
proof fn lemma_match_literal(lit: Seq<char>, rest: Seq<char>)
    ensures
        match_literal(lit, lit + rest) == Some(skip_space(rest)),
        match_literal(lit, skip_space(lit + rest)) == Some(skip_space(rest)),
    decreases lit.len(),
{
    lemma_skip_space_idem(rest);
    lemma_skip_space_idem(lit + rest);
    if lit.len() == 0 {
        assert(lit + rest =~= rest);
    } else {
        let l1 = lit.drop_first();
        lemma_match_literal(l1, rest);
        assert((lit + rest)[0] == lit[0]);
        assert((lit + rest).drop_first() =~= l1 + rest);
        if is_space(lit[0]) {
            assert(skip_space(lit + rest) == skip_space(l1 + rest));
        } else {
            assert(skip_space(lit + rest) == lit + rest);
        }
    }
}

proof fn lemma_scan_tokens_skip(p: Seq<char>, ts: Seq<Token>, s: Seq<char>, acc: NaiveDateTime)
    ensures
        scan_tokens(p, ts, skip_space(s), acc) == scan_tokens(p, ts, s, acc),
{
    lemma_skip_space_idem(s);
    if ts.len() > 0 {
        assert(scan_token(p, ts[0], skip_space(s), acc) == scan_token(p, ts[0], s, acc));
    }
}

/// The text of a run of tokens is the text of the first, then that of the rest.
proof fn lemma_render_front(p: Seq<char>, ts: Seq<Token>, r: NaiveDateTime)
    requires
        ts.len() > 0,
    ensures
        render_tokens(p, ts, r) == render_token(p, ts[0], r) + render_tokens(
            p,
            ts.drop_first(),
            r,
        ),
    decreases ts.len(),
{
    if ts.len() == 1 {
        assert(render_tokens(p, ts.drop_last(), r) == Seq::<char>::empty());
        assert(render_tokens(p, ts.drop_first(), r) == Seq::<char>::empty());
        assert(ts.last() == ts[0]);
        assert(render_tokens(p, ts, r) =~= render_token(p, ts[0], r) + render_tokens(
            p,
            ts.drop_first(),
            r,
        ));
    } else {
        let init = ts.drop_last();
        lemma_render_front(p, init, r);
        assert(init.drop_first() =~= ts.drop_first().drop_last());
        assert(ts.drop_first().last() == ts.last());
        assert(init[0] == ts[0]);
        assert(render_tokens(p, ts, r) =~= render_token(p, ts[0], r) + render_tokens(
            p,
            ts.drop_first(),
            r,
        ));
    }
}

/// A field token reads back the value it was rendered from.
#[verifier::rlimit(40)]
proof fn lemma_scan_field(
    p: Seq<char>,
    t: Token,
    r: NaiveDateTime,
    acc: NaiveDateTime,
    rest: Seq<char>,
)
    requires
        !(t is Literal),
        token_ok(p, t),
        fields_valid(r),
        t matches Token::Fraction(q) ==> (q == 0 || 6 <= q <= 9),
        reads_open_run(t) ==> rest.len() == 0 || !is_digit(rest[0]),
    ensures
        scan_token(p, t, render_token(p, t, r) + rest, acc) == Some(
            (set_field(acc, t, field_value(r, t)), rest),
        ),
{
    reveal_with_fuel(pow10, 10);
    let x = render_token(p, t, r);
    let v = field_value(r, t);
    let (n, w): (nat, nat) = match t {
        Token::Year(w) => (r.year as nat, w as nat),
        Token::Fraction(q) => if q <= 6 {
            (r.usec as nat, 6)
        } else {
            (r.usec as nat * pow10((q - 6) as nat), q as nat)
        },
        _ => (v as nat, 2),
    };
    assert(pow10(0) == 1);
    match t {
        Token::Fraction(q) => {
            if q == 0 || q == 6 {
                assert(r.usec as nat / pow10(0) == r.usec);
                assert(x == pad(dec(n), w));
            } else {
                assert(x == pad(dec(n), w));
            }
        },
        _ => {
            assert(x == pad(dec(n), w));
        },
    }
    lemma_dec(n);
    lemma_pad(dec(n), w);
    match t {
        Token::Year(_) => {},
        Token::Day => {},
        Token::Fraction(q) => {
            if q <= 6 {
                lemma_dec_len(n, 6);
            } else {
                lemma_pow10_add(6, (q - 6) as nat);
                assert(n < pow10(q as nat)) by (nonlinear_arith)
                    requires
                        n == r.usec as nat * pow10((q - 6) as nat),
                        r.usec < pow10(6),
                        pow10(6) * pow10((q - 6) as nat) == pow10(q as nat),
                        pow10((q - 6) as nat) > 0,
                ;
                lemma_dec_len(n, q as nat);
            }
        },
        _ => {
            lemma_dec_len(n, 2);
        },
    }
    let s = x + rest;
    assert(s[0] == x[0]);
    assert(skip_space(s) == s);
    let m = match max_digits(t) {
        Some(m) => m,
        None => s.len(),
    };
    lemma_digit_count(x, rest, m);
    let k = digit_count(s, m);
    assert(s.take(k as int) =~= x);
    assert(s.skip(k as int) =~= rest);
    if let Token::Fraction(q) = t {
        if q > 6 {
            lemma_pow10_add((q - 6) as nat, (9 - q) as nat);
            assert(n * pow10((9 - q) as nat) == r.usec * 1000) by (nonlinear_arith)
                requires
                    n == r.usec as nat * pow10((q - 6) as nat),
                    pow10((q - 6) as nat) * pow10((9 - q) as nat) == 1000,
            ;
        }
    }
}

/// Under the conditions above, reading the text of a run of tokens gives back
/// the fields that they name.
proof fn lemma_scan_rendered(p: Seq<char>, ts: Seq<Token>, r: NaiveDateTime, acc: NaiveDateTime)
    requires
        tokens_ok(p, ts),
        separated(p, ts),
        fractions_exact(ts),
        fields_valid(r),
    ensures
        scan_tokens(p, ts, render_tokens(p, ts, r), acc) == Some(keep_fields(acc, r, ts)),
    decreases ts.len(),
{
    if ts.len() == 0 {
        assert(render_tokens(p, ts, r) =~= Seq::<char>::empty());
    } else {
        let t = ts[0];
        let ts1 = ts.drop_first();
        let rest = render_tokens(p, ts1, r);
        lemma_render_front(p, ts, r);
        assert(tokens_ok(p, ts1)) by {
            assert forall|i: int| 0 <= i < ts1.len() implies token_ok(p, #[trigger] ts1[i]) by {
                assert(ts1[i] == ts[i + 1]);
            }
        }
        assert(separated(p, ts1)) by {
            assert forall|i: int|
                0 <= i < ts1.len() && reads_open_run(#[trigger] ts1[i]) implies (i + 1 == ts1.len()
                || (ts1[i + 1] matches Token::Literal(a, b) && a < b && !is_digit(p[a as int]))) by {
                assert(ts1[i] == ts[i + 1]);
                assert(reads_open_run(ts[i + 1]));
                if i + 1 < ts1.len() {
                    assert(ts1[i + 1] == ts[i + 2]);
                }
            }
        }
        assert(fractions_exact(ts1)) by {
            assert forall|i: int|
                0 <= i < ts1.len() && (#[trigger] ts1[i] is Fraction) implies (ts1[i] matches Token::Fraction(
                q,
            ) && (q == 0 || 6 <= q <= 9)) by {
                assert(ts1[i] == ts[i + 1]);
            }
        }
        lemma_scan_rendered(p, ts1, r, set_field(acc, t, field_value(r, t)));
        assert(token_ok(p, t));
        if let Token::Literal(a, b) = t {
            let lit = p.subrange(a as int, b as int);
            lemma_match_literal(lit, rest);
            lemma_scan_tokens_skip(p, ts1, rest, acc);
            assert(set_field(acc, t, field_value(r, t)) == acc);
        } else {
            if reads_open_run(t) && ts.len() > 1 {
                assert(reads_open_run(ts[0]));
                lemma_render_front(p, ts1, r);
                assert(ts1[0] == ts[1]);
                if let Token::Literal(a, b) = ts[1] {
                    assert(rest[0] == p[a as int]);
                }
            }
            if ts.len() == 1 {
                assert(rest =~= Seq::<char>::empty());
            }
            if t is Fraction {
                assert(fractions_exact(ts));
                assert(ts[0] is Fraction);
            }
            lemma_scan_field(p, t, r, acc, rest);
        }
    }
}

/// Formatting a record by a pattern and parsing the text by the same pattern
/// gives back the sign and every field that the pattern names; the fields it
/// does not name come back zero. This holds for a pattern whose fields are
/// each kept in full (fractions with six or more digits) and whose
/// open-ended fields (years, days, fractions without a digit count) end the
/// pattern or are followed by literal text that does not start with a digit.
pub proof fn lemma_format_parse(p: Seq<char>, ts: Seq<Token>, r: NaiveDateTime)
    requires
        compile(p) == Some(ts),
        p.len() <= usize::MAX,
        separated(p, ts),
        fractions_exact(ts),
        fields_valid(r),
    ensures
        parse_record(p, ts, format_record(p, ts, r)) == Some(
            keep_fields(zero_record(r.negative), r, ts),
        ),
{
    lemma_compile_tokens_ok(p, 0);
    let body = render_tokens(p, ts, r);
    let s = format_record(p, ts, r);
    assert(s[0] == sign_char(r.negative));
    assert(skip_space(s) == s);
    assert(s.drop_first() =~= body);
    lemma_scan_rendered(p, ts, r, zero_record(r.negative));
}

/// Which record field a token names: year, month, day, hour, minute,
/// second, fraction in turn; literal text names none.
pub open spec fn field_kind(t: Token) -> int {
    match t {
        Token::Year(_) => 0,
        Token::Month => 1,
        Token::Day => 2,
        Token::Hour => 3,
        Token::Minute => 4,
        Token::Second => 5,
        Token::Fraction(_) => 6,
        Token::Literal(_, _) => 7,
    }
}

/// The record field of the given kind.
pub open spec fn record_field(r: NaiveDateTime, k: int) -> u32 {
    if k == 0 {
        r.year
    } else if k == 1 {
        r.month
    } else if k == 2 {
        r.day
    } else if k == 3 {
        r.hour
    } else if k == 4 {
        r.minute
    } else if k == 5 {
        r.sec
    } else {
        r.usec
    }
}

/// The program names a field of the given kind.
pub open spec fn names_field(ts: Seq<Token>, k: int) -> bool {
    exists|i: int| 0 <= i < ts.len() && field_kind(#[trigger] ts[i]) == k
}

/// Keeping the fields that a program names takes those fields from `r` and
/// leaves the others, and the sign, as they were.
proof fn lemma_keep_fields(acc: NaiveDateTime, r: NaiveDateTime, ts: Seq<Token>, k: int)
    requires
        0 <= k < 7,
    ensures
        record_field(keep_fields(acc, r, ts), k) == if names_field(ts, k) {
            record_field(r, k)
        } else {
            record_field(acc, k)
        },
        keep_fields(acc, r, ts).negative == acc.negative,
    decreases ts.len(),
{
    if ts.len() > 0 {
        let t = ts[0];
        let ts1 = ts.drop_first();
        let acc1 = set_field(acc, t, field_value(r, t));
        lemma_keep_fields(acc1, r, ts1, k);
        if names_field(ts1, k) {
            let i = choose|i: int| 0 <= i < ts1.len() && field_kind(#[trigger] ts1[i]) == k;
            assert(ts[i + 1] == ts1[i]);
        }
        if names_field(ts, k) && field_kind(t) != k {
            let i = choose|i: int| 0 <= i < ts.len() && field_kind(#[trigger] ts[i]) == k;
            assert(i > 0);
            assert(ts1[i - 1] == ts[i]);
        }
        if field_kind(t) == k {
            assert(field_kind(ts[0]) == k);
        }
    }
}

/// Formatting a year-month interval by a pattern that names its year and its
/// month, and parsing the text by the same pattern, gives back the interval's
/// fields, which make an interval, and its month count.
pub proof fn lemma_ym_format_parse(fmt: Seq<char>, ts: Seq<Token>, m: int)
    requires
        compile(fmt) == Some(ts),
        fmt.len() <= usize::MAX,
        separated(fmt, ts),
        !uses_day_time(ts),
        names_field(ts, 0),
        names_field(ts, 1),
        valid_months(m),
    ensures
        parse_record(fmt, ts, format_record(fmt, ts, ym_record(m))) matches Some(dt) && valid_ym(
            dt.year as int,
            dt.month as int,
        ) && ym_of_record(dt) == m,
{
    let r = ym_record(m);
    assert(fractions_exact(ts)) by {
        assert forall|i: int|
            0 <= i < ts.len() && (#[trigger] ts[i] is Fraction) implies (ts[i] matches Token::Fraction(
            q,
        ) && (q == 0 || 6 <= q <= 9)) by {
            assert(is_day_time_field(ts[i]));
        }
    }
    lemma_format_parse(fmt, ts, r);
    let acc = zero_record(r.negative);
    lemma_keep_fields(acc, r, ts, 0);
    lemma_keep_fields(acc, r, ts, 1);
    let dt = keep_fields(acc, r, ts);
    assert(dt.year == r.year && dt.month == r.month && dt.negative == r.negative);
}

/// Formatting a day-time interval by a pattern that names its day, hour,
/// minute, second and fraction, each fraction with six or more digits, and
/// parsing the text by the same pattern, gives back the interval's fields,
/// which make an interval, and its microsecond count.
pub proof fn lemma_dt_format_parse(fmt: Seq<char>, ts: Seq<Token>, u: int)
    requires
        compile(fmt) == Some(ts),
        fmt.len() <= usize::MAX,
        separated(fmt, ts),
        fractions_exact(ts),
        !uses_year_month(ts),
        names_field(ts, 2),
        names_field(ts, 3),
        names_field(ts, 4),
        names_field(ts, 5),
        names_field(ts, 6),
        valid_usecs(u),
    ensures
        parse_record(fmt, ts, format_record(fmt, ts, dt_record(u))) matches Some(dt) && valid_dhms(
            dt.day as int,
            dt.hour as int,
            dt.minute as int,
            dt.sec as int,
            dt.usec as int,
        ) && dt_of_record(dt) == u,
{
    let r = dt_record(u);
    lemma_format_parse(fmt, ts, r);
    let acc = zero_record(r.negative);
    lemma_keep_fields(acc, r, ts, 2);
    lemma_keep_fields(acc, r, ts, 3);
    lemma_keep_fields(acc, r, ts, 4);
    lemma_keep_fields(acc, r, ts, 5);
    lemma_keep_fields(acc, r, ts, 6);
    let dt = keep_fields(acc, r, ts);
    assert(dt.day == r.day && dt.hour == r.hour && dt.minute == r.minute && dt.sec == r.sec
        && dt.usec == r.usec && dt.negative == r.negative);
}

proof fn lemma_literal_end(p: Seq<char>, i: int)
    requires
        0 <= i <= p.len(),
    ensures
        i <= literal_end(p, i) <= p.len(),
    decreases p.len() - i,
{
    if i < p.len() && !is_letter(p[i]) {
        lemma_literal_end(p, i + 1);
    }
}

/// Every token of a compiled pattern fits it.
proof fn lemma_compile_tokens_ok(p: Seq<char>, i: int)
    requires
        0 <= i,
        p.len() <= usize::MAX,
    ensures
        compile_from(p, i) matches Some(ts) ==> tokens_ok(p, ts),
    decreases p.len() - i,
{
    if i < p.len() {
        if let Some((t, j)) = lex(p, i) {
            if i < j <= p.len() {
                lemma_compile_tokens_ok(p, j);
                lemma_literal_end(p, i);
                assert(1 <= year_len(p, i) <= 4);
                assert(token_ok(p, t));
                if let Some(rest) = compile_from(p, j) {
                    let ts = seq![t] + rest;
                    assert forall|k: int| 0 <= k < ts.len() implies token_ok(p, #[trigger] ts[k]) by {
                        if k > 0 {
                            assert(ts[k] == rest[k - 1]);
                        }
                    }
                }
            }
        }
    }
}

} // verus!
