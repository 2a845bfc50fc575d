//! Reading the canonical claim-set payload text back.
//!
//! The reader is strict: it accepts exactly the canonical form that
//! [`crate::jsonfmt::ser_claims`] gives, so reading back what was
//! written returns the original claim set, and anything the reader
//! accepts is the canonical text of what it returns.

use vstd::prelude::*;

use crate::jsonfmt::{
    dec_of, digit_char, digit_val, esc, esc_char, is_digit, jopt_num, jopt_str, jstr, ser_claims,
};
use crate::strutil::push_char;
use crate::token::{AuthClaims, AuthClaimsView};

verus! {

use vstd::string::{StrSliceExecFns, StringExecFns};

/// Consumes an expected literal prefix, returning the rest.
pub open spec fn parse_lit(s: Seq<char>, lit: Seq<char>) -> Option<Seq<char>> {
    if lit.len() <= s.len() && s.take(lit.len() as int) == lit {
        Some(s.skip(lit.len() as int))
    } else {
        None
    }
}

/// How many leading characters of `s` are digits.
pub open spec fn digits_len(s: Seq<char>) -> int
    decreases s.len(),
{
    if s.len() == 0 || !is_digit(s[0]) {
        0
    } else {
        1 + digits_len(s.drop_first())
    }
}

/// The numeric value of a digit string.
pub open spec fn val_of(s: Seq<char>) -> int
    decreases s.len(),
{
    if s.len() == 0 {
        0
    } else {
        val_of(s.drop_last()) * 10 + digit_val(s.last())
    }
}

/// Consumes a canonical decimal: at least one digit, no leading
/// zero, value within `u64`.
pub open spec fn parse_dec(s: Seq<char>) -> Option<(u64, Seq<char>)> {
    let k = digits_len(s);
    if k >= 1 && (s[0] != '0' || k == 1) && val_of(s.take(k)) <= u64::MAX {
        Some((val_of(s.take(k)) as u64, s.skip(k)))
    } else {
        None
    }
}

/// Consumes a string body up to its closing quote, undoing the
/// canonical escaping; only `\"` and `\\` escapes are accepted.
pub open spec fn parse_strbody(s: Seq<char>) -> Option<(Seq<char>, Seq<char>)>
    decreases s.len(),
{
    if s.len() == 0 {
        None
    } else if s[0] == '"' {
        Some((Seq::empty(), s.drop_first()))
    } else if s[0] == '\\' {
        if s.len() >= 2 && (s[1] == '"' || s[1] == '\\') {
            match parse_strbody(s.skip(2)) {
                Some(p) => Some((seq![s[1]] + p.0, p.1)),
                None => None,
            }
        } else {
            None
        }
    } else {
        match parse_strbody(s.drop_first()) {
            Some(p) => Some((seq![s[0]] + p.0, p.1)),
            None => None,
        }
    }
}

/// Consumes a quoted string value.
pub open spec fn parse_jstr(s: Seq<char>) -> Option<(Seq<char>, Seq<char>)> {
    if s.len() >= 1 && s[0] == '"' {
        parse_strbody(s.drop_first())
    } else {
        None
    }
}

/// Consumes `null` or a quoted string value.
pub open spec fn parse_opt_str(s: Seq<char>) -> Option<(Option<Seq<char>>, Seq<char>)> {
    if s.len() >= 1 && s[0] == '"' {
        match parse_jstr(s) {
            Some(p) => Some((Some(p.0), p.1)),
            None => None,
        }
    } else {
        match parse_lit(s, "null"@) {
            Some(r) => Some((None, r)),
            None => None,
        }
    }
}

/// Consumes `null` or a canonical decimal.
pub open spec fn parse_opt_num(s: Seq<char>) -> Option<(Option<u64>, Seq<char>)> {
    if s.len() >= 1 && is_digit(s[0]) {
        match parse_dec(s) {
            Some(p) => Some((Some(p.0), p.1)),
            None => None,
        }
    } else {
        match parse_lit(s, "null"@) {
            Some(r) => Some((None, r)),
            None => None,
        }
    }
}

/// Reads a whole canonical payload text; the text must end right
/// after the closing brace.
pub open spec fn parse_claims_text(s: Seq<char>) -> Option<AuthClaimsView> {
    match parse_lit(s, "{\"exp\":"@) {
        None => None,
        Some(s1) => match parse_dec(s1) {
            None => None,
            Some((exp, s2)) => match parse_lit(s2, ",\"auth_level\":"@) {
                None => None,
                Some(s3) => match parse_jstr(s3) {
                    None => None,
                    Some((auth_level, s4)) => match parse_lit(s4, ",\"session_id\":"@) {
                        None => None,
                        Some(s5) => match parse_opt_str(s5) {
                            None => None,
                            Some((session_id, s6)) => match parse_lit(s6, ",\"user_name\":"@) {
                                None => None,
                                Some(s7) => match parse_opt_str(s7) {
                                    None => None,
                                    Some((user_name, s8)) => match parse_lit(s8, ",\"role\":"@) {
                                        None => None,
                                        Some(s9) => match parse_opt_str(s9) {
                                            None => None,
                                            Some((role, s10)) => match parse_lit(
                                                s10,
                                                ",\"state\":"@,
                                            ) {
                                                None => None,
                                                Some(s11) => match parse_opt_str(s11) {
                                                    None => None,
                                                    Some((state, s12)) => match parse_lit(
                                                        s12,
                                                        ",\"user_id\":"@,
                                                    ) {
                                                        None => None,
                                                        Some(s13) => match parse_opt_num(s13) {
                                                            None => None,
                                                            Some((user_id, s14)) => match parse_lit(
                                                                s14,
                                                                "}"@,
                                                            ) {
                                                                None => None,
                                                                Some(s15) => if s15.len() == 0 {
                                                                    Some(
                                                                        AuthClaimsView {
                                                                            exp,
                                                                            auth_level,
                                                                            session_id,
                                                                            user_name,
                                                                            role,
                                                                            state,
                                                                            user_id,
                                                                        },
                                                                    )
                                                                } else {
                                                                    None
                                                                },
                                                            },
                                                        },
                                                    },
                                                },
                                            },
                                        },
                                    },
                                },
                            },
                        },
                    },
                },
            },
        },
    }
}

/// A literal followed by anything parses back to exactly that rest.
pub proof fn lemma_parse_lit_rt(lit: Seq<char>, rest: Seq<char>)
    ensures
        parse_lit(lit + rest, lit) == Some(rest),
{
    assert((lit + rest).take(lit.len() as int) =~= lit);
    assert((lit + rest).skip(lit.len() as int) =~= rest);
}

/// Shape of the canonical decimal spelling: nonempty, all digits,
/// no leading zero for nonzero values, and it reads back as `n`.
pub proof fn lemma_dec_of_shape(n: u64)
    ensures
        dec_of(n).len() >= 1,
        forall|i: int| 0 <= i < dec_of(n).len() ==> is_digit(#[trigger] dec_of(n)[i]),
        n >= 1 ==> dec_of(n)[0] != '0',
        n < 10 ==> dec_of(n) == seq![digit_char(n as int)],
        val_of(dec_of(n)) == n,
    decreases n,
{
    if n < 10 {
        assert(dec_of(n) == seq![digit_char(n as int)]);
        assert(dec_of(n)[0] == digit_char(n as int));
        assert(is_digit(digit_char(n as int)));
        assert(dec_of(n).drop_last() =~= Seq::<char>::empty());
        assert(val_of(Seq::<char>::empty()) == 0);
        assert(val_of(dec_of(n)) == digit_val(digit_char(n as int)));
        assert(digit_val(digit_char(n as int)) == n);
        if n >= 1 {
            assert(dec_of(n)[0] != '0');
        }
    } else {
        assert(n / 10 >= 1 && n / 10 < n) by (nonlinear_arith)
            requires
                n >= 10,
        ;
        lemma_dec_of_shape(n / 10);
        let prefix = dec_of(n / 10);
        let d = digit_char((n % 10) as int);
        assert(dec_of(n) == prefix.push(d));
        assert(dec_of(n)[0] == prefix[0]);
        assert(is_digit(d));
        assert(forall|i: int|
            0 <= i < dec_of(n).len() ==> is_digit(#[trigger] dec_of(n)[i]));
        assert(prefix.push(d).drop_last() =~= prefix);
        assert(prefix.push(d).last() == d);
        assert(val_of(dec_of(n)) == val_of(prefix) * 10 + digit_val(d));
        assert(digit_val(d) == n % 10);
        assert((n / 10) * 10 + n % 10 == n) by (nonlinear_arith);
    }
}

/// The digit prefix of an all-digit block followed by a non-digit
/// is exactly that block.
pub proof fn lemma_digits_len_concat(d: Seq<char>, rest: Seq<char>)
    requires
        forall|i: int| 0 <= i < d.len() ==> is_digit(#[trigger] d[i]),
        rest.len() == 0 || !is_digit(rest[0]),
    ensures
        digits_len(d + rest) == d.len(),
    decreases d.len(),
{
    if d.len() == 0 {
        assert(d + rest =~= rest);
    } else {
        assert((d + rest)[0] == d[0]);
        assert((d + rest).drop_first() =~= d.drop_first() + rest);
        lemma_digits_len_concat(d.drop_first(), rest);
    }
}

/// The digit prefix length is never negative.
pub proof fn lemma_digits_len_nonneg(s: Seq<char>)
    ensures
        digits_len(s) >= 0,
    decreases s.len(),
{
    if !(s.len() == 0 || !is_digit(s[0])) {
        lemma_digits_len_nonneg(s.drop_first());
    }
}

/// If the first `m` characters are digits, the digit prefix is at
/// least `m` long.
pub proof fn lemma_digits_len_min(s: Seq<char>, m: int)
    requires
        0 <= m <= s.len(),
        forall|i: int| 0 <= i < m ==> is_digit(#[trigger] s[i]),
    ensures
        digits_len(s) >= m,
    decreases m,
{
    lemma_digits_len_nonneg(s);
    if m > 0 {
        assert(is_digit(s[0]));
        assert(s.drop_first().len() == s.len() - 1);
        assert(forall|i: int| 0 <= i < m - 1 ==> is_digit(#[trigger] s.drop_first()[i]));
        lemma_digits_len_min(s.drop_first(), m - 1);
        assert(digits_len(s) == 1 + digits_len(s.drop_first()));
    }
}

/// The digit prefix is never longer than the string.
pub proof fn lemma_digits_len_le(s: Seq<char>)
    ensures
        digits_len(s) <= s.len(),
    decreases s.len(),
{
    if !(s.len() == 0 || !is_digit(s[0])) {
        lemma_digits_len_le(s.drop_first());
    }
}

/// Every character inside the digit prefix is a digit.
pub proof fn lemma_digits_prefix_digits(s: Seq<char>)
    ensures
        forall|j: int| 0 <= j < digits_len(s) ==> is_digit(#[trigger] s[j]),
    decreases s.len(),
{
    lemma_digits_len_le(s);
    if !(s.len() == 0 || !is_digit(s[0])) {
        lemma_digits_prefix_digits(s.drop_first());
        lemma_digits_len_le(s.drop_first());
        assert forall|j: int| 0 <= j < digits_len(s) implies is_digit(#[trigger] s[j]) by {
            if j >= 1 {
                assert(s[j] == s.drop_first()[j - 1]);
            }
        }
    }
}

/// Digit-string values are never negative.
pub proof fn lemma_val_of_nonneg(s: Seq<char>)
    requires
        forall|i: int| 0 <= i < s.len() ==> is_digit(#[trigger] s[i]),
    ensures
        val_of(s) >= 0,
    decreases s.len(),
{
    if s.len() > 0 {
        assert(forall|i: int|
            0 <= i < s.drop_last().len() ==> is_digit(#[trigger] s.drop_last()[i]));
        lemma_val_of_nonneg(s.drop_last());
        assert(is_digit(s.last()));
    }
}

/// Extending a digit string multiplies its value by ten and adds
/// the new digit; the value never shrinks.
pub proof fn lemma_val_of_take_step(s: Seq<char>, k: int)
    requires
        0 <= k < s.len(),
        forall|i: int| 0 <= i <= k ==> is_digit(#[trigger] s[i]),
    ensures
        val_of(s.take(k + 1)) == val_of(s.take(k)) * 10 + digit_val(s[k]),
        val_of(s.take(k + 1)) >= val_of(s.take(k)),
{
    assert(s.take(k + 1).drop_last() =~= s.take(k));
    assert(s.take(k + 1).last() == s[k]);
    assert(forall|i: int| 0 <= i < k ==> is_digit(#[trigger] s.take(k)[i]));
    lemma_val_of_nonneg(s.take(k));
    assert(is_digit(s[k]));
    assert(val_of(s.take(k)) * 10 >= val_of(s.take(k))) by (nonlinear_arith)
        requires
            val_of(s.take(k)) >= 0,
    ;
}

/// The value of a digit prefix never shrinks as the prefix grows.
pub proof fn lemma_val_of_take_mono(s: Seq<char>, k1: int, k2: int)
    requires
        0 <= k1 <= k2 <= s.len(),
        forall|i: int| 0 <= i < k2 ==> is_digit(#[trigger] s[i]),
    ensures
        val_of(s.take(k1)) <= val_of(s.take(k2)),
    decreases k2 - k1,
{
    if k1 < k2 {
        lemma_val_of_take_step(s, k2 - 1);
        lemma_val_of_take_mono(s, k1, k2 - 1);
    }
}

/// A canonical decimal followed by a non-digit reads back exactly.
pub proof fn lemma_parse_dec_rt(n: u64, rest: Seq<char>)
    requires
        rest.len() == 0 || !is_digit(rest[0]),
    ensures
        parse_dec(dec_of(n) + rest) == Some((n, rest)),
{
    lemma_dec_of_shape(n);
    let d = dec_of(n);
    let s = d + rest;
    lemma_digits_len_concat(d, rest);
    assert(digits_len(s) == d.len());
    assert(s.take(d.len() as int) =~= d);
    assert(s.skip(d.len() as int) =~= rest);
    assert(s[0] == d[0]);
    if n == 0 {
        assert(d == seq![digit_char(0)]);
        assert(d.len() == 1);
    }
}

/// An escaped string body, closing quote and rest read back to the
/// original string and that rest.
pub proof fn lemma_parse_strbody_rt(x: Seq<char>, rest: Seq<char>)
    ensures
        parse_strbody(esc(x) + seq!['"'] + rest) == Some((x, rest)),
    decreases x.len(),
{
    let s = esc(x) + seq!['"'] + rest;
    if x.len() == 0 {
        assert(esc(x) =~= Seq::<char>::empty());
        assert(s =~= seq!['"'] + rest);
        assert(s[0] == '"');
        assert(s.drop_first() =~= rest);
        assert(parse_strbody(s) == Some((Seq::<char>::empty(), rest)));
        assert(x =~= Seq::<char>::empty());
    } else {
        let c = x[0];
        let x2 = x.drop_first();
        assert(esc(x) == esc_char(c) + esc(x2));
        lemma_parse_strbody_rt(x2, rest);
        if c == '"' || c == '\\' {
            assert(esc_char(c) =~= seq!['\\', c]);
            assert(s[0] == '\\');
            assert(s.len() >= 2);
            assert(s[1] == c);
            assert(s.skip(2) =~= esc(x2) + seq!['"'] + rest);
            assert(seq![s[1]] + x2 =~= x);
        } else {
            assert(esc_char(c) =~= seq![c]);
            assert(s[0] == c);
            assert(s.drop_first() =~= esc(x2) + seq!['"'] + rest);
            assert(seq![s[0]] + x2 =~= x);
        }
    }
}

/// A quoted string value followed by anything reads back exactly.
pub proof fn lemma_parse_jstr_rt(x: Seq<char>, rest: Seq<char>)
    ensures
        parse_jstr(jstr(x) + rest) == Some((x, rest)),
{
    let s = jstr(x) + rest;
    assert(s[0] == '"');
    assert(s.drop_first() =~= esc(x) + seq!['"'] + rest);
    lemma_parse_strbody_rt(x, rest);
}

/// An optional string value followed by anything but a quote reads
/// back exactly.
pub proof fn lemma_parse_opt_str_rt(o: Option<Seq<char>>, rest: Seq<char>)
    ensures
        parse_opt_str(jopt_str(o) + rest) == Some((o, rest)),
{
    reveal_strlit("null");
    match o {
        None => {
            let s = "null"@ + rest;
            assert(s[0] == 'n');
            assert(s.len() >= 1 && s[0] != '"');
            lemma_parse_lit_rt("null"@, rest);
        },
        Some(x) => {
            let s = jstr(x) + rest;
            assert(s[0] == '"');
            lemma_parse_jstr_rt(x, rest);
        },
    }
}

/// An optional numeric value followed by a non-digit reads back
/// exactly.
pub proof fn lemma_parse_opt_num_rt(o: Option<u64>, rest: Seq<char>)
    requires
        rest.len() == 0 || !is_digit(rest[0]),
    ensures
        parse_opt_num(jopt_num(o) + rest) == Some((o, rest)),
{
    reveal_strlit("null");
    match o {
        None => {
            let s = "null"@ + rest;
            assert(s[0] == 'n');
            assert(!is_digit('n'));
            lemma_parse_lit_rt("null"@, rest);
        },
        Some(n) => {
            lemma_dec_of_shape(n);
            let s = dec_of(n) + rest;
            assert(s[0] == dec_of(n)[0]);
            assert(is_digit(s[0]));
            lemma_parse_dec_rt(n, rest);
        },
    }
}

/// Reading back the canonical payload text of any claim set returns
/// exactly that claim set.
#[verifier::rlimit(100)]
#[verifier::spinoff_prover]
pub proof fn lemma_parse_ser_claims(c: AuthClaimsView)
    ensures
        parse_claims_text(ser_claims(c)) == Some(c),
{
    reveal_strlit(",\"auth_level\":");
    reveal_strlit(",\"session_id\":");
    reveal_strlit(",\"user_name\":");
    reveal_strlit(",\"role\":");
    reveal_strlit(",\"state\":");
    reveal_strlit(",\"user_id\":");
    reveal_strlit("}");
    let l_exp = "{\"exp\":"@;
    let l_lvl = ",\"auth_level\":"@;
    let l_sid = ",\"session_id\":"@;
    let l_unm = ",\"user_name\":"@;
    let l_rol = ",\"role\":"@;
    let l_sta = ",\"state\":"@;
    let l_uid = ",\"user_id\":"@;
    let l_end = "}"@;
    let r14 = l_end;
    let r13 = jopt_num(c.user_id) + r14;
    let r12 = l_uid + r13;
    let r11 = jopt_str(c.state) + r12;
    let r10 = l_sta + r11;
    let r9 = jopt_str(c.role) + r10;
    let r8 = l_rol + r9;
    let r7 = jopt_str(c.user_name) + r8;
    let r6 = l_unm + r7;
    let r5 = jopt_str(c.session_id) + r6;
    let r4 = l_sid + r5;
    let r3 = jstr(c.auth_level) + r4;
    let r2 = l_lvl + r3;
    let r1 = dec_of(c.exp) + r2;
    let s = l_exp + r1;
    assert(ser_claims(c) =~= s);
    lemma_parse_lit_rt(l_exp, r1);
    assert(r2[0] == ',');
    assert(!is_digit(','));
    lemma_parse_dec_rt(c.exp, r2);
    lemma_parse_lit_rt(l_lvl, r3);
    lemma_parse_jstr_rt(c.auth_level, r4);
    lemma_parse_lit_rt(l_sid, r5);
    assert(r6[0] == ',' && r6[0] != '"');
    lemma_parse_opt_str_rt(c.session_id, r6);
    lemma_parse_lit_rt(l_unm, r7);
    assert(r8[0] == ',' && r8[0] != '"');
    lemma_parse_opt_str_rt(c.user_name, r8);
    lemma_parse_lit_rt(l_rol, r9);
    assert(r10[0] == ',' && r10[0] != '"');
    lemma_parse_opt_str_rt(c.role, r10);
    lemma_parse_lit_rt(l_sta, r11);
    assert(r12[0] == ',' && r12[0] != '"');
    lemma_parse_opt_str_rt(c.state, r12);
    lemma_parse_lit_rt(l_uid, r13);
    assert(r14[0] == '}');
    assert(!is_digit('}'));
    lemma_parse_opt_num_rt(c.user_id, r14);
    lemma_parse_lit_rt(l_end, Seq::<char>::empty());
    assert(r14 =~= l_end + Seq::<char>::empty());
}

/// Whatever the literal reader accepts began with that literal.
pub proof fn lemma_parse_lit_sound(s: Seq<char>, lit: Seq<char>)
    requires
        parse_lit(s, lit) is Some,
    ensures
        s == lit + parse_lit(s, lit)->Some_0,
{
    assert(s =~= lit + s.skip(lit.len() as int));
}

/// A nonempty canonical digit string has a positive value.
proof fn lemma_val_of_pos(d: Seq<char>)
    requires
        d.len() >= 1,
        forall|i: int| 0 <= i < d.len() ==> is_digit(#[trigger] d[i]),
        d[0] != '0',
    ensures
        val_of(d) >= 1,
    decreases d.len(),
{
    if d.len() == 1 {
        assert(is_digit(d[0]));
    } else {
        lemma_val_of_pos(d.drop_last());
        assert(d.drop_last()[0] == d[0]);
        assert(is_digit(d.last()));
        assert(val_of(d) == val_of(d.drop_last()) * 10 + digit_val(d.last()));
        assert(val_of(d.drop_last()) * 10 >= 10) by (nonlinear_arith)
            requires
                val_of(d.drop_last()) >= 1,
        ;
    }
}

/// A canonical digit string is the canonical spelling of its value.
proof fn lemma_canonical_digits(d: Seq<char>, n: u64)
    requires
        d.len() >= 1,
        forall|i: int| 0 <= i < d.len() ==> is_digit(#[trigger] d[i]),
        d[0] != '0' || d.len() == 1,
        val_of(d) == n,
    ensures
        d == dec_of(n),
    decreases d.len(),
{
    if d.len() == 1 {
        assert(val_of(d.drop_last()) == 0) by {
            assert(d.drop_last() =~= Seq::<char>::empty());
        }
        assert(n == digit_val(d[0]));
        assert(n < 10);
        assert(dec_of(n) == seq![digit_char(n as int)]);
        assert(digit_char(digit_val(d[0])) == d[0]);
        assert(d =~= dec_of(n));
    } else {
        let front = d.drop_last();
        assert(front[0] == d[0]);
        assert(forall|i: int| 0 <= i < front.len() ==> is_digit(#[trigger] front[i]));
        lemma_val_of_pos(front);
        assert(is_digit(d.last()));
        assert(val_of(d) == val_of(front) * 10 + digit_val(d.last()));
        assert(val_of(front) * 10 >= 10) by (nonlinear_arith)
            requires
                val_of(front) >= 1,
        ;
        assert(n >= 10);
        vstd::arithmetic::div_mod::lemma_fundamental_div_mod_converse(
            n as int,
            10,
            val_of(front),
            digit_val(d.last()),
        );
        assert(val_of(front) == n as int / 10);
        assert(digit_val(d.last()) == n as int % 10);
        assert(n as int / 10 == (n / 10) as int);
        assert(n as int % 10 == (n % 10) as int);
        assert(val_of(front) <= n);
        lemma_canonical_digits(front, n / 10);
        assert(dec_of(n) == dec_of(n / 10).push(digit_char((n % 10) as int)));
        assert(digit_char(digit_val(d.last())) == d.last());
        assert(d =~= front.push(d.last()));
    }
}

/// Whatever the decimal reader accepts was a canonical decimal.
pub proof fn lemma_parse_dec_sound(s: Seq<char>)
    requires
        parse_dec(s) is Some,
    ensures
        s == dec_of(parse_dec(s)->Some_0.0) + parse_dec(s)->Some_0.1,
{
    let k = digits_len(s);
    let (n, r) = parse_dec(s)->Some_0;
    lemma_digits_len_nonneg(s);
    lemma_digits_len_le(s);
    lemma_digits_prefix_digits(s);
    let d = s.take(k);
    assert(forall|i: int| 0 <= i < d.len() ==> is_digit(#[trigger] d[i]));
    assert(d[0] == s[0]);
    lemma_val_of_nonneg(d);
    assert(val_of(d) == n);
    lemma_canonical_digits(d, n);
    assert(s =~= d + s.skip(k));
}

/// Whatever the string-body reader accepts was the canonical
/// escaping of what it returned, followed by the closing quote.
pub proof fn lemma_parse_strbody_sound(s: Seq<char>)
    requires
        parse_strbody(s) is Some,
    ensures
        s == esc(parse_strbody(s)->Some_0.0) + seq!['"'] + parse_strbody(s)->Some_0.1,
    decreases s.len(),
{
    let (x, r) = parse_strbody(s)->Some_0;
    if s[0] == '"' {
        assert(esc(Seq::<char>::empty()) == Seq::<char>::empty());
        assert(s =~= esc(x) + seq!['"'] + r);
    } else if s[0] == '\\' {
        let (t, _r2) = parse_strbody(s.skip(2))->Some_0;
        lemma_parse_strbody_sound(s.skip(2));
        assert(x == seq![s[1]] + t);
        assert(x[0] == s[1]);
        assert(x.drop_first() =~= t);
        assert(esc_char(s[1]) =~= seq!['\\', s[1]]);
        assert(esc(x) == esc_char(x[0]) + esc(x.drop_first()));
        assert(s =~= seq![s[0], s[1]] + s.skip(2));
        assert(s =~= esc(x) + seq!['"'] + r);
    } else {
        let (t, _r2) = parse_strbody(s.drop_first())->Some_0;
        lemma_parse_strbody_sound(s.drop_first());
        assert(x == seq![s[0]] + t);
        assert(x[0] == s[0]);
        assert(x.drop_first() =~= t);
        assert(esc_char(s[0]) =~= seq![s[0]]);
        assert(esc(x) == esc_char(x[0]) + esc(x.drop_first()));
        assert(s =~= seq![s[0]] + s.drop_first());
        assert(s =~= esc(x) + seq!['"'] + r);
    }
}

/// Whatever the quoted-string reader accepts was a quoted string.
pub proof fn lemma_parse_jstr_sound(s: Seq<char>)
    requires
        parse_jstr(s) is Some,
    ensures
        s == jstr(parse_jstr(s)->Some_0.0) + parse_jstr(s)->Some_0.1,
{
    lemma_parse_strbody_sound(s.drop_first());
    let (x, r) = parse_jstr(s)->Some_0;
    assert(s =~= seq![s[0]] + s.drop_first());
    assert(s =~= jstr(x) + r);
}

/// Whatever the optional-string reader accepts was `null` or a
/// quoted string.
pub proof fn lemma_parse_opt_str_sound(s: Seq<char>)
    requires
        parse_opt_str(s) is Some,
    ensures
        s == jopt_str(parse_opt_str(s)->Some_0.0) + parse_opt_str(s)->Some_0.1,
{
    if s.len() >= 1 && s[0] == '"' {
        lemma_parse_jstr_sound(s);
    } else {
        lemma_parse_lit_sound(s, "null"@);
    }
}

/// Whatever the optional-number reader accepts was `null` or a
/// canonical decimal.
pub proof fn lemma_parse_opt_num_sound(s: Seq<char>)
    requires
        parse_opt_num(s) is Some,
    ensures
        s == jopt_num(parse_opt_num(s)->Some_0.0) + parse_opt_num(s)->Some_0.1,
{
    if s.len() >= 1 && is_digit(s[0]) {
        lemma_parse_dec_sound(s);
    } else {
        lemma_parse_lit_sound(s, "null"@);
    }
}

/// The canonical payload text, grouped from the right.
#[verifier::rlimit(100)]
#[verifier::spinoff_prover]
proof fn lemma_ser_claims_grouped(c: AuthClaimsView)
    ensures
        ser_claims(c) == "{\"exp\":"@ + (dec_of(c.exp) + (",\"auth_level\":"@ + (jstr(
            c.auth_level,
        ) + (",\"session_id\":"@ + (jopt_str(c.session_id) + (",\"user_name\":"@ + (jopt_str(
            c.user_name,
        ) + (",\"role\":"@ + (jopt_str(c.role) + (",\"state\":"@ + (jopt_str(c.state) + (
        ",\"user_id\":"@ + (jopt_num(c.user_id) + "}"@))))))))))))),
{
    assert(ser_claims(c) =~= "{\"exp\":"@ + (dec_of(c.exp) + (",\"auth_level\":"@ + (jstr(
        c.auth_level,
    ) + (",\"session_id\":"@ + (jopt_str(c.session_id) + (",\"user_name\":"@ + (jopt_str(
        c.user_name,
    ) + (",\"role\":"@ + (jopt_str(c.role) + (",\"state\":"@ + (jopt_str(c.state) + (
    ",\"user_id\":"@ + (jopt_num(c.user_id) + "}"@))))))))))))));
}

/// Whatever the payload reader accepts is the canonical payload
/// text of the claim set it returns: together with
/// [`lemma_parse_ser_claims`], reading and writing are inverse.
#[verifier::rlimit(100)]
#[verifier::spinoff_prover]
pub proof fn lemma_parse_claims_sound(s: Seq<char>)
    requires
        parse_claims_text(s) is Some,
    ensures
        s == ser_claims(parse_claims_text(s)->Some_0),
{
    let c = parse_claims_text(s)->Some_0;
    let s1 = parse_lit(s, "{\"exp\":"@)->Some_0;
    lemma_parse_lit_sound(s, "{\"exp\":"@);
    let (exp, s2) = parse_dec(s1)->Some_0;
    lemma_parse_dec_sound(s1);
    let s3 = parse_lit(s2, ",\"auth_level\":"@)->Some_0;
    lemma_parse_lit_sound(s2, ",\"auth_level\":"@);
    let (lvl, s4) = parse_jstr(s3)->Some_0;
    lemma_parse_jstr_sound(s3);
    let s5 = parse_lit(s4, ",\"session_id\":"@)->Some_0;
    lemma_parse_lit_sound(s4, ",\"session_id\":"@);
    let (sid, s6) = parse_opt_str(s5)->Some_0;
    lemma_parse_opt_str_sound(s5);
    let s7 = parse_lit(s6, ",\"user_name\":"@)->Some_0;
    lemma_parse_lit_sound(s6, ",\"user_name\":"@);
    let (unm, s8) = parse_opt_str(s7)->Some_0;
    lemma_parse_opt_str_sound(s7);
    let s9 = parse_lit(s8, ",\"role\":"@)->Some_0;
    lemma_parse_lit_sound(s8, ",\"role\":"@);
    let (rol, s10) = parse_opt_str(s9)->Some_0;
    lemma_parse_opt_str_sound(s9);
    let s11 = parse_lit(s10, ",\"state\":"@)->Some_0;
    lemma_parse_lit_sound(s10, ",\"state\":"@);
    let (sta, s12) = parse_opt_str(s11)->Some_0;
    lemma_parse_opt_str_sound(s11);
    let s13 = parse_lit(s12, ",\"user_id\":"@)->Some_0;
    lemma_parse_lit_sound(s12, ",\"user_id\":"@);
    let (uid, s14) = parse_opt_num(s13)->Some_0;
    lemma_parse_opt_num_sound(s13);
    let s15 = parse_lit(s14, "}"@)->Some_0;
    lemma_parse_lit_sound(s14, "}"@);
    assert(s15.len() == 0);
    let r14 = "}"@;
    let r13 = jopt_num(c.user_id) + r14;
    let r12 = ",\"user_id\":"@ + r13;
    let r11 = jopt_str(c.state) + r12;
    let r10 = ",\"state\":"@ + r11;
    let r9 = jopt_str(c.role) + r10;
    let r8 = ",\"role\":"@ + r9;
    let r7 = jopt_str(c.user_name) + r8;
    let r6 = ",\"user_name\":"@ + r7;
    let r5 = jopt_str(c.session_id) + r6;
    let r4 = ",\"session_id\":"@ + r5;
    let r3 = jstr(c.auth_level) + r4;
    let r2 = ",\"auth_level\":"@ + r3;
    let r1 = dec_of(c.exp) + r2;
    assert(s14 =~= r14);
    assert(s13 == r13);
    assert(s12 == r12);
    assert(s11 == r11);
    assert(s10 == r10);
    assert(s9 == r9);
    assert(s8 == r8);
    assert(s7 == r7);
    assert(s6 == r6);
    assert(s5 == r5);
    assert(s4 == r4);
    assert(s3 == r3);
    assert(s2 == r2);
    assert(s1 == r1);
    assert(s == "{\"exp\":"@ + r1);
    lemma_ser_claims_grouped(c);
    assert(ser_claims(c) == "{\"exp\":"@ + r1);
}

/// Consumes the literal `lit` at `pos`, returning the position after
/// it, exactly as the specification-level reader does.
pub fn p_lit(s: &str, pos: usize, lit: &str) -> (r: Option<usize>)
    requires
        pos <= s@.len(),
    ensures
        match r {
            Some(p) => pos <= p <= s@.len() && parse_lit(s@.skip(pos as int), lit@) == Some(
                s@.skip(p as int),
            ),
            None => parse_lit(s@.skip(pos as int), lit@) is None,
        },
{
    let n = s.unicode_len();
    let m = lit.unicode_len();
    if m > n - pos {
        return None;
    }
    let mut i: usize = 0;
    while i < m
        invariant
            pos + m <= n,
            n == s@.len(),
            m == lit@.len(),
            i <= m,
            forall|j: int| 0 <= j < i ==> s@.skip(pos as int)[j] == lit@[j],
        decreases m - i,
    {
        let c = s.get_char(pos + i);
        let lc = lit.get_char(i);
        if c != lc {
            proof {
                assert(s@.skip(pos as int)[i as int] == s@[pos + i as int]);
                assert(s@.skip(pos as int).take(m as int)[i as int] != lit@[i as int]);
            }
            return None;
        }
        proof {
            assert(s@.skip(pos as int)[i as int] == s@[pos + i as int]);
        }
        i = i + 1;
    }
    proof {
        assert(s@.skip(pos as int).take(m as int) =~= lit@);
        assert(s@.skip(pos as int).skip(m as int) =~= s@.skip((pos + m) as int));
    }
    Some(pos + m)
}

/// Consumes a canonical decimal at `pos`, exactly as the
/// specification-level reader does.
pub fn p_dec(s: &str, pos: usize) -> (r: Option<(u64, usize)>)
    requires
        pos <= s@.len(),
    ensures
        match r {
            Some(p) => pos <= p.1 <= s@.len() && parse_dec(s@.skip(pos as int)) == Some(
                (p.0, s@.skip(p.1 as int)),
            ),
            None => parse_dec(s@.skip(pos as int)) is None,
        },
{
    let ghost suf = s@.skip(pos as int);
    let n = s.unicode_len();
    proof {
        lemma_digits_len_nonneg(suf);
        lemma_digits_len_le(suf);
        lemma_digits_prefix_digits(suf);
    }
    if pos >= n {
        return None;
    }
    let c0 = s.get_char(pos);
    let c0u = c0 as u32;
    if !(48 <= c0u && c0u <= 57) {
        proof {
            assert(suf[0] == c0);
            assert(digits_len(suf) == 0);
        }
        return None;
    }
    let mut i: usize = pos;
    let mut val: u64 = 0;
    loop
        invariant
            pos <= i <= n,
            n == s@.len(),
            pos < n,
            suf == s@.skip(pos as int),
            c0 == s@[pos as int],
            forall|j: int| 0 <= j < i - pos ==> is_digit(#[trigger] suf[j]),
            val as int == val_of(suf.take(i - pos)),
        ensures
            pos <= i <= n,
            n == s@.len(),
            forall|j: int| 0 <= j < i - pos ==> is_digit(#[trigger] suf[j]),
            val as int == val_of(suf.take(i - pos)),
            i == n || !is_digit(s@[i as int]),
        decreases n - i,
    {
        if i >= n {
            break;
        }
        let c = s.get_char(i);
        let cu = c as u32;
        if !(48 <= cu && cu <= 57) {
            break;
        }
        proof {
            assert(suf[i - pos] == c);
            assert(is_digit(c));
        }
        let d: u64 = (cu - 48) as u64;
        let v10 = match val.checked_mul(10) {
            Some(v) => v,
            None => {
                proof {
                    overflow_means_no_parse(suf, i - pos, val, d);
                }
                return None;
            },
        };
        let v = match v10.checked_add(d) {
            Some(v) => v,
            None => {
                proof {
                    overflow_means_no_parse(suf, i - pos, val, d);
                }
                return None;
            },
        };
        proof {
            lemma_val_of_take_step(suf, i - pos);
            assert(digit_val(suf[i - pos]) == d);
        }
        val = v;
        i = i + 1;
    }
    let k = i - pos;
    proof {
        assert(forall|j: int| 0 <= j < k ==> is_digit(#[trigger] suf.take(k as int)[j]));
        if i < n {
            assert(suf.skip(k as int)[0] == s@[i as int]);
            assert(!is_digit(suf.skip(k as int)[0]));
        }
        assert(suf =~= suf.take(k as int) + suf.skip(k as int));
        lemma_digits_len_concat(suf.take(k as int), suf.skip(k as int));
        assert(digits_len(suf) == k);
    }
    if c0 == '0' && k > 1 {
        return None;
    }
    proof {
        assert(suf.skip(k as int) =~= s@.skip(i as int));
    }
    Some((val, i))
}

/// The moment the accumulated value would leave `u64`, the whole
/// digit prefix is over the limit and the read fails.
proof fn overflow_means_no_parse(suf: Seq<char>, j: int, val: u64, d: u64)
    requires
        0 <= j < suf.len(),
        is_digit(suf[j]),
        digit_val(suf[j]) == d,
        forall|i: int| 0 <= i < j ==> is_digit(#[trigger] suf[i]),
        val as int == val_of(suf.take(j)),
        val as int * 10 + d > u64::MAX,
    ensures
        parse_dec(suf) is None,
{
    lemma_digits_len_nonneg(suf);
    lemma_digits_len_le(suf);
    lemma_digits_prefix_digits(suf);
    lemma_val_of_take_step(suf, j);
    lemma_digits_len_min(suf, j + 1);
    let k = digits_len(suf);
    lemma_val_of_take_mono(suf, j + 1, k);
}

/// Consumes an escaped string body up to its closing quote at `pos`,
/// exactly as the specification-level reader does.
pub fn p_strbody(s: &str, pos: usize) -> (r: Option<(String, usize)>)
    requires
        pos <= s@.len(),
    ensures
        match r {
            Some(p) => pos <= p.1 <= s@.len() && parse_strbody(s@.skip(pos as int)) == Some(
                (p.0@, s@.skip(p.1 as int)),
            ),
            None => parse_strbody(s@.skip(pos as int)) is None,
        },
    decreases s@.len() - pos,
{
    let ghost suf = s@.skip(pos as int);
    let n = s.unicode_len();
    if pos >= n {
        return None;
    }
    let c = s.get_char(pos);
    proof {
        assert(suf[0] == c);
    }
    if c == '"' {
        proof {
            assert(suf.drop_first() =~= s@.skip(pos + 1 as int));
        }
        return Some((String::new(), pos + 1));
    }
    if c == '\\' {
        if pos + 1 < n {
            let c2 = s.get_char(pos + 1);
            proof {
                assert(suf[1] == c2);
            }
            if c2 == '"' || c2 == '\\' {
                proof {
                    assert(suf.skip(2) =~= s@.skip(pos + 2 as int));
                }
                match p_strbody(s, pos + 2) {
                    Some((tail, p)) => {
                        let mut body = String::new();
                        push_char(&mut body, c2);
                        body.append(tail.as_str());
                        proof {
                            assert(body@ =~= seq![suf[1]] + tail@);
                        }
                        return Some((body, p));
                    },
                    None => {
                        return None;
                    },
                }
            }
        }
        proof {
            if suf.len() >= 2 && (suf[1] == '"' || suf[1] == '\\') {
                assert(pos + 1 < n);
            }
        }
        return None;
    }
    proof {
        assert(suf.drop_first() =~= s@.skip(pos + 1 as int));
    }
    match p_strbody(s, pos + 1) {
        Some((tail, p)) => {
            let mut body = String::new();
            push_char(&mut body, c);
            body.append(tail.as_str());
            proof {
                assert(body@ =~= seq![suf[0]] + tail@);
            }
            Some((body, p))
        },
        None => None,
    }
}

/// Consumes a quoted string value at `pos`.
pub fn p_jstr(s: &str, pos: usize) -> (r: Option<(String, usize)>)
    requires
        pos <= s@.len(),
    ensures
        match r {
            Some(p) => pos <= p.1 <= s@.len() && parse_jstr(s@.skip(pos as int)) == Some(
                (p.0@, s@.skip(p.1 as int)),
            ),
            None => parse_jstr(s@.skip(pos as int)) is None,
        },
{
    let ghost suf = s@.skip(pos as int);
    let n = s.unicode_len();
    if pos >= n {
        return None;
    }
    let c = s.get_char(pos);
    proof {
        assert(suf[0] == c);
    }
    if c != '"' {
        return None;
    }
    proof {
        assert(suf.drop_first() =~= s@.skip(pos + 1 as int));
    }
    p_strbody(s, pos + 1)
}

/// Consumes `null` or a quoted string value at `pos`.
pub fn p_opt_str(s: &str, pos: usize) -> (r: Option<(Option<String>, usize)>)
    requires
        pos <= s@.len(),
    ensures
        match r {
            Some(p) => pos <= p.1 <= s@.len() && parse_opt_str(s@.skip(pos as int)) == Some(
                (
                    match p.0 {
                        Some(v) => Some(v@),
                        None => None,
                    },
                    s@.skip(p.1 as int),
                ),
            ),
            None => parse_opt_str(s@.skip(pos as int)) is None,
        },
{
    let ghost suf = s@.skip(pos as int);
    let n = s.unicode_len();
    if pos < n {
        let c = s.get_char(pos);
        proof {
            assert(suf[0] == c);
        }
        if c == '"' {
            return match p_jstr(s, pos) {
                Some((body, p)) => Some((Some(body), p)),
                None => None,
            };
        }
    }
    match p_lit(s, pos, "null") {
        Some(p) => Some((None, p)),
        None => None,
    }
}

/// Consumes `null` or a canonical decimal at `pos`.
pub fn p_opt_num(s: &str, pos: usize) -> (r: Option<(Option<u64>, usize)>)
    requires
        pos <= s@.len(),
    ensures
        match r {
            Some(p) => pos <= p.1 <= s@.len() && parse_opt_num(s@.skip(pos as int)) == Some(
                (p.0, s@.skip(p.1 as int)),
            ),
            None => parse_opt_num(s@.skip(pos as int)) is None,
        },
{
    let ghost suf = s@.skip(pos as int);
    let n = s.unicode_len();
    if pos < n {
        let c = s.get_char(pos);
        let cu = c as u32;
        proof {
            assert(suf[0] == c);
        }
        if 48 <= cu && cu <= 57 {
            return match p_dec(s, pos) {
                Some((v, p)) => Some((Some(v), p)),
                None => None,
            };
        }
    }
    match p_lit(s, pos, "null") {
        Some(p) => Some((None, p)),
        None => None,
    }
}

/// Reads a whole canonical payload text back into a claim set,
/// exactly as the specification-level reader does.
pub fn parse_claims_str(s: &str) -> (r: Option<AuthClaims>)
    ensures
        match r {
            Some(c) => parse_claims_text(s@) == Some(c@),
            None => parse_claims_text(s@) is None,
        },
{
    proof {
        assert(s@.skip(0) =~= s@);
    }
    let n = s.unicode_len();
    let p1 = match p_lit(s, 0, "{\"exp\":") {
        Some(p) => p,
        None => {
            return None;
        },
    };
    let (exp, p2) = match p_dec(s, p1) {
        Some(v) => v,
        None => {
            return None;
        },
    };
    let p3 = match p_lit(s, p2, ",\"auth_level\":") {
        Some(p) => p,
        None => {
            return None;
        },
    };
    let (auth_level, p4) = match p_jstr(s, p3) {
        Some(v) => v,
        None => {
            return None;
        },
    };
    let p5 = match p_lit(s, p4, ",\"session_id\":") {
        Some(p) => p,
        None => {
            return None;
        },
    };
    let (session_id, p6) = match p_opt_str(s, p5) {
        Some(v) => v,
        None => {
            return None;
        },
    };
    let p7 = match p_lit(s, p6, ",\"user_name\":") {
        Some(p) => p,
        None => {
            return None;
        },
    };
    let (user_name, p8) = match p_opt_str(s, p7) {
        Some(v) => v,
        None => {
            return None;
        },
    };
    let p9 = match p_lit(s, p8, ",\"role\":") {
        Some(p) => p,
        None => {
            return None;
        },
    };
    let (role, p10) = match p_opt_str(s, p9) {
        Some(v) => v,
        None => {
            return None;
        },
    };
    let p11 = match p_lit(s, p10, ",\"state\":") {
        Some(p) => p,
        None => {
            return None;
        },
    };
    let (state, p12) = match p_opt_str(s, p11) {
        Some(v) => v,
        None => {
            return None;
        },
    };
    let p13 = match p_lit(s, p12, ",\"user_id\":") {
        Some(p) => p,
        None => {
            return None;
        },
    };
    let (user_id, p14) = match p_opt_num(s, p13) {
        Some(v) => v,
        None => {
            return None;
        },
    };
    let p15 = match p_lit(s, p14, "}") {
        Some(p) => p,
        None => {
            return None;
        },
    };
    if p15 != n {
        proof {
            assert(s@.skip(p15 as int).len() != 0);
        }
        return None;
    }
    proof {
        assert(s@.skip(p15 as int).len() == 0);
    }
    Some(
        AuthClaims {
            exp,
            auth_level,
            session_id,
            user_name,
            role,
            state,
            user_id,
        },
    )
}

} // verus!
