//! The canonical claim-set payload text.
//!
//! A claim set travels inside the signed token as a JSON-like object
//! with a fixed field order.  The writer below emits exactly the
//! canonical form given by [`ser_claims`]; the reader accepts it back.
//! String values escape only the quote and the backslash.

use vstd::prelude::*;

use crate::strutil::push_char;
use crate::token::{AuthClaims, AuthClaimsView};

verus! {

use vstd::string::{StrSliceExecFns, StringExecFns};

/// True iff `c` is a decimal digit.
pub open spec fn is_digit(c: char) -> bool {
    48 <= c as int && c as int <= 57
}

/// The numeric value of a digit character.
pub open spec fn digit_val(c: char) -> int {
    c as int - 48
}

/// The digit character for a value below ten.
pub open spec fn digit_char(d: int) -> char {
    ((d + 48) as u8) as char
}

/// Canonical decimal spelling of `n`: no sign, no leading zeros.
pub open spec fn dec_of(n: u64) -> Seq<char>
    decreases n,
{
    if n < 10 {
        seq![digit_char(n as int)]
    } else {
        dec_of(n / 10).push(digit_char((n % 10) as int))
    }
}

/// Escaping of one character inside a quoted string: quote and
/// backslash get a backslash prefix, everything else stands as is.
pub open spec fn esc_char(c: char) -> Seq<char> {
    if c == '"' || c == '\\' {
        seq!['\\', c]
    } else {
        seq![c]
    }
}

/// Escaping of a whole string body.
pub open spec fn esc(s: Seq<char>) -> Seq<char>
    decreases s.len(),
{
    if s.len() == 0 {
        Seq::empty()
    } else {
        esc_char(s[0]) + esc(s.drop_first())
    }
}

/// A quoted, escaped string value.
pub open spec fn jstr(s: Seq<char>) -> Seq<char> {
    seq!['"'] + esc(s) + seq!['"']
}

/// An optional string value: `null` or a quoted string.
pub open spec fn jopt_str(o: Option<Seq<char>>) -> Seq<char> {
    match o {
        None => "null"@,
        Some(s) => jstr(s),
    }
}

/// An optional numeric value: `null` or a canonical decimal.
pub open spec fn jopt_num(o: Option<u64>) -> Seq<char> {
    match o {
        None => "null"@,
        Some(n) => dec_of(n),
    }
}

/// The canonical payload text of a claim set.
pub open spec fn ser_claims(c: AuthClaimsView) -> Seq<char> {
    "{\"exp\":"@ + dec_of(c.exp) + ",\"auth_level\":"@ + jstr(c.auth_level) + ",\"session_id\":"@
        + jopt_str(c.session_id) + ",\"user_name\":"@ + jopt_str(c.user_name) + ",\"role\":"@
        + jopt_str(c.role) + ",\"state\":"@ + jopt_str(c.state) + ",\"user_id\":"@ + jopt_num(
        c.user_id,
    ) + "}"@
}

/// Appending one more character extends the escaped body by that
/// character's escaping.
pub proof fn lemma_esc_snoc(s: Seq<char>, c: char)
    ensures
        esc(s.push(c)) == esc(s) + esc_char(c),
    decreases s.len(),
{
    if s.len() == 0 {
        assert(esc(Seq::<char>::empty()) == Seq::<char>::empty());
        assert(s =~= Seq::<char>::empty());
        assert(s.push(c) =~= seq![c]);
        assert(seq![c].drop_first() =~= Seq::<char>::empty());
        assert(seq![c][0] == c);
        assert(esc(seq![c]) =~= esc_char(c) + esc(Seq::<char>::empty()));
        assert(esc(s.push(c)) =~= esc_char(c));
        assert(esc(s) + esc_char(c) =~= esc_char(c));
    } else {
        assert(s.push(c).drop_first() =~= s.drop_first().push(c));
        lemma_esc_snoc(s.drop_first(), c);
        assert(esc(s.push(c)) =~= esc(s) + esc_char(c));
    }
}

/// Writes the canonical decimal spelling of `n` onto `out`.
pub fn write_dec(n: u64, out: &mut String)
    ensures
        final(out)@ == old(out)@ + dec_of(n),
    decreases n,
{
    if n >= 10 {
        proof {
            assert(n / 10 < n) by (nonlinear_arith)
                requires
                    n >= 10,
            ;
        }
        write_dec(n / 10, out);
    }
    let d: u8 = (n % 10) as u8;
    push_char(out, (d + 48) as char);
    proof {
        if n < 10 {
            assert(final(out)@ =~= old(out)@ + dec_of(n));
        } else {
            assert(final(out)@ =~= old(out)@ + dec_of(n));
        }
    }
}

/// Writes the quoted, escaped form of `s` onto `out`.
pub fn write_jstr(s: &str, out: &mut String)
    ensures
        final(out)@ == old(out)@ + jstr(s@),
{
    push_char(out, '"');
    let n = s.unicode_len();
    let mut i: usize = 0;
    while i < n
        invariant
            n == s@.len(),
            i <= n,
            out@ == old(out)@ + seq!['"'] + esc(s@.take(i as int)),
        decreases n - i,
    {
        let c = s.get_char(i);
        if c == '"' || c == '\\' {
            push_char(out, '\\');
            push_char(out, c);
        } else {
            push_char(out, c);
        }
        proof {
            assert(s@.take(i + 1 as int) =~= s@.take(i as int).push(s@[i as int]));
            lemma_esc_snoc(s@.take(i as int), s@[i as int]);
            assert(out@ =~= old(out)@ + seq!['"'] + esc(s@.take(i + 1 as int)));
        }
        i = i + 1;
    }
    push_char(out, '"');
    proof {
        assert(s@.take(n as int) =~= s@);
        assert(final(out)@ =~= old(out)@ + jstr(s@));
    }
}

/// Writes `null` or a quoted string onto `out`.
fn write_opt_str(o: &Option<String>, out: &mut String)
    ensures
        final(out)@ == old(out)@ + jopt_str(
            match o {
                Some(s) => Some(s@),
                None => None,
            },
        ),
{
    match o {
        Some(s) => write_jstr(s.as_str(), out),
        None => out.append("null"),
    }
}

/// Writes `null` or a canonical decimal onto `out`.
fn write_opt_num(o: &Option<u64>, out: &mut String)
    ensures
        final(out)@ == old(out)@ + jopt_num(*o),
{
    match o {
        Some(n) => write_dec(*n, out),
        None => out.append("null"),
    }
}

/// Emits the canonical payload text of `c`.
pub fn serialize_claims(c: &AuthClaims) -> (r: String)
    ensures
        r@ == ser_claims(c@),
{
    let mut out = String::new();
    out.append("{\"exp\":");
    write_dec(c.exp, &mut out);
    out.append(",\"auth_level\":");
    write_jstr(c.auth_level.as_str(), &mut out);
    out.append(",\"session_id\":");
    write_opt_str(&c.session_id, &mut out);
    out.append(",\"user_name\":");
    write_opt_str(&c.user_name, &mut out);
    out.append(",\"role\":");
    write_opt_str(&c.role, &mut out);
    out.append(",\"state\":");
    write_opt_str(&c.state, &mut out);
    out.append(",\"user_id\":");
    write_opt_num(&c.user_id, &mut out);
    out.append("}");
    proof {
        assert(out@ =~= ser_claims(c@));
    }
    out
}

} // verus!
