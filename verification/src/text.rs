//! Text-level emission rules for primitive values: decimal rendering of
//! integers with width suffixes, and the escaping used inside string and
//! character literals. Each rule is stated as a spec function; the exec
//! emitters append exactly that text, and round-trip lemmas show that the
//! emitted literal denotes the value it was built from.

use vstd::prelude::*;
use vstd::string::*;

verus! {

/// Relies on String::push: appends exactly the one character to the string.
#[verifier::external_body]
pub(crate) fn push_char(out: &mut String, c: char)
    ensures
        final(out)@ == old(out)@ + seq![c],
{
    out.push(c);
}

/// The literal token of a boolean.
pub open spec fn bool_text(b: bool) -> Seq<char> {
    if b {
        "true"@
    } else {
        "false"@
    }
}

// ---------------------------------------------------------------------------
// Decimal rendering of integers
// ---------------------------------------------------------------------------

/// The digit character for one value below ten.
pub open spec fn digit_char(d: nat) -> char {
    if d == 0 { '0' }
    else if d == 1 { '1' }
    else if d == 2 { '2' }
    else if d == 3 { '3' }
    else if d == 4 { '4' }
    else if d == 5 { '5' }
    else if d == 6 { '6' }
    else if d == 7 { '7' }
    else if d == 8 { '8' }
    else { '9' }
}

pub open spec fn is_digit(c: char) -> bool {
    c == '0' || c == '1' || c == '2' || c == '3' || c == '4'
    || c == '5' || c == '6' || c == '7' || c == '8' || c == '9'
}

/// The numeric value of one digit character.
pub open spec fn digit_val(c: char) -> nat {
    if c == '0' { 0 }
    else if c == '1' { 1 }
    else if c == '2' { 2 }
    else if c == '3' { 3 }
    else if c == '4' { 4 }
    else if c == '5' { 5 }
    else if c == '6' { 6 }
    else if c == '7' { 7 }
    else if c == '8' { 8 }
    else { 9 }
}

/// The minimal decimal rendering of a natural number.
pub open spec fn dec_nat(n: nat) -> Seq<char>
    decreases n,
{
    if n < 10 {
        seq![digit_char(n)]
    } else {
        dec_nat(n / 10).push(digit_char(n % 10))
    }
}

/// The decimal rendering of an integer: a minus sign before the magnitude
/// when negative.
pub open spec fn dec_int(v: int) -> Seq<char> {
    if v < 0 {
        seq!['-'] + dec_nat((-v) as nat)
    } else {
        dec_nat(v as nat)
    }
}

/// The natural number a digit sequence denotes.
pub open spec fn dec_val(s: Seq<char>) -> nat
    decreases s.len(),
{
    if s.len() == 0 {
        0
    } else {
        dec_val(s.drop_last()) * 10 + digit_val(s.last())
    }
}

/// The integer a (possibly sign-prefixed) digit sequence denotes.
pub open spec fn sdec_val(s: Seq<char>) -> int {
    if s.len() > 0 && s[0] == '-' {
        -(dec_val(s.drop_first()) as int)
    } else {
        dec_val(s) as int
    }
}

/// Reading the minimal decimal rendering of a natural number back yields
/// the number; the rendering is nonempty, made of digits only, and has no
/// leading zero unless the number itself is zero.
pub proof fn lemma_decimal_roundtrip(n: nat)
    ensures
        dec_val(dec_nat(n)) == n,
        dec_nat(n).len() >= 1,
        forall|i: int| 0 <= i < dec_nat(n).len() ==> is_digit(#[trigger] dec_nat(n)[i]),
        n > 0 ==> dec_nat(n)[0] != '0',
    decreases n,
{
    if n < 10 {
        assert(dec_nat(n) == seq![digit_char(n)]);
        assert(dec_nat(n).drop_last() =~= Seq::<char>::empty());
        assert(dec_val(Seq::<char>::empty()) == 0);
        assert(dec_nat(n).last() == digit_char(n));
        assert(digit_val(digit_char(n)) == n);
    } else {
        lemma_decimal_roundtrip(n / 10);
        assert(dec_nat(n).drop_last() =~= dec_nat(n / 10));
        assert(dec_nat(n).last() == digit_char(n % 10));
        assert(digit_val(digit_char(n % 10)) == n % 10);
        assert(dec_val(dec_nat(n)) == dec_val(dec_nat(n / 10)) * 10 + digit_val(digit_char(n % 10)));
        assert(dec_val(dec_nat(n / 10)) * 10 + n % 10 == n);
        assert(dec_nat(n)[0] == dec_nat(n / 10)[0]);
    }
}

/// Reading a signed decimal rendering back yields the integer.
pub proof fn lemma_signed_decimal_roundtrip(v: int)
    ensures
        sdec_val(dec_int(v)) == v,
{
    if v < 0 {
        lemma_decimal_roundtrip((-v) as nat);
        assert(dec_int(v)[0] == '-');
        assert(dec_int(v).drop_first() =~= dec_nat((-v) as nat));
    } else {
        lemma_decimal_roundtrip(v as nat);
        assert(dec_nat(v as nat)[0] != '-');
    }
}

/// The digit part left when the given suffix is taken off the end of a
/// literal; nothing when the literal does not end in that suffix.
pub open spec fn strip_suffix(s: Seq<char>, suf: Seq<char>) -> Option<Seq<char>> {
    if s.len() >= suf.len() && s.skip(s.len() - suf.len()) == suf {
        Some(s.take(s.len() - suf.len()))
    } else {
        None
    }
}

/// A rendered body followed by a suffix strips back to exactly that body.
pub proof fn lemma_strip_suffix(body: Seq<char>, suf: Seq<char>)
    ensures
        strip_suffix(body + suf, suf) == Some(body),
{
    let s = body + suf;
    assert(s.skip(s.len() - suf.len()) =~= suf);
    assert(s.take(s.len() - suf.len()) =~= body);
}

/// A complete string literal strips to its quoted body, and that body
/// un-escapes to the original character sequence.
pub proof fn lemma_string_literal_roundtrip(s: Seq<char>)
    ensures
        str_lit(s).len() >= 2,
        str_lit(s)[0] == '"',
        str_lit(s).last() == '"',
        unesc_str(str_lit(s).subrange(1, str_lit(s).len() - 1)) == s,
{
    lemma_string_escape_roundtrip(s);
    assert(str_lit(s).subrange(1, str_lit(s).len() - 1) =~= esc_str(s));
}

/// A complete character literal strips to its quoted body, and that body
/// denotes the original character.
pub proof fn lemma_char_literal_roundtrip(c: char)
    ensures
        char_lit(c).len() >= 3,
        char_lit(c)[0] == '\'',
        char_lit(c).last() == '\'',
        unesc_chr(char_lit(c).subrange(1, char_lit(c).len() - 1)) == c,
{
    lemma_char_escape_roundtrip(c);
    assert(char_lit(c).subrange(1, char_lit(c).len() - 1) =~= esc_char_in_chr(c));
}

/// The digit character for one value below ten, as executable code.
fn digit_of(d: u128) -> (c: char)
    requires
        d < 10,
    ensures
        c == digit_char(d as nat),
{
    if d == 0 { '0' }
    else if d == 1 { '1' }
    else if d == 2 { '2' }
    else if d == 3 { '3' }
    else if d == 4 { '4' }
    else if d == 5 { '5' }
    else if d == 6 { '6' }
    else if d == 7 { '7' }
    else if d == 8 { '8' }
    else { '9' }
}

/// A digit sequence read back to front: the reversal used to lay out the
/// digits gathered from repeated division.
pub open spec fn revc(s: Seq<char>) -> Seq<char>
    decreases s.len(),
{
    if s.len() == 0 {
        Seq::<char>::empty()
    } else {
        seq![s.last()] + revc(s.drop_last())
    }
}

/// Appends the minimal decimal rendering of `v`.
pub(crate) fn push_dec_u128(out: &mut String, v: u128)
    ensures
        final(out)@ == old(out)@ + dec_nat(v as nat),
{
    let ghost entry: Seq<char> = out@;
    let mut digits: Vec<char> = Vec::new();
    let mut n: u128 = v;
    loop
        invariant_except_break
            digits@.len() > 0 ==> n > 0,
        invariant
            digits@.len() == 0 ==> n == v,
            digits@.len() > 0 && n > 0 ==>
                dec_nat(v as nat) == dec_nat(n as nat) + revc(digits@),
            out@ == entry,
        ensures
            digits@.len() > 0,
            dec_nat(v as nat) == revc(digits@),
            out@ == entry,
        decreases n, (if digits@.len() == 0 { 1int } else { 0int }),
    {
        let ghost n0 = n as nat;
        let ghost ds0 = digits@;
        let d: u128 = n % 10;
        let dc = digit_of(d);
        digits.push(dc);
        n = n / 10;
        proof {
            assert(ds0.push(dc).drop_last() =~= ds0);
            assert(revc(digits@) == seq![dc] + revc(ds0));
            if ds0.len() == 0 {
                assert(n0 == v as nat);
            }
            if n0 < 10 {
                assert(dec_nat(n0) == seq![digit_char(n0)]);
                if ds0.len() > 0 {
                    assert(dec_nat(v as nat) == dec_nat(n0) + revc(ds0));
                    assert(dec_nat(v as nat) =~= revc(digits@));
                } else {
                    assert(dec_nat(v as nat) =~= revc(digits@));
                }
            } else {
                assert(dec_nat(n0) == dec_nat(n0 / 10).push(digit_char(n0 % 10)));
                assert(dec_nat(n0) =~= dec_nat(n0 / 10) + seq![dc]);
                if ds0.len() == 0 {
                    assert(dec_nat(v as nat) =~= dec_nat(n as nat) + revc(digits@));
                } else {
                    assert(dec_nat(v as nat) == dec_nat(n0) + revc(ds0));
                    assert((dec_nat(n0 / 10) + seq![dc]) + revc(ds0)
                        =~= dec_nat(n0 / 10) + (seq![dc] + revc(ds0)));
                    assert(dec_nat(v as nat) =~= dec_nat(n as nat) + revc(digits@));
                }
            }
        }
        if n == 0 {
            break;
        }
    }
    let len: usize = digits.len();
    proof {
        assert(digits@.take(len as int) =~= digits@);
    }
    let mut i: usize = len;
    while i > 0
        invariant
            len == digits@.len(),
            i <= len,
            dec_nat(v as nat) == revc(digits@),
            out@ + revc(digits@.take(i as int)) == entry + revc(digits@),
        decreases i,
    {
        proof {
            let t = digits@.take(i as int);
            assert(t.last() == digits@[i - 1int]);
            assert(t.drop_last() =~= digits@.take(i - 1int));
            assert(revc(t) == seq![digits@[i - 1int]] + revc(digits@.take(i - 1int)));
        }
        push_char(out, digits[i - 1]);
        i = i - 1;
    }
    proof {
        assert(digits@.take(0int) =~= Seq::<char>::empty());
        assert(revc(Seq::<char>::empty()) =~= Seq::<char>::empty());
        assert(out@ =~= entry + dec_nat(v as nat));
    }
}

/// Appends the decimal rendering of `v`, sign included.
pub(crate) fn push_dec_i128(out: &mut String, v: i128)
    ensures
        final(out)@ == old(out)@ + dec_int(v as int),
{
    if v < 0 {
        push_char(out, '-');
        let mag: u128 = ((-(v + 1)) as u128) + 1;
        assert(mag as nat == (-(v as int)) as nat);
        push_dec_u128(out, mag);
        assert(final(out)@ =~= old(out)@ + dec_int(v as int));
    } else {
        push_dec_u128(out, v as u128);
    }
}

// ---------------------------------------------------------------------------
// Escaping inside string and character literals
// ---------------------------------------------------------------------------

/// The rendering of one character inside a double-quoted string literal.
/// Quotes, backslashes and the common control characters are escaped; every
/// other character stands for itself.
pub open spec fn esc_char_in_str(c: char) -> Seq<char> {
    if c == '"' { seq!['\\', '"'] }
    else if c == '\\' { seq!['\\', '\\'] }
    else if c == '\n' { seq!['\\', 'n'] }
    else if c == '\r' { seq!['\\', 'r'] }
    else if c == '\t' { seq!['\\', 't'] }
    else { seq![c] }
}

/// The body of a string literal: each character escaped in turn.
pub open spec fn esc_str(s: Seq<char>) -> Seq<char>
    decreases s.len(),
{
    if s.len() == 0 {
        Seq::<char>::empty()
    } else {
        esc_char_in_str(s[0]) + esc_str(s.drop_first())
    }
}

/// A complete string literal: quote, escaped body, quote.
pub open spec fn str_lit(s: Seq<char>) -> Seq<char> {
    seq!['"'] + esc_str(s) + seq!['"']
}

/// The character an escape code stands for.
pub open spec fn unesc_code(c: char) -> char {
    if c == 'n' { '\n' }
    else if c == 'r' { '\r' }
    else if c == 't' { '\t' }
    else { c }
}

/// Reading a string literal body back: a backslash introduces an escape
/// pair, anything else stands for itself.
pub open spec fn unesc_str(s: Seq<char>) -> Seq<char>
    decreases s.len(),
{
    if s.len() == 0 {
        Seq::<char>::empty()
    } else if s[0] == '\\' && s.len() >= 2 {
        seq![unesc_code(s[1])] + unesc_str(s.skip(2))
    } else {
        seq![s[0]] + unesc_str(s.skip(1))
    }
}

/// Un-escaping the escaped body of a string literal yields the original
/// character sequence.
pub proof fn lemma_string_escape_roundtrip(s: Seq<char>)
    ensures
        unesc_str(esc_str(s)) == s,
    decreases s.len(),
{
    if s.len() == 0 {
    } else {
        let rest = s.drop_first();
        lemma_string_escape_roundtrip(rest);
        let e = esc_char_in_str(s[0]);
        assert(esc_str(s) == e + esc_str(rest));
        if s[0] == '"' || s[0] == '\\' || s[0] == '\n' || s[0] == '\r' || s[0] == '\t' {
            assert(e.len() == 2 && e[0] == '\\');
            assert(unesc_code(e[1]) == s[0]);
            assert((e + esc_str(rest)).skip(2) =~= esc_str(rest));
            assert(unesc_str(esc_str(s)) =~= seq![s[0]] + rest);
        } else {
            assert(e =~= seq![s[0]]);
            assert((e + esc_str(rest)).skip(1) =~= esc_str(rest));
            assert(unesc_str(esc_str(s)) =~= seq![s[0]] + rest);
        }
        assert(seq![s[0]] + rest =~= s);
    }
}

/// The rendering of one character inside a single-quoted character literal.
pub open spec fn esc_char_in_chr(c: char) -> Seq<char> {
    if c == '\'' { seq!['\\', '\''] }
    else if c == '\\' { seq!['\\', '\\'] }
    else if c == '\n' { seq!['\\', 'n'] }
    else if c == '\r' { seq!['\\', 'r'] }
    else if c == '\t' { seq!['\\', 't'] }
    else { seq![c] }
}

/// A complete character literal.
pub open spec fn char_lit(c: char) -> Seq<char> {
    seq!['\''] + esc_char_in_chr(c) + seq!['\'']
}

/// The character a character-literal body denotes.
pub open spec fn unesc_chr(s: Seq<char>) -> char {
    if s.len() >= 2 && s[0] == '\\' { unesc_code(s[1]) } else if s.len() >= 1 { s[0] } else { '\0' }
}

/// Un-escaping the escaped body of a character literal yields the original
/// character.
pub proof fn lemma_char_escape_roundtrip(c: char)
    ensures
        unesc_chr(esc_char_in_chr(c)) == c,
{
}

/// Appends the in-string-literal rendering of one character.
fn push_escaped_in_str(out: &mut String, c: char)
    ensures
        final(out)@ == old(out)@ + esc_char_in_str(c),
{
    if c == '"' {
        proof { reveal_strlit("\\\""); }
        out.append("\\\"");
    } else if c == '\\' {
        proof { reveal_strlit("\\\\"); }
        out.append("\\\\");
    } else if c == '\n' {
        proof { reveal_strlit("\\n"); }
        out.append("\\n");
    } else if c == '\r' {
        proof { reveal_strlit("\\r"); }
        out.append("\\r");
    } else if c == '\t' {
        proof { reveal_strlit("\\t"); }
        out.append("\\t");
    } else {
        push_char(out, c);
    }
}

/// Appends a complete double-quoted, escaped string literal for `s`.
pub(crate) fn push_str_lit(out: &mut String, s: &str)
    ensures
        final(out)@ == old(out)@ + str_lit(s@),
{
    let ghost entry: Seq<char> = out@;
    push_char(out, '"');
    let len: usize = s.unicode_len();
    proof {
        assert(s@.skip(0int) =~= s@);
    }
    let mut i: usize = 0;
    while i < len
        invariant
            len == s@.len(),
            i <= len,
            entry + seq!['"'] + esc_str(s@) == out@ + esc_str(s@.skip(i as int)),
        decreases len - i,
    {
        let c = s.get_char(i);
        push_escaped_in_str(out, c);
        proof {
            let t = s@.skip(i as int);
            assert(t[0] == s@[i as int]);
            assert(t.drop_first() =~= s@.skip(i + 1int));
            assert(esc_str(t) == esc_char_in_str(c) + esc_str(s@.skip(i + 1int)));
        }
        i = i + 1;
    }
    proof {
        assert(esc_str(s@.skip(len as int)) =~= Seq::<char>::empty());
        assert(out@ =~= entry + seq!['"'] + esc_str(s@));
    }
    push_char(out, '"');
    proof {
        assert(final(out)@ =~= entry + str_lit(s@));
    }
}

/// The separator standing before the element at position `k` of a
/// comma-separated list: nothing before the first element.
pub open spec fn sep_text(k: nat) -> Seq<char> {
    if k > 0 {
        ", "@
    } else {
        Seq::<char>::empty()
    }
}

/// The literal of one byte inside a byte sequence.
pub open spec fn byte_text(b: u8) -> Seq<char> {
    dec_nat(b as nat) + "u8"@
}

/// The comma-separated body of a byte-sequence literal.
pub open spec fn bytes_body(s: Seq<u8>) -> Seq<char>
    decreases s.len(),
{
    if s.len() == 0 {
        Seq::<char>::empty()
    } else {
        bytes_body(s.drop_last()) + sep_text((s.len() - 1) as nat) + byte_text(s.last())
    }
}

/// A whole byte-sequence literal: a borrowed slice of suffixed byte values.
pub open spec fn bytes_text(s: Seq<u8>) -> Seq<char> {
    "&["@ + bytes_body(s) + "]"@
}

/// Appends the borrowed-slice literal for a byte sequence.
pub(crate) fn push_bytes(out: &mut String, v: &[u8])
    ensures
        final(out)@ == old(out)@ + bytes_text(v@),
{
    let ghost entry: Seq<char> = out@;
    out.append("&[");
    proof {
        assert(v@.take(0int) =~= Seq::<u8>::empty());
        assert(out@ =~= entry + "&["@ + bytes_body(v@.take(0int)));
    }
    let len: usize = v.len();
    let mut i: usize = 0;
    while i < len
        invariant
            i <= len,
            len == v@.len(),
            out@ == entry + "&["@ + bytes_body(v@.take(i as int)),
        decreases len - i,
    {
        if i > 0 {
            out.append(", ");
        }
        let b: u8 = v[i];
        push_dec_u128(out, b as u128);
        out.append("u8");
        proof {
            assert(v@.take(i + 1int).drop_last() =~= v@.take(i as int));
            assert(v@.take(i + 1int).last() == v@[i as int]);
            assert(out@ =~= entry + "&["@ + bytes_body(v@.take(i + 1int)));
        }
        i = i + 1;
    }
    proof {
        assert(v@.take(len as int) =~= v@);
    }
    out.append("]");
    proof {
        assert(final(out)@ =~= entry + bytes_text(v@));
    }
}

/// Appends a complete single-quoted character literal for `c`.
pub(crate) fn push_char_lit(out: &mut String, c: char)
    ensures
        final(out)@ == old(out)@ + char_lit(c),
{
    push_char(out, '\'');
    if c == '\'' {
        proof { reveal_strlit("\\'"); }
        out.append("\\'");
    } else if c == '\\' {
        proof { reveal_strlit("\\\\"); }
        out.append("\\\\");
    } else if c == '\n' {
        proof { reveal_strlit("\\n"); }
        out.append("\\n");
    } else if c == '\r' {
        proof { reveal_strlit("\\r"); }
        out.append("\\r");
    } else if c == '\t' {
        proof { reveal_strlit("\\t"); }
        out.append("\\t");
    } else {
        push_char(out, c);
    }
    push_char(out, '\'');
    proof {
        assert(final(out)@ =~= old(out)@ + char_lit(c));
    }
}

} // verus!
