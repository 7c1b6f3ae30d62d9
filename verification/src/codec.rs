//! The asset file's textual encoding, at the byte level.
//!
//! An asset record is written as a parenthesized field list: strings are
//! double-quoted with backslash escapes for the quote and the backslash,
//! numbers are unsigned decimals, and byte arrays are bracketed
//! comma-separated decimals. The encoder emits exactly the canonical
//! form; the parser accepts it and returns, for whatever it accepts, the
//! value whose canonical encoding is the consumed input.

use vstd::prelude::*;

verus! {

/// How one byte appears inside a quoted string: the quote and the
/// backslash are escaped with a backslash, everything else stands as is.
pub open spec fn esc_char(c: u8) -> Seq<u8> {
    if c == 34 || c == 92 {
        seq![92u8, c]
    } else {
        seq![c]
    }
}

/// A byte string with its quotes-and-backslashes escaped.
pub open spec fn escape_bytes(s: Seq<u8>) -> Seq<u8>
    decreases s.len(),
{
    if s.len() == 0 {
        Seq::empty()
    } else {
        escape_bytes(s.drop_last()) + esc_char(s.last())
    }
}

/// A double-quoted, escaped byte string.
pub open spec fn quote_bytes(s: Seq<u8>) -> Seq<u8> {
    seq![34u8] + escape_bytes(s) + seq![34u8]
}

/// The length of a quoted, escaped byte string.
pub open spec fn quoted_len(s: Seq<u8>) -> int {
    escape_bytes(s).len() + 2int
}

/// The quoted encoding of `s` stands in `b` at `pos`.
pub open spec fn str_encoded_at(b: Seq<u8>, pos: int, s: Seq<u8>) -> bool {
    &&& 0 <= pos
    &&& pos + quoted_len(s) <= b.len()
    &&& b.subrange(pos, pos + quoted_len(s)) == quote_bytes(s)
}

/// Escaping unfolds at the front as well as at the back.
pub proof fn lemma_escape_first(s: Seq<u8>)
    requires
        s.len() > 0,
    ensures
        escape_bytes(s) == esc_char(s[0]) + escape_bytes(s.skip(1)),
    decreases s.len(),
{
    if s.len() == 1 {
        assert(s.drop_last().len() == 0);
        assert(s.skip(1) =~= Seq::<u8>::empty());
        assert(escape_bytes(s) == escape_bytes(s.drop_last()) + esc_char(s.last()));
        assert(escape_bytes(s.drop_last()) == Seq::<u8>::empty());
        assert(escape_bytes(s.skip(1)) == Seq::<u8>::empty());
        assert(s.last() == s[0]);
        assert(escape_bytes(s) =~= esc_char(s[0]) + escape_bytes(s.skip(1)));
    } else {
        lemma_escape_first(s.drop_last());
        assert(s.drop_last()[0] == s[0]);
        assert(s.drop_last().skip(1) =~= s.skip(1).drop_last());
        assert(s.skip(1).last() == s.last());
        assert(s.skip(1).len() > 0);
        assert(escape_bytes(s) == escape_bytes(s.drop_last()) + esc_char(s.last()));
        assert(escape_bytes(s.drop_last()) == esc_char(s[0]) + escape_bytes(
            s.skip(1).drop_last(),
        ));
        assert(escape_bytes(s.skip(1)) == escape_bytes(s.skip(1).drop_last()) + esc_char(
            s.last(),
        ));
        assert(escape_bytes(s) =~= esc_char(s[0]) + escape_bytes(s.skip(1)));
    }
}

/// Escaping splits at any index.
pub proof fn lemma_escape_split(s: Seq<u8>, k: int)
    requires
        0 <= k <= s.len(),
    ensures
        escape_bytes(s) == escape_bytes(s.take(k)) + escape_bytes(s.skip(k)),
    decreases k,
{
    if k == 0 {
        assert(s.take(0).len() == 0);
        assert(s.skip(0) =~= s);
        assert(escape_bytes(s) =~= escape_bytes(s.take(0)) + escape_bytes(s.skip(0)));
    } else {
        lemma_escape_split(s, k - 1);
        lemma_escape_first(s.skip(k - 1));
        assert(s.skip(k - 1)[0] == s[k - 1]);
        assert(s.skip(k - 1).skip(1) =~= s.skip(k));
        assert(s.take(k).drop_last() =~= s.take(k - 1));
        assert(s.take(k).last() == s[k - 1]);
        assert(s.take(k).len() > 0);
        assert(escape_bytes(s.take(k)) == escape_bytes(s.take(k - 1)) + esc_char(s[k - 1]));
        assert(escape_bytes(s) =~= escape_bytes(s.take(k)) + escape_bytes(s.skip(k)));
    }
}

/// The shortest decimal digits of a number.
pub open spec fn dec_bytes(n: nat) -> Seq<u8>
    decreases n,
{
    if n < 10 {
        seq![(48 + n) as u8]
    } else {
        dec_bytes(n / 10) + seq![(48 + n % 10) as u8]
    }
}

/// A decimal digit byte.
pub open spec fn is_digit_byte(c: u8) -> bool {
    48 <= c <= 57
}

/// The decimal digits of `v` stand in `b` at `pos`, with no digit
/// directly after them.
pub open spec fn dec_encoded_at(b: Seq<u8>, pos: int, v: u8) -> bool {
    &&& 0 <= pos
    &&& pos + dec_bytes(v as nat).len() <= b.len()
    &&& b.subrange(pos, pos + dec_bytes(v as nat).len()) == dec_bytes(v as nat)
    &&& (pos + dec_bytes(v as nat).len() == b.len() || !is_digit_byte(
        b[pos + dec_bytes(v as nat).len()],
    ))
}

/// Shortest decimal digits are nonempty, all digits, without a leading
/// zero, and one digit exactly for numbers under ten.
pub proof fn lemma_dec_digits(n: nat)
    ensures
        dec_bytes(n).len() >= 1,
        forall|j: int| 0 <= j < dec_bytes(n).len() ==> is_digit_byte(#[trigger] dec_bytes(n)[j]),
        n >= 1 ==> dec_bytes(n)[0] != 48,
        (n < 10 <==> dec_bytes(n).len() == 1),
    decreases n,
{
    if n < 10 {
    } else {
        lemma_dec_digits(n / 10);
        assert(n / 10 >= 1);
        assert(dec_bytes(n) == dec_bytes(n / 10) + seq![(48 + n % 10) as u8]);
        assert(dec_bytes(n)[0] == dec_bytes(n / 10)[0]);
        assert(forall|j: int|
            0 <= j < dec_bytes(n).len() ==> is_digit_byte(#[trigger] dec_bytes(n)[j])) by {
            assert(forall|j: int|
                0 <= j < dec_bytes(n / 10).len() ==> #[trigger] dec_bytes(n)[j] == dec_bytes(
                    n / 10,
                )[j]);
            assert(is_digit_byte(dec_bytes(n).last()));
        }
    }
}

/// Distinct numbers have distinct shortest decimal digits.
pub proof fn lemma_dec_injective(a: nat, b: nat)
    requires
        dec_bytes(a) == dec_bytes(b),
    ensures
        a == b,
    decreases a,
{
    lemma_dec_digits(a);
    lemma_dec_digits(b);
    if a < 10 && b < 10 {
        assert(dec_bytes(a)[0] == (48 + a) as u8);
        assert(dec_bytes(b)[0] == (48 + b) as u8);
    } else if a >= 10 && b >= 10 {
        assert(dec_bytes(a).last() == (48 + a % 10) as u8);
        assert(dec_bytes(b).last() == (48 + b % 10) as u8);
        assert(a % 10 == b % 10);
        assert(dec_bytes(a).drop_last() =~= dec_bytes(a / 10));
        assert(dec_bytes(b).drop_last() =~= dec_bytes(b / 10));
        lemma_dec_injective(a / 10, b / 10);
        assert(a == 10 * (a / 10) + a % 10);
        assert(b == 10 * (b / 10) + b % 10);
    } else {
        assert(dec_bytes(a).len() == dec_bytes(b).len());
        assert(false);
    }
}

/// A number whose digits form a prefix of another number's digits is no
/// larger than it.
pub proof fn lemma_dec_prefix_le(x: nat, v: nat, j: int)
    requires
        1 <= j <= dec_bytes(v).len(),
        dec_bytes(x) == dec_bytes(v).take(j),
    ensures
        x <= v,
    decreases v,
{
    lemma_dec_digits(v);
    if j == dec_bytes(v).len() {
        assert(dec_bytes(v).take(j) =~= dec_bytes(v));
        lemma_dec_injective(x, v);
    } else {
        assert(v >= 10);
        assert(dec_bytes(v) == dec_bytes(v / 10) + seq![(48 + v % 10) as u8]);
        assert(dec_bytes(v).take(j) =~= dec_bytes(v / 10).take(j));
        lemma_dec_prefix_le(x, v / 10, j);
        assert(v / 10 <= v);
    }
}

/// The comma-separated decimals of a byte array, without the brackets.
pub open spec fn u8_list_body(s: Seq<u8>) -> Seq<u8>
    decreases s.len(),
{
    if s.len() == 0 {
        Seq::empty()
    } else if s.len() == 1 {
        dec_bytes(s[0] as nat)
    } else {
        u8_list_body(s.drop_last()) + seq![44u8] + dec_bytes(s.last() as nat)
    }
}

/// The rest of a byte array's encoding after its first `k` elements: a
/// comma and the decimals of each remaining element.
pub open spec fn list_tail(s: Seq<u8>, k: int) -> Seq<u8>
    decreases s.len() - k,
{
    if k < 0 || k >= s.len() {
        Seq::empty()
    } else {
        seq![44u8] + dec_bytes(s[k] as nat) + list_tail(s, k + 1)
    }
}

/// The encoding of a byte array's elements stands in `b` at `pos`, with
/// the array's closing bracket (or the end of `b`) directly after it.
pub open spec fn list_encoded_at(b: Seq<u8>, pos: int, s: Seq<u8>) -> bool {
    &&& 0 <= pos
    &&& pos + u8_list_body(s).len() <= b.len()
    &&& b.subrange(pos, pos + u8_list_body(s).len()) == u8_list_body(s)
    &&& (pos + u8_list_body(s).len() == b.len() || b[pos + u8_list_body(s).len()] == 93)
}

/// A byte array's encoding splits after its first `k` elements.
pub proof fn lemma_list_split(s: Seq<u8>, k: int)
    requires
        1 <= k <= s.len(),
    ensures
        u8_list_body(s) == u8_list_body(s.take(k)) + list_tail(s, k),
    decreases s.len() - k,
{
    if k == s.len() {
        assert(s.take(k) =~= s);
        assert(list_tail(s, k) == Seq::<u8>::empty());
        assert(u8_list_body(s) =~= u8_list_body(s.take(k)) + list_tail(s, k));
    } else {
        lemma_list_split(s, k + 1);
        assert(s.take(k + 1).drop_last() =~= s.take(k));
        assert(s.take(k + 1).last() == s[k]);
        assert(s.take(k + 1).len() == k + 1);
        if k + 1 == 1 {
            assert(u8_list_body(s.take(1)) == dec_bytes(s.take(1)[0] as nat));
            assert(s.take(1)[0] == s[0]);
        } else {
            assert(u8_list_body(s.take(k + 1)) == u8_list_body(s.take(k)) + seq![44u8]
                + dec_bytes(s[k] as nat));
        }
        assert(list_tail(s, k) == seq![44u8] + dec_bytes(s[k] as nat) + list_tail(s, k + 1));
        if k >= 1 {
            assert(u8_list_body(s) =~= u8_list_body(s.take(k)) + list_tail(s, k));
        }
    }
}

/// What stands at the element boundaries of an encoded byte array: a
/// comma and then the next element's digits, or the closing delimiter.
pub proof fn lemma_list_parts(b: Seq<u8>, pos: int, s: Seq<u8>, k: int)
    requires
        list_encoded_at(b, pos, s),
        0 <= k <= s.len(),
    ensures
        k == 0 && s.len() > 0 ==> dec_encoded_at(b, pos, s[0]) && u8_list_body(s.take(1))
            == dec_bytes(s[0] as nat),
        1 <= k < s.len() ==> {
            let i = pos + u8_list_body(s.take(k)).len();
            b[i] == 44 && dec_encoded_at(b, i + 1, s[k]) && u8_list_body(s.take(k + 1))
                == u8_list_body(s.take(k)) + seq![44u8] + dec_bytes(s[k] as nat)
        },
        k >= 1 ==> u8_list_body(s.take(k)).len() + list_tail(s, k).len() == u8_list_body(s).len(),
        k < s.len() ==> list_tail(s, k).len() >= 1,
{
    lemma_dec_digits(if k < s.len() {
        s[k] as nat
    } else {
        0
    });
    if k >= 1 {
        lemma_list_split(s, k);
    }
    if k == 0 && s.len() > 0 {
        lemma_list_split(s, 1);
        assert(s.take(1)[0] == s[0]);
        assert(u8_list_body(s.take(1)) == dec_bytes(s[0] as nat));
        let dl = dec_bytes(s[0] as nat).len() as int;
        lemma_dec_digits(s[0] as nat);
        assert forall|j: int| 0 <= j < dl implies b[pos + j] == dec_bytes(s[0] as nat)[j] by {
            assert(b[pos + j] == b.subrange(pos, pos + u8_list_body(s).len())[j]);
            assert(u8_list_body(s)[j] == dec_bytes(s[0] as nat)[j]);
        }
        assert(b.subrange(pos, pos + dl) =~= dec_bytes(s[0] as nat));
        if s.len() == 1 {
            assert(u8_list_body(s) == dec_bytes(s[0] as nat));
        } else {
            assert(list_tail(s, 1) == seq![44u8] + dec_bytes(s[1] as nat) + list_tail(s, 2));
            assert(u8_list_body(s)[dl] == list_tail(s, 1)[0]);
            assert(b[pos + dl] == b.subrange(pos, pos + u8_list_body(s).len())[dl]);
            assert(b[pos + dl] == 44);
            assert(!is_digit_byte(b[pos + dl]));
        }
    }
    if 1 <= k && k < s.len() {
        let i = pos + u8_list_body(s.take(k)).len();
        let off = u8_list_body(s.take(k)).len() as int;
        assert(list_tail(s, k) == seq![44u8] + dec_bytes(s[k] as nat) + list_tail(s, k + 1));
        assert(u8_list_body(s)[off] == list_tail(s, k)[0]);
        assert(b[i] == b.subrange(pos, pos + u8_list_body(s).len())[off]);
        assert(b[i] == 44);
        let dl = dec_bytes(s[k] as nat).len() as int;
        assert forall|j: int| 0 <= j < dl implies b[i + 1 + j] == dec_bytes(s[k] as nat)[j] by {
            assert(b[i + 1 + j] == b.subrange(pos, pos + u8_list_body(s).len())[off + 1 + j]);
            assert(u8_list_body(s)[off + 1 + j] == list_tail(s, k)[1 + j]);
            assert(list_tail(s, k)[1 + j] == dec_bytes(s[k] as nat)[j]);
        }
        assert(b.subrange(i + 1, i + 1 + dl) =~= dec_bytes(s[k] as nat));
        assert(s.take(k + 1).drop_last() =~= s.take(k));
        assert(s.take(k + 1).last() == s[k]);
        assert(u8_list_body(s.take(k + 1)) == u8_list_body(s.take(k)) + seq![44u8] + dec_bytes(
            s[k] as nat,
        ));
        if k + 1 < s.len() {
            assert(list_tail(s, k + 1) == seq![44u8] + dec_bytes(s[k + 1] as nat) + list_tail(
                s,
                k + 2,
            ));
            assert(u8_list_body(s)[off + 1 + dl] == list_tail(s, k)[1 + dl]);
            assert(list_tail(s, k)[1 + dl] == list_tail(s, k + 1)[0]);
            assert(b[i + 1 + dl] == b.subrange(pos, pos + u8_list_body(s).len())[off + 1 + dl]);
            assert(b[i + 1 + dl] == 44);
            assert(!is_digit_byte(b[i + 1 + dl]));
        } else {
            assert(list_tail(s, k + 1) == Seq::<u8>::empty());
            assert(i + 1 + dl == pos + u8_list_body(s).len());
        }
        assert(dec_encoded_at(b, i + 1, s[k]));
    }
}

/// A stretch of `b` equal to a concatenation splits into a stretch equal
/// to each half.
pub proof fn lemma_concat_parts(x: Seq<u8>, y: Seq<u8>, b: Seq<u8>, off: int)
    requires
        0 <= off,
        off + x.len() + y.len() <= b.len(),
        b.subrange(off, off + x.len() + y.len()) == x + y,
    ensures
        b.subrange(off, off + x.len()) == x,
        b.subrange(off + x.len(), off + x.len() + y.len()) == y,
{
    let n = x.len() + y.len();
    assert forall|k: int| 0 <= k < x.len() implies b.subrange(off, off + x.len())[k] == x[k] by {
        assert(b[off + k] == b.subrange(off, off + n)[k]);
        assert((x + y)[k] == x[k]);
    }
    assert(b.subrange(off, off + x.len()) =~= x);
    assert forall|k: int|
        0 <= k < y.len() implies b.subrange(off + x.len(), off + x.len() + y.len())[k] == y[k] by {
        assert(b[off + x.len() + k] == b.subrange(off, off + n)[x.len() + k]);
        assert((x + y)[x.len() + k] == y[k]);
    }
    assert(b.subrange(off + x.len(), off + x.len() + y.len()) =~= y);
}

/// Adjacent stretches of `b` join into one.
pub proof fn lemma_concat_join(b: Seq<u8>, i: int, j: int, k: int)
    requires
        0 <= i <= j <= k <= b.len(),
    ensures
        b.subrange(i, k) == b.subrange(i, j) + b.subrange(j, k),
{
    assert(b.subrange(i, k) =~= b.subrange(i, j) + b.subrange(j, k));
}

/// Appends one byte string to another.
pub fn append_bytes(out: &mut Vec<u8>, add: &Vec<u8>)
    ensures
        final(out)@ == old(out)@ + add@,
{
    let n = add.len();
    let mut i: usize = 0;
    while i < n
        invariant
            n == add@.len(),
            0 <= i <= n,
            out@ =~= old(out)@ + add@.take(i as int),
        decreases n - i,
    {
        out.push(add[i]);
        assert(out@ =~= old(out)@ + add@.take(i + 1));
        i += 1;
    }
    assert(add@.take(n as int) =~= add@);
    assert(out@ =~= old(out)@ + add@);
}

/// Appends a quoted, escaped byte string.
pub fn push_quoted(out: &mut Vec<u8>, s: &Vec<u8>)
    ensures
        final(out)@ == old(out)@ + quote_bytes(s@),
{
    out.push(34);
    let n = s.len();
    let mut i: usize = 0;
    while i < n
        invariant
            n == s@.len(),
            0 <= i <= n,
            out@ =~= old(out)@ + seq![34u8] + escape_bytes(s@.take(i as int)),
        decreases n - i,
    {
        let c = s[i];
        if c == 34 || c == 92 {
            out.push(92);
            out.push(c);
        } else {
            out.push(c);
        }
        proof {
            assert(s@.take(i + 1).drop_last() =~= s@.take(i as int));
            assert(s@.take(i + 1).last() == s@[i as int]);
            assert(escape_bytes(s@.take(i + 1)) == escape_bytes(s@.take(i as int)) + esc_char(
                s@[i as int],
            ));
            assert(out@ =~= old(out)@ + seq![34u8] + escape_bytes(s@.take(i + 1)));
        }
        i += 1;
    }
    out.push(34);
    proof {
        assert(s@.take(n as int) =~= s@);
        assert(out@ =~= old(out)@ + quote_bytes(s@));
    }
}

/// One decimal digit step: appending digit `d` to the digits of `v`
/// yields the digits of `v * 10 + d`.
proof fn lemma_dec_step(v: nat, d: nat)
    requires
        v >= 1,
        d < 10,
    ensures
        dec_bytes(v * 10 + d) == dec_bytes(v) + seq![(48 + d) as u8],
{
    assert((v * 10 + d) / 10 == v && (v * 10 + d) % 10 == d) by (nonlinear_arith)
        requires
            v >= 1,
            d < 10,
    ;
    assert(v * 10 + d >= 10) by (nonlinear_arith)
        requires
            v >= 1,
            d < 10,
    ;
}

/// Appends the shortest decimal digits of a number.
pub fn push_dec_u32(out: &mut Vec<u8>, n: u32)
    ensures
        final(out)@ == old(out)@ + dec_bytes(n as nat),
    decreases n,
{
    if n < 10 {
        out.push(48 + n as u8);
        assert(out@ =~= old(out)@ + dec_bytes(n as nat));
    } else {
        push_dec_u32(out, n / 10);
        out.push(48 + (n % 10) as u8);
        assert(out@ =~= old(out)@ + dec_bytes(n as nat));
    }
}

/// Appends the comma-separated decimals of a byte array.
pub fn push_u8_list_body(out: &mut Vec<u8>, s: &Vec<u8>)
    ensures
        final(out)@ == old(out)@ + u8_list_body(s@),
{
    let n = s.len();
    if n == 0 {
        assert(out@ =~= old(out)@ + u8_list_body(s@));
        return ;
    }
    push_dec_u32(out, s[0] as u32);
    proof {
        assert(s@.take(1)[0] == s@[0]);
        assert(u8_list_body(s@.take(1)) == dec_bytes(s@[0] as nat));
        assert(out@ =~= old(out)@ + u8_list_body(s@.take(1)));
    }
    let mut i: usize = 1;
    while i < n
        invariant
            n == s@.len(),
            1 <= i <= n,
            out@ =~= old(out)@ + u8_list_body(s@.take(i as int)),
        decreases n - i,
    {
        out.push(44);
        push_dec_u32(out, s[i] as u32);
        proof {
            assert(s@.take(i + 1).drop_last() =~= s@.take(i as int));
            assert(s@.take(i + 1).last() == s@[i as int]);
            assert(u8_list_body(s@.take(i + 1)) == u8_list_body(s@.take(i as int)) + seq![44u8]
                + dec_bytes(s@[i as int] as nat));
            assert(out@ =~= old(out)@ + u8_list_body(s@.take(i + 1)));
        }
        i += 1;
    }
    assert(s@.take(n as int) =~= s@);
}

/// Consumes an exact literal. Whatever position it returns, the consumed
/// bytes are that literal; and wherever the literal stands, it succeeds.
pub fn parse_lit(bytes: &Vec<u8>, pos: usize, lit: &Vec<u8>) -> (r: Option<usize>)
    ensures
        r matches Some(p) ==> pos + lit@.len() == p && p <= bytes@.len() && bytes@.subrange(
            pos as int,
            p as int,
        ) == lit@,
        pos + lit@.len() <= bytes@.len() && bytes@.subrange(pos as int, pos + lit@.len()) == lit@
            ==> r is Some,
{
    let n = lit.len();
    if pos > bytes.len() || n > bytes.len() - pos {
        return None;
    }
    let mut i: usize = 0;
    while i < n
        invariant
            n == lit@.len(),
            pos + n <= bytes@.len(),
            bytes@.len() <= usize::MAX,
            0 <= i <= n,
            forall|k: int| 0 <= k < i ==> bytes@[pos + k] == lit@[k],
        decreases n - i,
    {
        if bytes[pos + i] != lit[i] {
            return None;
        }
        i += 1;
    }
    assert(bytes@.subrange(pos as int, (pos + n) as int) =~= lit@);
    Some(pos + n)
}

/// The byte at the current scan offset of a quoted encoding, as the
/// escaping determines it: at offset `off` into the escaped body, with
/// `k` characters already recovered.
proof fn lemma_quoted_byte(b: Seq<u8>, pos: int, s: Seq<u8>, k: int)
    requires
        str_encoded_at(b, pos, s),
        0 <= k <= s.len(),
    ensures
        b[pos] == 34,
        k < s.len() && (s[k] == 34 || s[k] == 92) ==> {
            let off = escape_bytes(s.take(k)).len();
            b[pos + 1 + off] == 92 && b[pos + 2 + off] == s[k] && escape_bytes(s.take(k + 1))
                == escape_bytes(s.take(k)) + seq![92u8, s[k]]
        },
        k < s.len() && !(s[k] == 34 || s[k] == 92) ==> {
            let off = escape_bytes(s.take(k)).len();
            b[pos + 1 + off] == s[k] && escape_bytes(s.take(k + 1)) == escape_bytes(s.take(k))
                + seq![s[k]]
        },
        k < s.len() ==> escape_bytes(s.take(k)).len() + escape_bytes(seq![s[k]]).len()
            <= escape_bytes(s).len(),
        k == s.len() ==> b[pos + 1 + escape_bytes(s.take(k)).len()] == 34 && escape_bytes(
            s.take(k),
        ) == escape_bytes(s),
{
    lemma_escape_split(s, k);
    assert(b[pos] == b.subrange(pos, pos + quoted_len(s))[0]);
    if k < s.len() {
        lemma_escape_first(s.skip(k));
        assert(s.skip(k)[0] == s[k]);
        assert(s.take(k + 1).drop_last() =~= s.take(k));
        assert(s.take(k + 1).last() == s[k]);
        assert(escape_bytes(s.take(k + 1)) == escape_bytes(s.take(k)) + esc_char(s[k]));
        let off = escape_bytes(s.take(k)).len() as int;
        assert(escape_bytes(s) == escape_bytes(s.take(k)) + (esc_char(s[k]) + escape_bytes(
            s.skip(k).skip(1),
        )));
        assert(escape_bytes(s)[off] == esc_char(s[k])[0]);
        assert(b[pos + 1 + off] == b.subrange(pos, pos + quoted_len(s))[1 + off]);
        assert(b[pos + 1 + off] == quote_bytes(s)[1 + off]);
        assert(quote_bytes(s)[1 + off] == escape_bytes(s)[off]);
        if s[k] == 34 || s[k] == 92 {
            assert(esc_char(s[k]) == seq![92u8, s[k]]);
            assert(escape_bytes(s)[off + 1] == esc_char(s[k])[1]);
            assert(b[pos + 2 + off] == quote_bytes(s)[2 + off]);
            assert(quote_bytes(s)[2 + off] == escape_bytes(s)[off + 1]);
        } else {
            assert(esc_char(s[k]) == seq![s[k]]);
        }
        assert(escape_bytes(seq![s[k]]) == esc_char(s[k])) by {
            assert(seq![s[k]].drop_last().len() == 0);
            assert(escape_bytes(seq![s[k]].drop_last()) == Seq::<u8>::empty());
            assert(seq![s[k]].last() == s[k]);
            assert(escape_bytes(seq![s[k]]) =~= esc_char(s[k]));
        }
    } else {
        assert(s.take(k) =~= s);
        let off = escape_bytes(s).len() as int;
        assert(b[pos + 1 + off] == b.subrange(pos, pos + quoted_len(s))[1 + off]);
        assert(quote_bytes(s)[1 + off] == 34);
    }
}

/// Consumes a quoted string with escapes. Whatever it returns, the
/// consumed bytes are exactly the returned string's quoted encoding; and
/// wherever some string's quoted encoding stands, it succeeds and
/// returns exactly that string.
pub fn parse_quoted(bytes: &Vec<u8>, pos: usize) -> (r: Option<(Vec<u8>, usize)>)
    ensures
        r matches Some((s, p)) ==> pos < p <= bytes@.len() && bytes@.subrange(pos as int, p as int)
            == quote_bytes(s@),
        forall|s: Seq<u8>| #[trigger] str_encoded_at(bytes@, pos as int, s) ==> (r matches Some(x)
            && x.0@ == s && x.1 == pos + quoted_len(s)),
{
    let n = bytes.len();
    if pos >= n || bytes[pos] != 34 {
        proof {
            assert forall|s: Seq<u8>| !str_encoded_at(bytes@, pos as int, s) by {
                if str_encoded_at(bytes@, pos as int, s) {
                    lemma_quoted_byte(bytes@, pos as int, s, 0);
                }
            }
        }
        return None;
    }
    let mut acc: Vec<u8> = Vec::new();
    let mut i: usize = pos + 1;
    proof {
        assert forall|s: Seq<u8>| #[trigger] str_encoded_at(bytes@, pos as int, s)
            implies acc@ == s.take(acc@.len() as int) && i == pos + 1 + escape_bytes(
            s.take(acc@.len() as int),
        ).len() by {
            assert(acc@ =~= s.take(0));
            assert(escape_bytes(s.take(0)).len() == 0) by {
                assert(s.take(0).len() == 0);
            }
        }
    }
    while i < n
        invariant
            n == bytes@.len(),
            pos + 1 <= i <= n,
            bytes@[pos as int] == 34,
            bytes@.subrange(pos + 1, i as int) =~= escape_bytes(acc@),
            forall|s: Seq<u8>| #[trigger] str_encoded_at(bytes@, pos as int, s) ==> (acc@.len()
                <= s.len() && acc@ == s.take(acc@.len() as int) && i == pos + 1 + escape_bytes(
                s.take(acc@.len() as int),
            ).len()),
        decreases n - i,
    {
        let b = bytes[i];
        if b == 34 {
            proof {
                assert(bytes@.subrange(pos as int, i + 1) =~= seq![34u8] + bytes@.subrange(
                    pos + 1,
                    i as int,
                ) + seq![34u8]);
                assert(bytes@.subrange(pos as int, i + 1) =~= quote_bytes(acc@));
                assert forall|s: Seq<u8>| #[trigger] str_encoded_at(bytes@, pos as int, s)
                    implies acc@ == s && i + 1 == pos + quoted_len(s) by {
                    let k = acc@.len() as int;
                    lemma_quoted_byte(bytes@, pos as int, s, k);
                    if k < s.len() {
                        assert(bytes@[i as int] != 34);
                        assert(false);
                    }
                    assert(acc@ =~= s);
                }
            }
            return Some((acc, i + 1));
        }
        if b == 92 {
            proof {
                assert forall|s: Seq<u8>| #[trigger] str_encoded_at(bytes@, pos as int, s)
                    implies acc@.len() < s.len() && (s[acc@.len() as int] == 34 || s[acc@.len()
                    as int] == 92) && i + 2 <= n by {
                    let k = acc@.len() as int;
                    lemma_quoted_byte(bytes@, pos as int, s, k);
                    if k == s.len() {
                        assert(bytes@[i as int] == 34);
                        assert(false);
                    }
                    if !(s[k] == 34 || s[k] == 92) {
                        assert(bytes@[i as int] == s[k]);
                        assert(false);
                    }
                    assert(escape_bytes(s.take(k)).len() + 2 <= escape_bytes(s).len());
                    assert(pos + 1 + escape_bytes(s).len() + 1 <= bytes@.len());
                }
            }
            if n - i < 2 {
                proof {
                    assert forall|s: Seq<u8>| !str_encoded_at(bytes@, pos as int, s) by {
                        if str_encoded_at(bytes@, pos as int, s) {
                            assert(i + 2 <= n);
                        }
                    }
                }
                return None;
            }
            let c = bytes[i + 1];
            if c != 34 && c != 92 {
                proof {
                    assert forall|s: Seq<u8>| !str_encoded_at(bytes@, pos as int, s) by {
                        if str_encoded_at(bytes@, pos as int, s) {
                            let k = acc@.len() as int;
                            lemma_quoted_byte(bytes@, pos as int, s, k);
                            assert(bytes@[i + 1] == s[k]);
                        }
                    }
                }
                return None;
            }
            let ghost acc0 = acc@;
            acc.push(c);
            proof {
                assert(acc@.drop_last() =~= acc0);
                assert(acc@.last() == c);
                assert(escape_bytes(acc@) == escape_bytes(acc0) + esc_char(c));
                assert(esc_char(c) == seq![92u8, c]);
                assert(bytes@.subrange(pos + 1, i + 2) =~= bytes@.subrange(pos + 1, i as int)
                    + seq![92u8, c]);
                assert(bytes@.subrange(pos + 1, i + 2) =~= escape_bytes(acc@));
                assert forall|s: Seq<u8>| #[trigger] str_encoded_at(bytes@, pos as int, s)
                    implies acc@.len() <= s.len() && acc@ == s.take(acc@.len() as int) && i + 2
                    == pos + 1 + escape_bytes(s.take(acc@.len() as int)).len() by {
                    let k = acc0.len() as int;
                    lemma_quoted_byte(bytes@, pos as int, s, k);
                    assert(bytes@[i + 1] == s[k]);
                    assert(c == s[k]);
                    assert(s.take(k + 1) =~= s.take(k).push(s[k]));
                    assert(acc@ =~= s.take(k + 1));
                }
            }
            i += 2;
        } else {
            let ghost acc0 = acc@;
            acc.push(b);
            proof {
                assert(acc@.drop_last() =~= acc0);
                assert(acc@.last() == b);
                assert(escape_bytes(acc@) == escape_bytes(acc0) + esc_char(b));
                assert(esc_char(b) == seq![b]);
                assert(bytes@.subrange(pos + 1, i + 1) =~= bytes@.subrange(pos + 1, i as int)
                    + seq![b]);
                assert(bytes@.subrange(pos + 1, i + 1) =~= escape_bytes(acc@));
                assert forall|s: Seq<u8>| #[trigger] str_encoded_at(bytes@, pos as int, s)
                    implies acc@.len() <= s.len() && acc@ == s.take(acc@.len() as int) && i + 1
                    == pos + 1 + escape_bytes(s.take(acc@.len() as int)).len() by {
                    let k = acc0.len() as int;
                    lemma_quoted_byte(bytes@, pos as int, s, k);
                    if k == s.len() {
                        assert(bytes@[i as int] == 34);
                        assert(false);
                    }
                    if s[k] == 34 || s[k] == 92 {
                        assert(bytes@[i as int] == 92);
                        assert(false);
                    }
                    assert(bytes@[i as int] == s[k]);
                    assert(b == s[k]);
                    assert(s.take(k + 1) =~= s.take(k).push(s[k]));
                    assert(acc@ =~= s.take(k + 1));
                }
            }
            i += 1;
        }
    }
    proof {
        assert forall|s: Seq<u8>| !str_encoded_at(bytes@, pos as int, s) by {
            if str_encoded_at(bytes@, pos as int, s) {
                let k = acc@.len() as int;
                lemma_quoted_byte(bytes@, pos as int, s, k);
                if k < s.len() {
                    assert(escape_bytes(s.take(k)).len() + 1 <= escape_bytes(s).len());
                    assert(i < n);
                } else {
                    assert(i == pos + 1 + escape_bytes(s).len());
                    assert(i < n);
                }
                assert(false);
            }
        }
    }
    None
}

/// Consumes an unsigned decimal that fits a byte. Whatever it returns,
/// the consumed bytes are that value's shortest decimal digits; and
/// wherever such digits stand with no digit directly after them, it
/// succeeds and returns exactly that value.
pub fn parse_u8(bytes: &Vec<u8>, pos: usize) -> (r: Option<(u8, usize)>)
    ensures
        r matches Some((v, p)) ==> pos < p <= bytes@.len() && bytes@.subrange(pos as int, p as int)
            == dec_bytes(v as nat),
        forall|v: u8| #[trigger] dec_encoded_at(bytes@, pos as int, v) ==> (r matches Some(x)
            && x.0 == v && x.1 == pos + dec_bytes(v as nat).len()),
{
    let n = bytes.len();
    if pos >= n {
        proof {
            assert forall|v: u8| !dec_encoded_at(bytes@, pos as int, v) by {
                lemma_dec_digits(v as nat);
            }
        }
        return None;
    }
    let d0 = bytes[pos];
    if d0 < 48 || d0 > 57 {
        proof {
            assert forall|v: u8| !dec_encoded_at(bytes@, pos as int, v) by {
                if dec_encoded_at(bytes@, pos as int, v) {
                    lemma_dec_digits(v as nat);
                    assert(bytes@[pos as int] == dec_bytes(v as nat)[0]);
                }
            }
        }
        return None;
    }
    if d0 == 48 {
        assert(bytes@.subrange(pos as int, pos + 1) =~= dec_bytes(0));
        proof {
            assert forall|v: u8| #[trigger] dec_encoded_at(bytes@, pos as int, v) implies v == 0
                && dec_bytes(v as nat).len() == 1 by {
                lemma_dec_digits(v as nat);
                assert(bytes@[pos as int] == dec_bytes(v as nat)[0]);
            }
        }
        return Some((0, pos + 1));
    }
    let mut value: u32 = (d0 - 48) as u32;
    let mut i: usize = pos + 1;
    assert(bytes@.subrange(pos as int, pos + 1) =~= dec_bytes(value as nat));
    proof {
        assert forall|v: u8| #[trigger] dec_encoded_at(bytes@, pos as int, v) implies i - pos
            <= dec_bytes(v as nat).len() && dec_bytes(value as nat) == dec_bytes(
            v as nat,
        ).take(i - pos) by {
            lemma_dec_digits(v as nat);
            assert(bytes@[pos as int] == dec_bytes(v as nat)[0]);
            assert(dec_bytes(v as nat).take(1) =~= seq![dec_bytes(v as nat)[0]]);
            assert(dec_bytes(value as nat) =~= dec_bytes(v as nat).take(1));
        }
    }
    while i < n && bytes[i] >= 48 && bytes[i] <= 57
        invariant
            n == bytes@.len(),
            pos < i <= n,
            1 <= value <= 255,
            bytes@.subrange(pos as int, i as int) =~= dec_bytes(value as nat),
            forall|v: u8| #[trigger] dec_encoded_at(bytes@, pos as int, v) ==> (i - pos
                <= dec_bytes(v as nat).len() && dec_bytes(value as nat) == dec_bytes(
                v as nat,
            ).take(i - pos)),
        decreases n - i,
    {
        let d = (bytes[i] - 48) as u32;
        proof {
            lemma_dec_step(value as nat, d as nat);
            assert forall|v: u8| #[trigger] dec_encoded_at(bytes@, pos as int, v) implies i - pos
                < dec_bytes(v as nat).len() && value * 10 + d <= v by {
                lemma_dec_digits(v as nat);
                let dl = dec_bytes(v as nat).len() as int;
                if i - pos == dl {
                    assert(!is_digit_byte(bytes@[i as int]) || pos + dl == n);
                    assert(false);
                }
                assert(bytes@[i as int] == dec_bytes(v as nat)[i - pos]);
                assert(dec_bytes(v as nat).take(i - pos + 1) =~= dec_bytes(v as nat).take(i - pos)
                    + seq![dec_bytes(v as nat)[i - pos]]);
                assert((48 + d as nat) as u8 == bytes@[i as int]);
                assert(dec_bytes((value * 10 + d) as nat) == dec_bytes(v as nat).take(
                    i - pos + 1,
                ));
                lemma_dec_prefix_le((value * 10 + d) as nat, v as nat, i - pos + 1);
            }
        }
        if value > 25 || (value == 25 && d > 5) {
            proof {
                assert forall|v: u8| !dec_encoded_at(bytes@, pos as int, v) by {
                    if dec_encoded_at(bytes@, pos as int, v) {
                        assert(value * 10 + d <= v <= 255);
                        assert(false);
                    }
                }
            }
            return None;
        }
        proof {
            assert(bytes@.subrange(pos as int, i + 1) =~= bytes@.subrange(pos as int, i as int)
                + seq![bytes@[i as int]]);
            assert((48 + d as nat) as u8 == bytes@[i as int]);
        }
        value = value * 10 + d;
        i += 1;
    }
    proof {
        assert forall|v: u8| #[trigger] dec_encoded_at(bytes@, pos as int, v) implies value
            == v as nat && i == pos + dec_bytes(v as nat).len() by {
            lemma_dec_digits(v as nat);
            let dl = dec_bytes(v as nat).len() as int;
            if i - pos < dl {
                assert(bytes@[i as int] == dec_bytes(v as nat)[i - pos]);
                assert(is_digit_byte(bytes@[i as int]));
                assert(i < n);
                assert(false);
            }
            assert(dec_bytes(v as nat).take(dl) =~= dec_bytes(v as nat));
            lemma_dec_injective(value as nat, v as nat);
        }
    }
    Some((value as u8, i))
}

/// Consumes a comma-separated decimal byte list, without its brackets.
/// Whatever it returns, the consumed bytes are that list's encoding; and
/// wherever a list's encoding stands with its closing bracket (or the
/// input's end) directly after it, it succeeds and returns exactly that
/// list.
pub fn parse_u8_list_body(bytes: &Vec<u8>, pos: usize) -> (r: Option<(Vec<u8>, usize)>)
    ensures
        r matches Some((s, p)) ==> pos <= p <= bytes@.len() && bytes@.subrange(
            pos as int,
            p as int,
        ) == u8_list_body(s@),
        forall|s: Seq<u8>| #[trigger] list_encoded_at(bytes@, pos as int, s) ==> (r matches Some(
            x,
        ) && x.0@ == s && x.1 == pos + u8_list_body(s).len()),
{
    let n = bytes.len();
    let mut acc: Vec<u8> = Vec::new();
    if pos >= n || bytes[pos] == 93 {
        if pos > n {
            proof {
                assert forall|s: Seq<u8>| !list_encoded_at(bytes@, pos as int, s) by {}
            }
            return None;
        }
        assert(bytes@.subrange(pos as int, pos as int) =~= u8_list_body(acc@));
        proof {
            assert forall|s: Seq<u8>| #[trigger] list_encoded_at(bytes@, pos as int, s)
                implies s == Seq::<u8>::empty() && u8_list_body(s).len() == 0 by {
                if s.len() > 0 {
                    lemma_list_parts(bytes@, pos as int, s, 0);
                    lemma_dec_digits(s[0] as nat);
                    assert(bytes@[pos as int] == dec_bytes(s[0] as nat)[0]);
                    assert(is_digit_byte(bytes@[pos as int]));
                    assert(false);
                }
                assert(s =~= Seq::<u8>::empty());
            }
        }
        return Some((acc, pos));
    }
    proof {
        assert forall|s: Seq<u8>| #[trigger] list_encoded_at(bytes@, pos as int, s)
            implies s.len() > 0 && dec_encoded_at(bytes@, pos as int, s[0]) by {
            if s.len() == 0 {
                assert(pos as int == pos + u8_list_body(s).len());
                assert(bytes@[pos as int] == 93 || pos as int == bytes@.len());
                assert(false);
            }
            lemma_list_parts(bytes@, pos as int, s, 0);
        }
    }
    let (v0, mut i) = match parse_u8(bytes, pos) {
        Some(r0) => r0,
        None => {
            proof {
                assert forall|s: Seq<u8>| !list_encoded_at(bytes@, pos as int, s) by {}
            }
            return None;
        },
    };
    acc.push(v0);
    proof {
        assert(acc@ =~= seq![v0]);
        assert(u8_list_body(acc@) == dec_bytes(v0 as nat));
        assert forall|s: Seq<u8>| #[trigger] list_encoded_at(bytes@, pos as int, s)
            implies acc@.len() <= s.len() && acc@ == s.take(acc@.len() as int) && i == pos
            + u8_list_body(s.take(acc@.len() as int)).len() by {
            lemma_list_parts(bytes@, pos as int, s, 0);
            assert(v0 == s[0]);
            assert(acc@ =~= s.take(1));
        }
    }
    while i < n && bytes[i] == 44
        invariant
            n == bytes@.len(),
            pos < i <= n,
            acc@.len() >= 1,
            bytes@.subrange(pos as int, i as int) =~= u8_list_body(acc@),
            forall|s: Seq<u8>| #[trigger] list_encoded_at(bytes@, pos as int, s) ==> (acc@.len()
                <= s.len() && acc@ == s.take(acc@.len() as int) && i == pos + u8_list_body(
                s.take(acc@.len() as int),
            ).len()),
        decreases n - i,
    {
        proof {
            assert forall|s: Seq<u8>| #[trigger] list_encoded_at(bytes@, pos as int, s)
                implies acc@.len() < s.len() && dec_encoded_at(bytes@, i + 1, s[acc@.len() as int])
                by {
                let k = acc@.len() as int;
                if k == s.len() {
                    assert(s.take(k) =~= s);
                    assert(i == pos + u8_list_body(s).len());
                    assert(bytes@[i as int] == 93 || i as int == bytes@.len());
                    assert(false);
                }
                lemma_list_parts(bytes@, pos as int, s, k);
            }
        }
        let (v, j) = match parse_u8(bytes, i + 1) {
            Some(rv) => rv,
            None => {
                proof {
                    assert forall|s: Seq<u8>| !list_encoded_at(bytes@, pos as int, s) by {}
                }
                return None;
            },
        };
        let ghost acc0 = acc@;
        acc.push(v);
        proof {
            assert(acc@.drop_last() =~= acc0);
            assert(acc@.last() == v);
            assert(u8_list_body(acc@) == u8_list_body(acc0) + seq![44u8] + dec_bytes(v as nat));
            assert(bytes@.subrange(pos as int, j as int) =~= bytes@.subrange(pos as int, i as int)
                + seq![44u8] + bytes@.subrange(i + 1, j as int));
            assert(bytes@.subrange(pos as int, j as int) =~= u8_list_body(acc@));
            assert forall|s: Seq<u8>| #[trigger] list_encoded_at(bytes@, pos as int, s)
                implies acc@.len() <= s.len() && acc@ == s.take(acc@.len() as int) && j == pos
                + u8_list_body(s.take(acc@.len() as int)).len() by {
                let k = acc0.len() as int;
                lemma_list_parts(bytes@, pos as int, s, k);
                assert(v == s[k]);
                assert(s.take(k + 1) =~= s.take(k).push(s[k]));
                assert(acc@ =~= s.take(k + 1));
            }
        }
        i = j;
    }
    proof {
        assert forall|s: Seq<u8>| #[trigger] list_encoded_at(bytes@, pos as int, s) implies acc@
            == s && i == pos + u8_list_body(s).len() by {
            let k = acc@.len() as int;
            if k < s.len() {
                lemma_list_parts(bytes@, pos as int, s, k);
                let ip = pos + u8_list_body(s.take(k)).len();
                assert(bytes@[ip] == 44);
                assert(ip + 1 <= bytes@.len());
                assert(false);
            }
            assert(acc@ =~= s);
        }
    }
    Some((acc, i))
}

} // verus!
