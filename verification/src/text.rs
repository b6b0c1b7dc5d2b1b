//! Text on the wire: the bytes of a piece of text and the decimal form of
//! a number.

use vstd::prelude::*;
use vstd::utf8::encode_scalar;
use vstd::utf8::encode_utf8;

verus! {

/// The bytes that stand for `text` on the wire.
pub open spec fn bytes_of(text: Seq<char>) -> Seq<u8> {
    encode_utf8(text)
}

/// The ASCII digit for `d`, which is below ten.
pub open spec fn digit(d: nat) -> u8 {
    (48 + d) as u8
}

/// `n` in decimal, most significant digit first, without leading zeros.
pub open spec fn decimal(n: nat) -> Seq<u8>
    decreases n,
{
    if n < 10 {
        seq![digit(n)]
    } else {
        decimal(n / 10).push(digit(n % 10))
    }
}

/// Appends the bytes of `text` to `out`.
pub fn push_text(out: &mut Vec<u8>, text: &str)
    ensures
        final(out)@ == old(out)@ + bytes_of(text@),
{
    push_bytes(out, text.as_bytes());
}

/// Appends `bytes` to `out`.
pub fn push_bytes(out: &mut Vec<u8>, bytes: &[u8])
    ensures
        final(out)@ == old(out)@ + bytes@,
{
    let ghost before = out@;
    let mut i: usize = 0;
    while i < bytes.len()
        invariant
            i <= bytes.len(),
            out@ == before + bytes@.take(i as int),
        decreases bytes.len() - i,
    {
        out.push(bytes[i]);
        i += 1;
        proof {
            assert(bytes@.take(i as int) == bytes@.take(i - 1).push(bytes@[i - 1]));
        }
    }
    assert(bytes@.take(bytes.len() as int) == bytes@);
}

/// Appends the decimal form of `n` to `out`.
pub fn push_decimal(out: &mut Vec<u8>, n: u64)
    ensures
        final(out)@ == old(out)@ + decimal(n as nat),
{
    let ghost before = out@;
    let mut digits: Vec<u8> = Vec::new();
    let mut rest: u64 = n;
    while rest >= 10
        invariant
            decimal(n as nat) == decimal(rest as nat) + digits@.reverse(),
        decreases rest,
    {
        let d: u8 = (rest % 10) as u8;
        proof {
            let low = digit((rest % 10) as nat);
            assert(decimal(rest as nat) == decimal((rest / 10) as nat).push(low));
            assert(digits@.push(low).reverse() == seq![low] + digits@.reverse());
            assert(decimal((rest / 10) as nat).push(low) + digits@.reverse()
                == decimal((rest / 10) as nat) + (seq![low] + digits@.reverse()));
        }
        digits.push(48 + d);
        rest = rest / 10;
    }
    out.push(48 + (rest as u8));
    let mut i: usize = digits.len();
    while i > 0
        invariant
            i <= digits@.len(),
            out@ == before + decimal(rest as nat) + digits@.reverse().take(digits@.len() - i),
        decreases i,
    {
        i -= 1;
        out.push(digits[i]);
        proof {
            let r = digits@.reverse();
            let k = digits@.len() - i;
            assert(r.take(k) == r.take(k - 1).push(r[k - 1]));
        }
    }
    assert(digits@.reverse().take(digits@.len() as int) == digits@.reverse());
}

/// The byte that ends a line.
pub const LINE_BREAK: u8 = 10;

/// How many line breaks `bytes` hold.
pub open spec fn line_breaks(bytes: Seq<u8>) -> nat
    decreases bytes.len(),
{
    if bytes.len() == 0 {
        0
    } else if bytes.last() == LINE_BREAK {
        line_breaks(bytes.drop_last()) + 1
    } else {
        line_breaks(bytes.drop_last())
    }
}

/// Whether `text` holds no line break.
pub open spec fn on_one_line(text: Seq<char>) -> bool {
    forall|i: int| 0 <= i < text.len() ==> text[i] != '\n'
}

/// The line breaks of two pieces add up.
pub proof fn lemma_line_breaks_add(first: Seq<u8>, second: Seq<u8>)
    ensures
        line_breaks(first + second) == line_breaks(first) + line_breaks(second),
    decreases second.len(),
{
    if second.len() == 0 {
        assert(first + second == first);
    } else {
        assert((first + second).drop_last() == first + second.drop_last());
        lemma_line_breaks_add(first, second.drop_last());
    }
}

/// Bytes none of which is a line break hold none.
pub proof fn lemma_no_line_breaks(bytes: Seq<u8>)
    requires
        forall|i: int| 0 <= i < bytes.len() ==> bytes[i] != LINE_BREAK,
    ensures
        line_breaks(bytes) == 0,
    decreases bytes.len(),
{
    if bytes.len() > 0 {
        lemma_no_line_breaks(bytes.drop_last());
    }
}

/// A number in decimal holds no line break.
pub proof fn lemma_decimal_on_one_line(n: nat)
    ensures
        line_breaks(decimal(n)) == 0,
        decimal(n).len() > 0,
    decreases n,
{
    if n < 10 {
        assert(decimal(n).drop_last() == Seq::<u8>::empty());
        assert(line_breaks(Seq::<u8>::empty()) == 0);
        assert(decimal(n).last() == digit(n));
    } else {
        lemma_decimal_on_one_line(n / 10);
        assert(decimal(n).drop_last() == decimal(n / 10));
        assert(decimal(n).last() == digit(n % 10));
    }
}

proof fn lemma_scalar_on_one_line(c: char)
    requires
        c != '\n',
    ensures
        line_breaks(encode_scalar(c as u32)) == 0,
{
    let s = c as u32;
    assert(s <= 0x7F && s != 10 ==> (s & 0x7F) as u8 != 10u8) by (bit_vector);
    assert(0xC0u8 | ((s >> 6) & 0x1F) as u8 != 10u8) by (bit_vector);
    assert(0xE0u8 | ((s >> 12) & 0x0F) as u8 != 10u8) by (bit_vector);
    assert(0xF0u8 | ((s >> 18) & 0x7) as u8 != 10u8) by (bit_vector);
    assert(0x80u8 | (s & 0x3F) as u8 != 10u8) by (bit_vector);
    assert(0x80u8 | ((s >> 6) & 0x3F) as u8 != 10u8) by (bit_vector);
    assert(0x80u8 | ((s >> 12) & 0x3F) as u8 != 10u8) by (bit_vector);
    lemma_no_line_breaks(encode_scalar(s));
}

/// Text without a line break has none in its bytes.
pub proof fn lemma_text_on_one_line(text: Seq<char>)
    requires
        on_one_line(text),
    ensures
        line_breaks(bytes_of(text)) == 0,
    decreases text.len(),
{
    if text.len() == 0 {
    } else {
        lemma_scalar_on_one_line(text[0]);
        lemma_text_on_one_line(text.drop_first());
        lemma_line_breaks_add(encode_scalar(text[0] as u32), encode_utf8(text.drop_first()));
    }
}

} // verus!
