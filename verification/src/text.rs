//! Facts about the UTF-8 encoding of text and about decimal numerals, used by
//! the identifiers and parsers of this crate.
use vstd::prelude::*;
use vstd::string::StringSliceAdditionalSpecFns;
use vstd::utf8::*;

verus! {

/// The number of bytes `s` takes once encoded as UTF-8 (what `str::len` gives).
pub open spec fn utf8_len(s: Seq<char>) -> nat {
    encode_utf8(s).len()
}

/// The ASCII digit for `d` (expected below 10).
pub open spec fn digit_char(d: nat) -> char {
    (d + 48) as char
}

/// The decimal numeral of `n`, without leading zeros.
pub open spec fn decimal(n: nat) -> Seq<char>
    decreases n,
{
    if n < 10 {
        seq![digit_char(n)]
    } else {
        decimal(n / 10).push(digit_char(n % 10))
    }
}

/// The number written by a sequence of ASCII digit bytes.
pub open spec fn digits_value(b: Seq<u8>) -> nat
    decreases b.len(),
{
    if b.len() == 0 {
        0
    } else {
        digits_value(b.drop_last()) * 10 + (b.last() - 48) as nat
    }
}

/// The byte is an ASCII digit.
pub open spec fn is_digit_byte(b: u8) -> bool {
    48 <= b <= 57
}

pub proof fn lemma_encode_utf8_concat(a: Seq<char>, b: Seq<char>)
    ensures
        encode_utf8(a + b) == encode_utf8(a) + encode_utf8(b),
    decreases a.len(),
{
    if a.len() == 0 {
        assert(a + b =~= b);
        assert(encode_utf8(a) + encode_utf8(b) =~= encode_utf8(b));
    } else {
        assert((a + b).drop_first() =~= a.drop_first() + b);
        assert((a + b)[0] == a[0]);
        lemma_encode_utf8_concat(a.drop_first(), b);
        assert(encode_utf8(a + b) =~= encode_utf8(a) + encode_utf8(b));
    }
}

pub proof fn lemma_encode_utf8_ascii_char(c: char)
    requires
        c <= '\u{7f}',
    ensures
        encode_utf8(seq![c]) == seq![c as u8],
{
    assert(is_ascii_chars(seq![c]));
    is_ascii_chars_encode_utf8(seq![c]);
    assert(encode_utf8(seq![c])[0] == seq![c][0] as u8);
    assert(encode_utf8(seq![c]) =~= seq![c as u8]);
}

pub proof fn lemma_encode_utf8_len_at_least(a: Seq<char>)
    ensures
        encode_utf8(a).len() >= a.len(),
    decreases a.len(),
{
    if a.len() > 0 {
        lemma_encode_utf8_len_at_least(a.drop_first());
    }
}

/// The encoding determines the text.
pub proof fn lemma_encode_utf8_injective(x: Seq<char>, y: Seq<char>)
    requires
        encode_utf8(x) == encode_utf8(y),
    ensures
        x == y,
{
    encode_utf8_decode_utf8(x);
    encode_utf8_decode_utf8(y);
}

/// The end of the encoding of a prefix is a character boundary.
pub proof fn lemma_char_boundary_after(a: Seq<char>, b: Seq<char>)
    ensures
        valid_utf8(encode_utf8(a + b)),
        is_char_boundary(encode_utf8(a + b), encode_utf8(a).len() as int),
    decreases a.len(),
{
    encode_utf8_valid_utf8(a + b);
    if a.len() > 0 {
        let ab = a + b;
        encode_utf8_first_scalar(ab);
        assert(ab.drop_first() =~= a.drop_first() + b);
        assert(pop_first_scalar(encode_utf8(ab)) =~= encode_utf8(ab.drop_first()));
        lemma_char_boundary_after(a.drop_first(), b);
        assert(ab[0] == a[0]);
        lemma_encode_utf8_len_at_least(a);
    }
}

pub proof fn lemma_decimal_digits(n: nat)
    ensures
        decimal(n).len() >= 1,
        forall|i: int| 0 <= i < decimal(n).len() ==> '0' <= #[trigger] decimal(n)[i] <= '9',
    decreases n,
{
    if n >= 10 {
        lemma_decimal_digits(n / 10);
    }
}

/// The bytes of a decimal numeral are its ASCII digits and read back as its value.
pub proof fn lemma_decimal_bytes(n: nat)
    ensures
        encode_utf8(decimal(n)).len() == decimal(n).len(),
        forall|i: int|
            0 <= i < decimal(n).len() ==> #[trigger] encode_utf8(decimal(n))[i] == decimal(n)[i] as u8
                && is_digit_byte(encode_utf8(decimal(n))[i]),
        digits_value(encode_utf8(decimal(n))) == n,
    decreases n,
{
    lemma_decimal_digits(n);
    let d = digit_char(n % 10);
    assert((n % 10 + 48) as char <= '\u{7f}');
    assert((d as u8) as nat == n % 10 + 48);
    lemma_encode_utf8_ascii_char(d);
    if n < 10 {
        assert(decimal(n) == seq![d]);
        let b = encode_utf8(decimal(n));
        assert(b =~= seq![d as u8]);
        assert(b.drop_last() =~= Seq::<u8>::empty());
        assert(b.last() == d as u8);
        assert(digits_value(b) == digits_value(b.drop_last()) * 10 + (b.last() - 48) as nat);
    } else {
        lemma_decimal_bytes(n / 10);
        lemma_encode_utf8_concat(decimal(n / 10), seq![d]);
        assert(decimal(n) =~= decimal(n / 10) + seq![d]);
        let b = encode_utf8(decimal(n));
        assert(b =~= encode_utf8(decimal(n / 10)) + seq![d as u8]);
        assert(b.drop_last() =~= encode_utf8(decimal(n / 10)));
        assert(b.last() == d as u8);
        assert(digits_value(b) == digits_value(b.drop_last()) * 10 + (b.last() - 48) as nat);
        assert(n == (n / 10) * 10 + n % 10);
    }
}

/// Different numbers have different numerals.
pub proof fn lemma_decimal_injective(m: nat, n: nat)
    requires
        decimal(m) == decimal(n),
    ensures
        m == n,
{
    lemma_decimal_bytes(m);
    lemma_decimal_bytes(n);
}

/// A numeral is worth at least any of its prefixes.
pub proof fn lemma_digits_value_prefix(b: Seq<u8>, k: int, m: int)
    requires
        0 <= k <= m <= b.len(),
        forall|j: int| 0 <= j < b.len() ==> #[trigger] is_digit_byte(b[j]),
    ensures
        digits_value(b.take(k)) <= digits_value(b.take(m)),
    decreases m - k,
{
    if k < m {
        lemma_digits_value_prefix(b, k, m - 1);
        assert(b.take(m).drop_last() =~= b.take(m - 1));
        assert(is_digit_byte(b[m - 1]));
    }
}

/// Whether the two texts are the same.
pub fn str_eq(a: &str, b: &str) -> (r: bool)
    ensures
        r == (a@ == b@),
{
    let ab = a.as_bytes();
    let bb = b.as_bytes();
    if ab.len() != bb.len() {
        return false;
    }
    let mut i: usize = 0;
    while i < ab.len()
        invariant
            ab@ == encode_utf8(a@),
            bb@ == encode_utf8(b@),
            ab@.len() == bb@.len(),
            i <= ab@.len(),
            forall|j: int| 0 <= j < i ==> ab@[j] == bb@[j],
        decreases ab@.len() - i,
    {
        if ab[i] != bb[i] {
            return false;
        }
        i += 1;
    }
    proof {
        assert(ab@ =~= bb@);
        lemma_encode_utf8_injective(a@, b@);
    }
    true
}

/// Where one valid UTF-8 text is extended by more bytes into another valid text,
/// the end of the first is a character boundary of the second.
pub proof fn lemma_char_boundary_at_valid_prefix(a: Seq<u8>, r: Seq<u8>)
    requires
        valid_utf8(a),
        valid_utf8(a + r),
    ensures
        is_char_boundary(a + r, a.len() as int),
    decreases a.len(),
{
    if a.len() > 0 {
        let b = a + r;
        assert(b[0] == a[0]);
        let n = length_of_first_scalar(a);
        assert(length_of_first_scalar(b) == n);
        assert(n <= a.len());
        assert(pop_first_scalar(b) =~= pop_first_scalar(a) + r);
        lemma_char_boundary_at_valid_prefix(pop_first_scalar(a), r);
        assert(pop_first_scalar(a).len() == a.len() - n);
    }
}

} // verus!
