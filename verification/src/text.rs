//! Text over `Seq<char>`: decimal numbers, padding, concatenation, slicing
//! and the small string algorithms that the screens share.

use vstd::prelude::*;
use vstd::utf8::*;

verus! {

broadcast use vstd::string::group_string_axioms;

/// `String::push`: the character becomes the last one of the string.
pub assume_specification[ String::push ](s: &mut String, ch: char)
    ensures
        final(s)@ == old(s)@.push(ch),
;

/// Unicode's `White_Space` property.
pub open spec fn white(c: char) -> bool {
    ||| 0x9 <= c as u32 <= 0xd
    ||| c as u32 == 0x20
    ||| c as u32 == 0x85
    ||| c as u32 == 0xa0
    ||| c as u32 == 0x1680
    ||| 0x2000 <= c as u32 <= 0x200a
    ||| c as u32 == 0x2028
    ||| c as u32 == 0x2029
    ||| c as u32 == 0x202f
    ||| c as u32 == 0x205f
    ||| c as u32 == 0x3000
}

/// `char::is_whitespace`: whether the character has Unicode's `White_Space`
/// property.
pub assume_specification[ char::is_whitespace ](c: char) -> (b: bool)
    ensures
        b == white(c),
;

// ---------------------------------------------------------------------------
// Lengths and numbers
// ---------------------------------------------------------------------------

/// `a - b`, or 0 where that is negative.
pub open spec fn minus(a: int, b: int) -> int {
    if a >= b {
        a - b
    } else {
        0
    }
}

pub open spec fn at_most(a: int, b: int) -> int {
    if a <= b {
        a
    } else {
        b
    }
}

pub open spec fn at_least(a: int, b: int) -> int {
    if a >= b {
        a
    } else {
        b
    }
}

/// The number of bytes of `s` in UTF-8, as `str::len` counts them.
pub open spec fn byte_len(s: Seq<char>) -> usize {
    encode_utf8(s).len() as usize
}

/// A character takes at most four bytes.
pub proof fn lemma_byte_len(s: Seq<char>)
    ensures
        encode_utf8(s).len() <= 4 * s.len(),
    decreases s.len(),
{
    if s.len() > 0 {
        lemma_byte_len(s.drop_first());
    }
}

/// `n` times the character `c`.
pub open spec fn fill(c: char, n: int) -> Seq<char> {
    Seq::new(at_least(n, 0) as nat, |i: int| c)
}

/// The decimal digit `d`.
pub open spec fn digit(d: int) -> char {
    (48 + d) as char
}

/// The decimal digits of `n`, most significant first, without leading zeros.
pub open spec fn dec(n: nat) -> Seq<char>
    decreases n,
{
    if n < 10 {
        seq![digit(n as int)]
    } else {
        dec(n / 10).push(digit((n % 10) as int))
    }
}

/// An integer in decimal, with a minus sign where it is negative.
pub open spec fn dec_int(n: int) -> Seq<char> {
    if n < 0 {
        "-"@ + dec((-n) as nat)
    } else {
        dec(n as nat)
    }
}

/// `s`, with blanks behind it up to `w` characters.
pub open spec fn left(s: Seq<char>, w: int) -> Seq<char> {
    s + fill(' ', w - s.len())
}

/// `s`, with blanks before it up to `w` characters.
pub open spec fn right(s: Seq<char>, w: int) -> Seq<char> {
    fill(' ', w - s.len()) + s
}

/// A plural "s" where `n` is not 1.
pub open spec fn plural(n: int) -> Seq<char> {
    if n == 1 {
        Seq::empty()
    } else {
        "s"@
    }
}

pub fn text_fill(c: char, n: usize) -> (s: String)
    ensures
        s@ == fill(c, n as int),
{
    let mut s = String::new();
    let mut i: usize = 0;
    while i < n
        invariant
            i <= n,
            s@ == fill(c, i as int),
        decreases n - i,
    {
        s.push(c);
        i += 1;
        assert(s@ =~= fill(c, i as int));
    }
    s
}

fn text_digit(d: u64) -> (c: char)
    requires
        d < 10,
    ensures
        c == digit(d as int),
{
    (48u8 + d as u8) as char
}

pub fn text_dec(n: u64) -> (s: String)
    ensures
        s@ == dec(n as nat),
    decreases n,
{
    if n < 10 {
        let mut s = String::new();
        s.push(text_digit(n));
        s
    } else {
        let mut s = text_dec(n / 10);
        s.push(text_digit(n % 10));
        s
    }
}

/// The decimal digits of a number of 128 bits.
pub fn text_dec_wide(n: u128) -> (s: String)
    ensures
        s@ == dec(n as nat),
    decreases n,
{
    if n < 10 {
        text_dec(n as u64)
    } else {
        let mut s = text_dec_wide(n / 10);
        s.push(text_digit((n % 10) as u64));
        s
    }
}

pub fn text_count(n: usize) -> (s: String)
    ensures
        s@ == dec(n as nat),
{
    text_dec(n as u64)
}

pub fn text_int(n: i64) -> (s: String)
    ensures
        s@ == dec_int(n as int),
{
    if n < 0 {
        let m: u64 = (0i128 - n as i128) as u64;
        cat2("-", &text_dec(m))
    } else {
        text_dec(n as u64)
    }
}

pub fn cat2(a: &str, b: &str) -> (s: String)
    ensures
        s@ == a@ + b@,
{
    let mut s = a.to_owned();
    s.append(b);
    s
}

pub fn cat3(a: &str, b: &str, c: &str) -> (s: String)
    ensures
        s@ == a@ + b@ + c@,
{
    let mut s = cat2(a, b);
    s.append(c);
    s
}

pub fn cat4(a: &str, b: &str, c: &str, d: &str) -> (s: String)
    ensures
        s@ == a@ + b@ + c@ + d@,
{
    let mut s = cat3(a, b, c);
    s.append(d);
    s
}

pub fn cat5(a: &str, b: &str, c: &str, d: &str, e: &str) -> (s: String)
    ensures
        s@ == a@ + b@ + c@ + d@ + e@,
{
    let mut s = cat4(a, b, c, d);
    s.append(e);
    s
}

pub fn cat6(a: &str, b: &str, c: &str, d: &str, e: &str, f: &str) -> (s: String)
    ensures
        s@ == a@ + b@ + c@ + d@ + e@ + f@,
{
    let mut s = cat5(a, b, c, d, e);
    s.append(f);
    s
}

pub fn cat7(a: &str, b: &str, c: &str, d: &str, e: &str, f: &str, g: &str) -> (s: String)
    ensures
        s@ == a@ + b@ + c@ + d@ + e@ + f@ + g@,
{
    let mut s = cat6(a, b, c, d, e, f);
    s.append(g);
    s
}

pub fn text_left(s: &str, w: usize) -> (r: String)
    ensures
        r@ == left(s@, w as int),
{
    let n: usize = s.unicode_len();
    if n < w {
        cat2(s, &text_fill(' ', w - n))
    } else {
        let r = s.to_owned();
        assert(r@ =~= left(s@, w as int));
        r
    }
}

pub fn text_right(s: &str, w: usize) -> (r: String)
    ensures
        r@ == right(s@, w as int),
{
    let n: usize = s.unicode_len();
    if n < w {
        cat2(&text_fill(' ', w - n), s)
    } else {
        let r = s.to_owned();
        assert(r@ =~= right(s@, w as int));
        r
    }
}

pub fn text_plural(n: usize) -> (r: String)
    ensures
        r@ == plural(n as int),
{
    if n == 1 {
        String::new()
    } else {
        "s".to_owned()
    }
}

/// Whether two texts are the same.
pub fn same(a: &str, b: &str) -> (r: bool)
    ensures
        r == (a@ == b@),
{
    let x = a.to_owned();
    let y = b.to_owned();
    x == y
}

// ---------------------------------------------------------------------------
// Characters
// ---------------------------------------------------------------------------

pub fn chars_of(s: &str) -> (v: Vec<char>)
    ensures
        v@ == s@,
{
    let mut v: Vec<char> = Vec::new();
    for c in it: s.chars()
        invariant
            v@ =~= it.seq().take(it.index()),
            it.seq() == s@,
    {
        v.push(c);
    }
    assert(s@.take(s@.len() as int) =~= s@);
    v
}

/// The characters from index `from` up to `to`, as a string.
pub fn slice_of(v: &Vec<char>, from: usize, to: usize) -> (s: String)
    requires
        from <= to <= v@.len(),
    ensures
        s@ == v@.subrange(from as int, to as int),
{
    let mut s = String::new();
    let mut i: usize = from;
    while i < to
        invariant
            from <= i <= to <= v@.len(),
            s@ == v@.subrange(from as int, i as int),
        decreases to - i,
    {
        s.push(v[i]);
        i += 1;
        assert(s@ =~= v@.subrange(from as int, i as int));
    }
    s
}

// ---------------------------------------------------------------------------
// Bytes
// ---------------------------------------------------------------------------

/// The first `n` bytes of `s` in UTF-8 end with a character.
pub open spec fn cuts(s: Seq<char>, n: int) -> bool {
    is_char_boundary(encode_utf8(s), n)
}

/// The characters in the first `n` bytes of `s` in UTF-8.
pub open spec fn front(s: Seq<char>, n: int) -> Seq<char> {
    decode_utf8(encode_utf8(s).subrange(0, n))
}

/// The first `n` bytes are a beginning of the text, and take `n` bytes.
pub proof fn front_is_a_beginning(s: Seq<char>, n: int)
    requires
        cuts(s, n),
    ensures
        front(s, n).is_prefix_of(s),
        0 <= n <= encode_utf8(s).len() ==> encode_utf8(front(s, n)).len() == n,
{
    let b = encode_utf8(s);
    encode_utf8_valid_utf8(s);
    encode_utf8_decode_utf8(s);
    valid_utf8_split(b, n);
    decode_utf8_split(b, n);
    decode_utf8_encode_utf8(b.subrange(0, n));
    let rest = decode_utf8(b.subrange(n, b.len() as int));
    assert(s == front(s, n) + rest);
    assert(front(s, n) =~= s.take(front(s, n).len() as int));
}

/// The beginning of `s` up to byte `n`.
pub fn bytes_front(s: &str, n: usize) -> (r: String)
    requires
        cuts(s@, n as int),
    ensures
        r@ == front(s@, n as int),
{
    let (head, tail) = s.split_at(n);
    proof {
        encode_utf8_decode_utf8(head@);
    }
    head.to_owned()
}

proof fn lemma_encode_join(a: Seq<char>, b: Seq<char>)
    ensures
        encode_utf8(a + b) == encode_utf8(a) + encode_utf8(b),
    decreases a.len(),
{
    if a.len() == 0 {
        assert(a + b =~= b);
        assert(encode_utf8(a) + encode_utf8(b) =~= encode_utf8(b));
    } else {
        lemma_encode_join(a.drop_first(), b);
        assert((a + b).drop_first() =~= a.drop_first() + b);
        assert((a + b)[0] == a[0]);
        assert(encode_utf8(a + b) =~= encode_utf8(a) + encode_utf8(b));
    }
}

/// There is one beginning of a text that takes so many bytes, and that is what
/// the text is cut to.
pub proof fn front_takes_its_bytes(s: Seq<char>, x: Seq<char>)
    requires
        x.is_prefix_of(s),
    ensures
        front(s, encode_utf8(x).len() as int) == x,
        cuts(s, encode_utf8(x).len() as int),
{
    let rest = s.skip(x.len() as int);
    assert(s =~= x + rest);
    lemma_encode_join(x, rest);
    let n = encode_utf8(x).len() as int;
    assert(encode_utf8(s).subrange(0, n) =~= encode_utf8(x));
    encode_utf8_decode_utf8(x);
    encode_utf8_valid_utf8(x);
    encode_utf8_valid_utf8(rest);
    encode_utf8_valid_utf8(s);
    is_char_boundary_start_end_of_seq(encode_utf8(s));
    if rest.len() > 0 {
        assert(encode_utf8(s)[n] == encode_utf8(rest)[0]);
        encode_utf8_first_scalar(rest);
        is_char_boundary_iff_not_is_continuation_byte(encode_utf8(s), n);
        is_char_boundary_start_end_of_seq(encode_utf8(rest));
        is_char_boundary_iff_not_is_continuation_byte(encode_utf8(rest), 0);
    } else {
        assert(encode_utf8(rest).len() == 0);
    }
}

/// A number is written digit by digit, without leading zeros.
pub proof fn numbers_are_written_digit_by_digit(n: nat, d: nat)
    requires
        d < 10,
    ensures
        dec(d) == seq![(48 + d) as char],
        n > 0 ==> dec((10 * n + d) as nat) == dec(n).push((48 + d) as char),
        n > 0 ==> dec_int(-n) == "-"@ + dec(n),
        dec_int(n as int) == dec(n),
{
    if n > 0 {
        assert((10 * n + d) / 10 == n && (10 * n + d) % 10 == d);
    }
}

/// A text in a column keeps its characters, at the left or at the right end, and is as wide
/// as the column where it fits.
pub proof fn columns_keep_their_text(s: Seq<char>, w: int)
    ensures
        left(s, w).len() == if s.len() < w {
            w
        } else {
            s.len() as int
        },
        left(s, w).take(s.len() as int) == s,
        right(s, w).len() == left(s, w).len(),
        right(s, w).skip(right(s, w).len() - s.len()) == s,
        forall|i: int| s.len() <= i < w ==> #[trigger] left(s, w)[i] == ' ',
        forall|i: int| 0 <= i < w - s.len() ==> #[trigger] right(s, w)[i] == ' ',
{
    assert(left(s, w).take(s.len() as int) =~= s);
    assert(right(s, w).skip(right(s, w).len() - s.len()) =~= s);
}

} // verus!
