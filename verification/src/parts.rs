//! Parts of a text: its words, its lines, its pieces between separators, and
//! where another text occurs in it.

use crate::text::{chars_of, slice_of, white};
use vstd::prelude::*;

verus! {

broadcast use vstd::string::group_string_axioms;

/// The texts that strings hold.
pub open spec fn texts(v: Seq<String>) -> Seq<Seq<char>> {
    v.map_values(|s: String| s@)
}

/// Puts one more text behind the others.
pub fn push_text(v: &mut Vec<String>, s: String)
    ensures
        texts(final(v)@) == texts(old(v)@).push(s@),
        final(v)@.len() == old(v)@.len() + 1,
{
    let ghost before = texts(v@);
    let ghost added = s@;
    v.push(s);
    assert(texts(v@) =~= before.push(added));
}

// ---------------------------------------------------------------------------
// Words
// ---------------------------------------------------------------------------

/// The first index from `i` on that holds no white space, or the length.
pub open spec fn skip_white(s: Seq<char>, i: int) -> int
    decreases s.len() - i,
{
    if i >= s.len() || !white(s[i]) {
        i
    } else {
        skip_white(s, i + 1)
    }
}

/// The first index from `i` on that holds white space, or the length.
pub open spec fn skip_word(s: Seq<char>, i: int) -> int
    decreases s.len() - i,
{
    if i >= s.len() || white(s[i]) {
        i
    } else {
        skip_word(s, i + 1)
    }
}

pub proof fn lemma_skip_white(s: Seq<char>, i: int)
    requires
        0 <= i <= s.len(),
    ensures
        i <= skip_white(s, i) <= s.len(),
        skip_white(s, i) < s.len() ==> !white(s[skip_white(s, i)]),
        forall|j: int| i <= j < skip_white(s, i) ==> white(s[j]),
    decreases s.len() - i,
{
    if i < s.len() && white(s[i]) {
        lemma_skip_white(s, i + 1);
    }
}

pub proof fn lemma_skip_word(s: Seq<char>, i: int)
    requires
        0 <= i <= s.len(),
    ensures
        i <= skip_word(s, i) <= s.len(),
        i < s.len() && !white(s[i]) ==> i < skip_word(s, i),
        forall|j: int| i <= j < skip_word(s, i) ==> !white(s[j]),
    decreases s.len() - i,
{
    if i < s.len() && !white(s[i]) {
        lemma_skip_word(s, i + 1);
    }
}

/// The words of `s` from index `i` on: its longest runs without white space.
pub open spec fn words_from(s: Seq<char>, i: int) -> Seq<Seq<char>>
    decreases s.len() - i,
    when 0 <= i <= s.len()
    via words_from_decreases
{
    let a = skip_white(s, i);
    if a >= s.len() {
        Seq::empty()
    } else {
        seq![s.subrange(a, skip_word(s, a))] + words_from(s, skip_word(s, a))
    }
}

#[via_fn]
proof fn words_from_decreases(s: Seq<char>, i: int) {
    lemma_skip_white(s, i);
    lemma_skip_word(s, skip_white(s, i));
}

/// The words of `s`.
pub open spec fn words(s: Seq<char>) -> Seq<Seq<char>> {
    words_from(s, 0)
}

proof fn lemma_white_run(s: Seq<char>, i: int, j: int)
    requires
        0 <= i <= j <= s.len(),
        forall|k: int| i <= k < j ==> white(s[k]),
    ensures
        skip_white(s, i) == skip_white(s, j),
    decreases j - i,
{
    if i < j {
        lemma_white_run(s, i + 1, j);
    }
}

proof fn lemma_word_run(s: Seq<char>, i: int, j: int)
    requires
        0 <= i <= j <= s.len(),
        forall|k: int| i <= k < j ==> !white(s[k]),
    ensures
        skip_word(s, i) == skip_word(s, j),
    decreases j - i,
{
    if i < j {
        lemma_word_run(s, i + 1, j);
    }
}

proof fn lemma_word_ends(s: Seq<char>, i: int)
    requires
        0 <= i <= s.len(),
    ensures
        skip_word(s, i) < s.len() ==> white(s[skip_word(s, i)]),
    decreases s.len() - i,
{
    if i < s.len() && !white(s[i]) {
        lemma_word_ends(s, i + 1);
    }
}

/// A text with white space behind it has its own words before those behind.
pub proof fn lemma_words_before_white(a: Seq<char>, t: Seq<char>, i: int)
    requires
        0 <= i <= a.len(),
        t.len() > 0,
        white(t[0]),
    ensures
        words_from(a + t, i) == words_from(a, i) + words_from(a + t, a.len() as int),
    decreases a.len() - i,
{
    let s = a + t;
    let n = a.len() as int;
    let x = skip_white(a, i);
    lemma_skip_white(a, i);
    lemma_white_run(s, i, x);
    assert(s[n] == t[0]);
    if x < n {
        let y = skip_word(a, x);
        lemma_skip_word(a, x);
        lemma_word_ends(a, x);
        lemma_word_run(s, x, y);
        assert(skip_white(s, x) == x);
        assert(skip_word(s, y) == y);
        assert(s.subrange(x, y) =~= a.subrange(x, y));
        lemma_words_before_white(a, t, y);
        assert(words_from(s, i) == seq![s.subrange(x, y)] + words_from(s, y));
        assert(words_from(a, i) == seq![a.subrange(x, y)] + words_from(a, y));
        assert(seq![s.subrange(x, y)] + (words_from(a, y) + words_from(s, n)) =~= words_from(a, i)
            + words_from(s, n));
    } else {
        assert(words_from(a, i) =~= Seq::empty());
        assert(words_from(s, i) == words_from(s, n));
        assert(words_from(a, i) + words_from(s, n) =~= words_from(s, n));
    }
}

/// A word behind a blank is the last word.
pub proof fn lemma_words_push(a: Seq<char>, word: Seq<char>)
    requires
        word.len() > 0,
        forall|k: int| 0 <= k < word.len() ==> !white(#[trigger] word[k]),
    ensures
        words(a + seq![' '] + word) == words(a).push(word),
{
    let t = seq![' '] + word;
    let s = a + t;
    let n = a.len() as int;
    assert(a + seq![' '] + word =~= s);
    lemma_words_before_white(a, t, 0);
    lemma_white_run(s, n, n + 1);
    assert(s[n + 1] == word[0]);
    assert forall|k: int| n + 1 <= k < s.len() implies !white(s[k]) by {
        assert(s[k] == word[k - n - 1]);
    }
    lemma_word_run(s, n + 1, s.len() as int);
    assert(skip_white(s, n + 1) == n + 1);
    assert(skip_word(s, s.len() as int) == s.len());
    assert(s.subrange(n + 1, s.len() as int) =~= word);
    assert(words_from(s, s.len() as int) =~= Seq::empty());
    assert(words_from(s, n) =~= seq![word]);
    assert(words(a) + seq![word] =~= words(a).push(word));
}

/// A text without white space is one word.
pub proof fn lemma_one_word(word: Seq<char>)
    requires
        word.len() > 0,
        forall|k: int| 0 <= k < word.len() ==> !white(#[trigger] word[k]),
    ensures
        words(word) == seq![word],
{
    let n = word.len() as int;
    lemma_word_run(word, 0, n);
    assert(skip_white(word, 0) == 0);
    assert(skip_word(word, n) == n);
    assert(word.subrange(0, n) =~= word);
    assert(words_from(word, n) =~= Seq::empty());
    assert(words_from(word, 0) =~= seq![word]);
}

/// White space at the end of a text adds no word.
pub proof fn lemma_words_white_end(a: Seq<char>, c: char)
    requires
        white(c),
    ensures
        words(a.push(c)) == words(a),
{
    let s = a.push(c);
    let n = a.len() as int;
    assert(s =~= a + seq![c]);
    lemma_words_before_white(a, seq![c], 0);
    assert(skip_white(s, n + 1) == n + 1);
    lemma_white_run(s, n, n + 1);
    assert(words_from(s, n) =~= Seq::empty());
    assert(words(a) + Seq::<Seq<char>>::empty() =~= words(a));
}

/// A word is not empty and holds no white space.
pub proof fn lemma_words_hold_ink(s: Seq<char>, i: int)
    requires
        0 <= i <= s.len(),
    ensures
        forall|k: int| 0 <= k < words_from(s, i).len() ==> (#[trigger] words_from(s, i)[k]).len() > 0,
        forall|k: int, j: int|
            0 <= k < words_from(s, i).len() && 0 <= j < words_from(s, i)[k].len() ==> !white(
                #[trigger] words_from(s, i)[k][j],
            ),
    decreases s.len() - i,
{
    let a = skip_white(s, i);
    lemma_skip_white(s, i);
    if a < s.len() {
        let b = skip_word(s, a);
        lemma_skip_word(s, a);
        lemma_words_hold_ink(s, b);
        let ws = words_from(s, i);
        assert(ws == seq![s.subrange(a, b)] + words_from(s, b));
        assert forall|k: int| 0 <= k < ws.len() implies (#[trigger] ws[k]).len() > 0 by {
            if k > 0 {
                assert(ws[k] == words_from(s, b)[k - 1]);
            }
        }
        assert forall|k: int, j: int| 0 <= k < ws.len() && 0 <= j < ws[k].len() implies !white(
            #[trigger] ws[k][j],
        ) by {
            if k > 0 {
                assert(ws[k] == words_from(s, b)[k - 1]);
            } else {
                assert(ws[0][j] == s[a + j]);
            }
        }
    }
}

/// The words of a text, in order.
pub fn words_of(s: &str) -> (r: Vec<String>)
    ensures
        texts(r@) == words(s@),
{
    let v = chars_of(s);
    let n: usize = v.len();
    let mut out: Vec<String> = Vec::new();
    let mut i: usize = 0;
    assert(texts(out@) =~= Seq::empty());
    assert(texts(out@) + words_from(s@, 0) =~= words(s@));
    while i < n
        invariant
            v@ == s@,
            n == v@.len(),
            i <= n,
            texts(out@) + words_from(s@, i as int) == words(s@),
        decreases n - i,
    {
        let ghost i0 = i as int;
        let mut a: usize = i;
        while a < n && v[a].is_whitespace()
            invariant
                v@ == s@,
                n == v@.len(),
                i0 <= a <= n,
                skip_white(s@, i0) == skip_white(s@, a as int),
            decreases n - a,
        {
            a += 1;
        }
        let mut b: usize = a;
        while b < n && !v[b].is_whitespace()
            invariant
                v@ == s@,
                n == v@.len(),
                a <= b <= n,
                skip_word(s@, a as int) == skip_word(s@, b as int),
            decreases n - b,
        {
            b += 1;
        }
        proof {
            lemma_skip_white(s@, i0);
            lemma_skip_word(s@, a as int);
        }
        if a < n {
            let ghost before = texts(out@);
            let word = slice_of(&v, a, b);
            let ghost w = word@;
            push_text(&mut out, word);
            assert(before + (seq![w] + words_from(s@, b as int)) =~= before.push(w) + words_from(
                s@,
                b as int,
            ));
        } else {
            assert(words_from(s@, i0) =~= Seq::empty());
            assert(words_from(s@, n as int) =~= Seq::empty()) by {
                lemma_skip_white(s@, n as int);
            }
        }
        i = b;
    }
    assert(words_from(s@, i as int) =~= Seq::empty()) by {
        lemma_skip_white(s@, i as int);
    }
    assert(texts(out@) + Seq::<Seq<char>>::empty() =~= texts(out@));
    out
}

// ---------------------------------------------------------------------------
// Separators and lines
// ---------------------------------------------------------------------------

/// The first index from `i` on that holds `c`, or the length.
pub open spec fn find_char(s: Seq<char>, c: char, i: int) -> int
    decreases s.len() - i,
{
    if i >= s.len() || s[i] == c {
        i
    } else {
        find_char(s, c, i + 1)
    }
}

pub proof fn lemma_find_char(s: Seq<char>, c: char, i: int)
    requires
        0 <= i <= s.len(),
    ensures
        i <= find_char(s, c, i) <= s.len(),
        find_char(s, c, i) < s.len() ==> s[find_char(s, c, i)] == c,
        forall|j: int| i <= j < find_char(s, c, i) ==> s[j] != c,
    decreases s.len() - i,
{
    if i < s.len() && s[i] != c {
        lemma_find_char(s, c, i + 1);
    }
}

/// The first index from `from` on that holds `c`, or the length.
pub fn index_of(v: &Vec<char>, c: char, from: usize) -> (i: usize)
    requires
        from <= v@.len(),
    ensures
        i == find_char(v@, c, from as int),
        from <= i <= v@.len(),
{
    let mut i: usize = from;
    while i < v.len() && v[i] != c
        invariant
            from <= i <= v@.len(),
            find_char(v@, c, from as int) == find_char(v@, c, i as int),
        decreases v@.len() - i,
    {
        i += 1;
    }
    i
}

/// The pieces of `s` from index `i` on, cut at every `c`.
pub open spec fn pieces_from(s: Seq<char>, c: char, i: int) -> Seq<Seq<char>>
    decreases s.len() - i,
    when 0 <= i <= s.len()
    via pieces_from_decreases
{
    let e = find_char(s, c, i);
    if e >= s.len() {
        seq![s.subrange(i, s.len() as int)]
    } else {
        seq![s.subrange(i, e)] + pieces_from(s, c, e + 1)
    }
}

#[via_fn]
proof fn pieces_from_decreases(s: Seq<char>, c: char, i: int) {
    lemma_find_char(s, c, i);
}

/// The pieces of a text between the separators `c`, one more than there are
/// separators.
pub open spec fn pieces(s: Seq<char>, c: char) -> Seq<Seq<char>> {
    pieces_from(s, c, 0)
}

pub fn pieces_of(s: &str, c: char) -> (r: Vec<String>)
    ensures
        texts(r@) == pieces(s@, c),
        r@.len() >= 1,
{
    let v = chars_of(s);
    let n: usize = v.len();
    let mut out: Vec<String> = Vec::new();
    let mut i: usize = 0;
    assert(texts(out@) + pieces_from(s@, c, 0) =~= pieces(s@, c));
    loop
        invariant_except_break
            v@ == s@,
            n == v@.len(),
            i <= n,
            texts(out@) + pieces_from(s@, c, i as int) == pieces(s@, c),
        ensures
            texts(out@) == pieces(s@, c),
            out@.len() >= 1,
        decreases n - i,
    {
        let e: usize = index_of(&v, c, i);
        let piece = slice_of(&v, i, e);
        let ghost p = piece@;
        let ghost before = texts(out@);
        push_text(&mut out, piece);
        if e >= n {
            assert(before + seq![p] =~= before.push(p));
            break;
        }
        assert(before + (seq![p] + pieces_from(s@, c, e + 1)) =~= before.push(p) + pieces_from(
            s@,
            c,
            e + 1,
        ));
        i = e + 1;
    }
    out
}

/// A line without the carriage return that a line feed followed.
pub open spec fn chomp(s: Seq<char>) -> Seq<char> {
    if s.len() > 0 && s.last() == '\r' {
        s.drop_last()
    } else {
        s
    }
}

/// The lines of `s` from index `i` on. A line ends in a line feed, a carriage
/// return before it goes with it, and the last line may go without.
pub open spec fn lines_from(s: Seq<char>, i: int) -> Seq<Seq<char>>
    decreases s.len() - i,
    when 0 <= i <= s.len()
    via lines_from_decreases
{
    let e = find_char(s, '\n', i);
    if i >= s.len() {
        Seq::empty()
    } else if e >= s.len() {
        seq![s.subrange(i, s.len() as int)]
    } else {
        seq![chomp(s.subrange(i, e))] + lines_from(s, e + 1)
    }
}

#[via_fn]
proof fn lines_from_decreases(s: Seq<char>, i: int) {
    lemma_find_char(s, '\n', i);
}

/// The lines of a text.
pub open spec fn lines(s: Seq<char>) -> Seq<Seq<char>> {
    lines_from(s, 0)
}

/// The lines of a text, top to bottom.
pub fn lines_of(s: &str) -> (r: Vec<String>)
    ensures
        texts(r@) == lines(s@),
{
    let v = chars_of(s);
    let n: usize = v.len();
    let mut out: Vec<String> = Vec::new();
    let mut i: usize = 0;
    assert(texts(out@) + lines_from(s@, 0) =~= lines(s@));
    while i < n
        invariant
            v@ == s@,
            n == v@.len(),
            i <= n,
            texts(out@) + lines_from(s@, i as int) == lines(s@),
        decreases n - i,
    {
        let e: usize = index_of(&v, '\n', i);
        let ghost before = texts(out@);
        if e >= n {
            let piece = slice_of(&v, i, n);
            let ghost p = piece@;
            push_text(&mut out, piece);
            assert(lines_from(s@, n as int) =~= Seq::empty());
            assert(before + seq![p] =~= before.push(p) + Seq::empty());
            i = n;
        } else {
            let end: usize = if e > i && v[e - 1] == '\r' {
                e - 1
            } else {
                e
            };
            let piece = slice_of(&v, i, end);
            let ghost p = piece@;
            assert(p =~= chomp(s@.subrange(i as int, e as int)));
            push_text(&mut out, piece);
            assert(before + (seq![p] + lines_from(s@, e + 1)) =~= before.push(p) + lines_from(
                s@,
                e + 1,
            ));
            i = e + 1;
        }
    }
    assert(lines_from(s@, n as int) =~= Seq::empty());
    assert(texts(out@) + Seq::<Seq<char>>::empty() =~= texts(out@));
    out
}

/// The first line of a text, empty where it has none.
pub open spec fn first_line(s: Seq<char>) -> Seq<char> {
    if s.len() == 0 {
        s
    } else {
        lines(s)[0]
    }
}

pub fn first_line_of(s: &str) -> (r: String)
    ensures
        r@ == first_line(s@),
{
    let v = chars_of(s);
    let n: usize = v.len();
    let e: usize = index_of(&v, '\n', 0);
    let end: usize = if e < n && e > 0 && v[e - 1] == '\r' {
        e - 1
    } else {
        e
    };
    let r = slice_of(&v, 0, end);
    proof {
        if s@.len() > 0 {
            assert(lines(s@)[0] == if e >= n {
                s@.subrange(0, n as int)
            } else {
                chomp(s@.subrange(0, e as int))
            });
        }
        assert(r@ =~= first_line(s@));
    }
    r
}

// ---------------------------------------------------------------------------
// One text in another
// ---------------------------------------------------------------------------

/// `p` stands in `s` at index `i`.
pub open spec fn stands_at(s: Seq<char>, p: Seq<char>, i: int) -> bool {
    0 <= i && i + p.len() <= s.len() && s.subrange(i, i + p.len()) == p
}

/// `p` stands somewhere in `s`.
pub open spec fn holds(s: Seq<char>, p: Seq<char>) -> bool {
    exists|i: int| stands_at(s, p, i)
}

/// The first index from `i` on at which `p` stands in `s`, or -1.
pub open spec fn find_text(s: Seq<char>, p: Seq<char>, i: int) -> int
    decreases s.len() - i + 1,
{
    if i + p.len() > s.len() {
        -1
    } else if stands_at(s, p, i) {
        i
    } else {
        find_text(s, p, i + 1)
    }
}

pub proof fn lemma_find_text(s: Seq<char>, p: Seq<char>, i: int)
    requires
        0 <= i,
    ensures
        find_text(s, p, i) >= 0 ==> i <= find_text(s, p, i) && stands_at(
            s,
            p,
            find_text(s, p, i),
        ),
        forall|j: int| i <= j && (find_text(s, p, i) < 0 || j < find_text(s, p, i)) ==> !stands_at(s, p, j),
    decreases s.len() - i + 1,
{
    if i + p.len() <= s.len() && !stands_at(s, p, i) {
        lemma_find_text(s, p, i + 1);
    }
}

fn matches_at(v: &Vec<char>, p: &Vec<char>, i: usize) -> (r: bool)
    requires
        i + p@.len() <= v@.len(),
    ensures
        r == stands_at(v@, p@, i as int),
{
    let n: usize = v.len();
    let mut k: usize = 0;
    while k < p.len()
        invariant
            n == v@.len(),
            k <= p@.len(),
            i + p@.len() <= v@.len(),
            forall|j: int| 0 <= j < k ==> v@[i + j] == p@[j],
        decreases p@.len() - k,
    {
        if v[i + k] != p[k] {
            assert(v@.subrange(i as int, i + p@.len())[k as int] != p@[k as int]);
            return false;
        }
        k += 1;
    }
    assert(v@.subrange(i as int, i + p@.len()) =~= p@);
    true
}

/// The first index from `from` on at which `p` stands in `v`.
pub fn position_of(v: &Vec<char>, p: &Vec<char>, from: usize) -> (r: Option<usize>)
    ensures
        r is None <==> find_text(v@, p@, from as int) < 0,
        r matches Some(i) ==> i == find_text(v@, p@, from as int) && from <= i && i + p@.len()
            <= v@.len(),
{
    let mut i: usize = from;
    while i <= v.len() && p.len() <= v.len() - i
        invariant
            from <= i,
            find_text(v@, p@, from as int) == find_text(v@, p@, i as int),
        decreases v@.len() - i + 1,
    {
        if matches_at(v, p, i) {
            return Some(i);
        }
        if i == v.len() {
            assert(v@.subrange(i as int, i as int) =~= p@);
            return None;
        }
        i += 1;
    }
    None
}

/// Whether `p` stands somewhere in `s`.
pub fn contains(s: &str, p: &str) -> (r: bool)
    ensures
        r == holds(s@, p@),
{
    let v = chars_of(s);
    let q = chars_of(p);
    let r = position_of(&v, &q, 0);
    proof {
        lemma_find_text(s@, p@, 0);
        assert(find_text(s@, p@, 0) >= 0 ==> stands_at(s@, p@, find_text(s@, p@, 0)));
        assert(forall|j: int| stands_at(s@, p@, j) ==> j >= 0);
    }
    r.is_some()
}

/// `s` begins with `p`.
pub open spec fn begins(s: Seq<char>, p: Seq<char>) -> bool {
    p.len() <= s.len() && s.take(p.len() as int) == p
}

/// `s` without `p` at its beginning.
pub open spec fn after_prefix(s: Seq<char>, p: Seq<char>) -> Option<Seq<char>> {
    if begins(s, p) {
        Some(s.skip(p.len() as int))
    } else {
        None
    }
}

pub fn starts_with(s: &str, p: &str) -> (r: bool)
    ensures
        r == begins(s@, p@),
{
    let v = chars_of(s);
    let q = chars_of(p);
    assert(v@.take(q@.len() as int) =~= v@.subrange(0, q@.len() as int));
    v.len() >= q.len() && matches_at(&v, &q, 0)
}

pub fn strip_prefix(s: &str, p: &str) -> (r: Option<String>)
    ensures
        r is Some <==> after_prefix(s@, p@) is Some,
        r matches Some(t) ==> after_prefix(s@, p@) == Some(t@),
{
    if starts_with(s, p) {
        let v = chars_of(s);
        let n: usize = p.unicode_len();
        let t = slice_of(&v, n, v.len());
        assert(t@ =~= s@.skip(p@.len() as int));
        Some(t)
    } else {
        None
    }
}

// ---------------------------------------------------------------------------
// Trimming
// ---------------------------------------------------------------------------

/// The index behind the last character that is no white space.
pub open spec fn trim_end_at(s: Seq<char>) -> int
    decreases s.len(),
{
    if s.len() == 0 || !white(s.last()) {
        s.len() as int
    } else {
        trim_end_at(s.drop_last())
    }
}

/// `s` without the white space at its end.
pub open spec fn trimmed_end(s: Seq<char>) -> Seq<char> {
    s.take(trim_end_at(s))
}

/// `s` without the white space at either end.
pub open spec fn trimmed(s: Seq<char>) -> Seq<char> {
    trimmed_end(s.skip(skip_white(s, 0)))
}

pub fn trim_end(s: &str) -> (r: String)
    ensures
        r@ == trimmed_end(s@),
{
    let v = chars_of(s);
    let mut n: usize = v.len();
    assert(s@.take(n as int) =~= s@);
    while n > 0 && v[n - 1].is_whitespace()
        invariant
            v@ == s@,
            n <= v@.len(),
            trim_end_at(s@) == trim_end_at(s@.take(n as int)),
        decreases n,
    {
        assert(s@.take(n as int).drop_last() =~= s@.take(n - 1));
        n -= 1;
    }
    assert(trim_end_at(s@.take(n as int)) == n);
    let r = slice_of(&v, 0, n);
    assert(r@ =~= trimmed_end(s@));
    r
}

pub fn trim(s: &str) -> (r: String)
    ensures
        r@ == trimmed(s@),
{
    let v = chars_of(s);
    let n: usize = v.len();
    let mut a: usize = 0;
    while a < n && v[a].is_whitespace()
        invariant
            v@ == s@,
            n == v@.len(),
            a <= n,
            skip_white(s@, 0) == skip_white(s@, a as int),
        decreases n - a,
    {
        a += 1;
    }
    let rest = slice_of(&v, a, n);
    assert(rest@ =~= s@.skip(skip_white(s@, 0)));
    trim_end(&rest)
}

// ---------------------------------------------------------------------------
// Letters
// ---------------------------------------------------------------------------

/// `c` in lower case where it is one of the 26 letters.
pub open spec fn lower(c: char) -> char {
    if 'A' <= c && c <= 'Z' {
        (c as u32 + 32) as char
    } else {
        c
    }
}

/// `s` with its 26 letters in lower case.
pub open spec fn lowered(s: Seq<char>) -> Seq<char> {
    Seq::new(s.len(), |i: int| lower(s[i]))
}

pub fn lower_ascii(s: &str) -> (r: String)
    ensures
        r@ == lowered(s@),
{
    let mut r = String::new();
    for c in it: s.chars()
        invariant
            it.seq() == s@,
            r@ =~= lowered(s@.take(it.index())),
    {
        let d: char = if 'A' <= c && c <= 'Z' {
            (c as u8 + 32) as char
        } else {
            c
        };
        r.push(d);
    }
    assert(s@.take(s@.len() as int) =~= s@);
    r
}

/// `s` with the text `by` in place of every `c`.
pub open spec fn replaced(s: Seq<char>, c: char, by: Seq<char>) -> Seq<char>
    decreases s.len(),
{
    if s.len() == 0 {
        Seq::empty()
    } else if s.last() == c {
        replaced(s.drop_last(), c, by) + by
    } else {
        replaced(s.drop_last(), c, by).push(s.last())
    }
}

pub fn replace(s: &str, c: char, by: &str) -> (r: String)
    ensures
        r@ == replaced(s@, c, by@),
{
    let v = chars_of(s);
    let mut r = String::new();
    let mut i: usize = 0;
    assert(s@.take(0) =~= Seq::empty());
    while i < v.len()
        invariant
            v@ == s@,
            i <= v@.len(),
            r@ == replaced(s@.take(i as int), c, by@),
        decreases v@.len() - i,
    {
        let d: char = v[i];
        if d == c {
            r.append(by);
        } else {
            r.push(d);
        }
        i += 1;
        assert(s@.take(i as int).drop_last() =~= s@.take(i - 1));
        assert(s@.take(i as int).last() == d);
    }
    assert(s@.take(i as int) =~= s@);
    r
}

// ---------------------------------------------------------------------------
// Numbers
// ---------------------------------------------------------------------------

/// Whether `c` is a decimal digit.
pub open spec fn is_digit(c: char) -> bool {
    '0' <= c && c <= '9'
}

pub open spec fn all_digits(s: Seq<char>) -> bool {
    forall|i: int| 0 <= i < s.len() ==> is_digit(#[trigger] s[i])
}

/// The number that decimal digits stand for.
pub open spec fn digits_value(s: Seq<char>) -> int
    decreases s.len(),
{
    if s.len() == 0 {
        0
    } else {
        10 * digits_value(s.drop_last()) + (s.last() as int - 48)
    }
}

/// The number that `s` stands for: digits alone, or a plus sign and digits,
/// of a value that 32 bits hold.
pub open spec fn number(s: Seq<char>) -> Option<u32> {
    let t = if s.len() > 0 && s[0] == '+' {
        s.skip(1)
    } else {
        s
    };
    if t.len() > 0 && all_digits(t) && digits_value(t) <= u32::MAX {
        Some(digits_value(t) as u32)
    } else {
        None
    }
}

proof fn lemma_digits_grow(s: Seq<char>, n: int)
    requires
        0 <= n <= s.len(),
        all_digits(s),
    ensures
        0 <= digits_value(s.take(n)) <= digits_value(s),
    decreases s.len(),
{
    if n == s.len() {
        assert(s.take(n) =~= s);
        if n > 0 {
            assert(is_digit(s[s.len() - 1]));
            assert(all_digits(s.drop_last())) by {
                assert forall|i: int| 0 <= i < s.drop_last().len() implies is_digit(
                    #[trigger] s.drop_last()[i],
                ) by {
                    assert(s.drop_last()[i] == s[i]);
                }
            }
            lemma_digits_grow(s.drop_last(), s.len() - 1);
            assert(s.drop_last().take(s.len() - 1) =~= s.drop_last());
        }
    } else {
        assert(is_digit(s[s.len() - 1]));
        assert(all_digits(s.drop_last())) by {
            assert forall|i: int| 0 <= i < s.drop_last().len() implies is_digit(
                #[trigger] s.drop_last()[i],
            ) by {
                assert(s.drop_last()[i] == s[i]);
            }
        }
        lemma_digits_grow(s.drop_last(), n);
        assert(s.drop_last().take(n) =~= s.take(n));
        lemma_digits_grow(s.drop_last(), s.len() - 1);
    }
}

pub fn parse_number(s: &str) -> (r: Option<u32>)
    ensures
        r == number(s@),
{
    let v = chars_of(s);
    let n: usize = v.len();
    let from: usize = if n > 0 && v[0] == '+' {
        1
    } else {
        0
    };
    let ghost t = s@.skip(from as int);
    assert(s@.skip(0) =~= s@);
    if from == n {
        return None;
    }
    let mut value: u64 = 0;
    let mut i: usize = from;
    assert(t.take(0) =~= Seq::empty());
    while i < n
        invariant
            v@ == s@,
            n == v@.len(),
            from <= i <= n,
            t == s@.skip(from as int),
            value == digits_value(t.take(i - from)),
            value <= u32::MAX,
            forall|j: int| 0 <= j < i - from ==> is_digit(#[trigger] t[j]),
            number(s@) == (if t.len() > 0 && all_digits(t) && digits_value(t) <= u32::MAX {
                Some(digits_value(t) as u32)
            } else {
                None
            }),
        decreases n - i,
    {
        let c: char = v[i];
        assert(t[i - from] == c);
        if !('0' <= c && c <= '9') {
            assert(!is_digit(t[i - from]));
            return None;
        }
        let ghost k = i - from;
        assert(t.take(k + 1).drop_last() =~= t.take(k));
        assert(t.take(k + 1).last() == c);
        value = value * 10 + (c as u32 - 48) as u64;
        i += 1;
        if value > u32::MAX as u64 {
            proof {
                if all_digits(t) {
                    lemma_digits_grow(t, k + 1);
                }
            }
            return None;
        }
    }
    assert(t.take(n - from) =~= t);
    Some(value as u32)
}

/// Texts put together with a separator between each two.
pub open spec fn joined(parts: Seq<Seq<char>>, sep: Seq<char>) -> Seq<char>
    decreases parts.len(),
{
    if parts.len() == 0 {
        Seq::empty()
    } else if parts.len() == 1 {
        parts[0]
    } else {
        joined(parts.drop_last(), sep) + sep + parts.last()
    }
}

pub fn join(parts: &Vec<String>, sep: &str) -> (r: String)
    ensures
        r@ == joined(texts(parts@), sep@),
{
    if parts.len() == 0 {
        return String::new();
    }
    let mut r = parts[0].clone();
    let mut i: usize = 1;
    assert(texts(parts@).take(1) =~= seq![parts@[0]@]);
    while i < parts.len()
        invariant
            1 <= i <= parts@.len(),
            r@ == joined(texts(parts@).take(i as int), sep@),
        decreases parts@.len() - i,
    {
        r.append(sep);
        r.append(&parts[i]);
        i += 1;
        assert(texts(parts@).take(i as int).drop_last() =~= texts(parts@).take(i - 1));
    }
    assert(texts(parts@).take(i as int) =~= texts(parts@));
    r
}

/// A text without the character stays as it is.
pub proof fn nothing_to_replace(s: Seq<char>, c: char, by: Seq<char>)
    requires
        !s.contains(c),
    ensures
        replaced(s, c, by) == s,
    decreases s.len(),
{
    if s.len() > 0 {
        let front = s.drop_last();
        assert(s.contains(s[s.len() - 1]));
        assert forall|i: int| 0 <= i < front.len() implies front[i] != c by {
            assert(s.contains(s[i]));
        }
        nothing_to_replace(front, c, by);
        assert(front.push(s.last()) =~= s);
    }
}

/// The first line of a text ends before its first line feed.
pub proof fn first_line_ends_at_a_line_feed(a: Seq<char>, b: Seq<char>)
    requires
        !a.contains('\n'),
        a.len() > 0 ==> a.last() != '\r',
    ensures
        first_line(a) == a,
        first_line(a + seq!['\n'] + b) == a,
{
    let t = a + seq!['\n'] + b;
    let n = a.len() as int;
    lemma_find_char(a, '\n', 0);
    lemma_find_char(t, '\n', 0);
    assert(forall|i: int| 0 <= i < n ==> t[i] == a[i]);
    assert(forall|i: int| 0 <= i < n ==> a.contains(#[trigger] a[i]));
    assert(t[n] == '\n');
    assert(find_char(t, '\n', 0) == n);
    assert(find_char(a, '\n', 0) == n);
    assert(t.subrange(0, n) =~= a);
    assert(a.subrange(0, n) =~= a);
    assert(chomp(a) == a);
}

/// Whether a text is one line with something at either end.
pub open spec fn is_plain_line(s: Seq<char>) -> bool {
    s.len() > 0 && !white(s[0]) && !white(s.last()) && !s.contains('\n')
}

/// Such a text has nothing to trim and is the one line of itself.
pub proof fn plain_line_is_itself(s: Seq<char>)
    requires
        is_plain_line(s),
    ensures
        trimmed(s) == s,
        trimmed_end(s) == s,
        lines(s) == seq![s],
{
    assert(skip_white(s, 0) == 0);
    assert(s.skip(0) =~= s);
    assert(s.take(s.len() as int) =~= s);
    lemma_find_char(s, '\n', 0);
    assert(forall|i: int| 0 <= i < s.len() ==> s.contains(#[trigger] s[i]));
    assert(s.subrange(0, s.len() as int) =~= s);
}

proof fn lemma_find_shift(p: Seq<char>, t: Seq<char>, c: char, i: int)
    requires
        0 <= i <= t.len(),
    ensures
        find_char(p + t, c, p.len() + i) == p.len() + find_char(t, c, i),
    decreases t.len() - i,
{
    if i < t.len() && t[i] != c {
        lemma_find_shift(p, t, c, i + 1);
    }
}

proof fn lemma_lines_shift(p: Seq<char>, t: Seq<char>, i: int)
    requires
        0 <= i <= t.len(),
    ensures
        lines_from(p + t, p.len() + i) == lines_from(t, i),
    decreases t.len() - i,
{
    lemma_find_shift(p, t, '\n', i);
    lemma_find_char(t, '\n', i);
    let e = find_char(t, '\n', i);
    if i < t.len() {
        assert((p + t).subrange(p.len() + i, p.len() + e) =~= t.subrange(i, e));
        if e < t.len() {
            lemma_lines_shift(p, t, e + 1);
        } else {
            assert((p + t).subrange(p.len() + i, (p + t).len() as int) =~= t.subrange(i, t.len() as int));
        }
    }
}

proof fn lemma_first_at(a: Seq<char>, c: char, b: Seq<char>)
    requires
        !a.contains(c),
    ensures
        find_char(a + seq![c] + b, c, 0) == a.len(),
        (a + seq![c] + b).subrange(0, a.len() as int) == a,
{
    let t = a + seq![c] + b;
    let n = a.len() as int;
    lemma_find_char(t, c, 0);
    assert(forall|i: int| 0 <= i < n ==> t[i] == a[i]);
    assert(forall|i: int| 0 <= i < n ==> a.contains(#[trigger] a[i]));
    assert(t[n] == c);
    assert(t.subrange(0, n) =~= a);
}

/// A line feed ends a line, with the carriage return before it: the lines of a text are its
/// first one and those of what follows. An empty text has none, and what ends in a line
/// feed has none behind it.
pub proof fn lines_end_at_line_feeds(a: Seq<char>, b: Seq<char>)
    requires
        !a.contains('\n'),
    ensures
        lines(Seq::empty()) == Seq::<Seq<char>>::empty(),
        a.len() > 0 ==> lines(a) == seq![a],
        a.len() == 0 || a.last() != '\r' ==> lines(a + seq!['\n'] + b) == seq![a] + lines(b),
        lines(a + seq!['\r'] + seq!['\n'] + b) == seq![a] + lines(b),
{
    let t = a + seq!['\n'] + b;
    lemma_first_at(a, '\n', b);
    assert(t =~= (a + seq!['\n']) + b);
    lemma_lines_shift(a + seq!['\n'], b, 0);
    let r = a + seq!['\r'];
    assert(!r.contains('\n')) by {
        assert(forall|i: int| 0 <= i < a.len() ==> a.contains(#[trigger] a[i]));
        assert(forall|i: int| 0 <= i < a.len() ==> r[i] == a[i]);
    }
    lemma_first_at(r, '\n', b);
    lemma_lines_shift(r + seq!['\n'], b, 0);
    assert(r.drop_last() =~= a);
    lemma_find_char(a, '\n', 0);
    assert(forall|i: int| 0 <= i < a.len() ==> a.contains(#[trigger] a[i]));
    assert(a.subrange(0, a.len() as int) =~= a);
}

proof fn lemma_pieces_shift(p: Seq<char>, t: Seq<char>, c: char, i: int)
    requires
        0 <= i <= t.len(),
    ensures
        pieces_from(p + t, c, p.len() + i) == pieces_from(t, c, i),
    decreases t.len() - i,
{
    lemma_find_shift(p, t, c, i);
    lemma_find_char(t, c, i);
    let e = find_char(t, c, i);
    assert((p + t).subrange(p.len() + i, p.len() + e) =~= t.subrange(i, e));
    if e < t.len() {
        lemma_pieces_shift(p, t, c, e + 1);
    } else {
        assert((p + t).subrange(p.len() + i, (p + t).len() as int) =~= t.subrange(i, t.len() as int));
    }
}

/// A separator divides: the pieces of a text are what stands before its first separator and
/// those of what follows. A text without separators is its one piece.
pub proof fn separators_divide(a: Seq<char>, c: char, b: Seq<char>)
    requires
        !a.contains(c),
    ensures
        pieces(a, c) == seq![a],
        pieces(a + seq![c] + b, c) == seq![a] + pieces(b, c),
{
    lemma_first_at(a, c, b);
    lemma_pieces_shift(a + seq![c], b, c, 0);
    lemma_find_char(a, c, 0);
    assert(forall|i: int| 0 <= i < a.len() ==> a.contains(#[trigger] a[i]));
    assert(a.subrange(0, a.len() as int) =~= a);
}

proof fn lemma_trim_end(s: Seq<char>)
    ensures
        0 <= trim_end_at(s) <= s.len(),
        trim_end_at(s) > 0 ==> !white(s[trim_end_at(s) - 1]),
        forall|i: int| trim_end_at(s) <= i < s.len() ==> white(#[trigger] s[i]),
    decreases s.len(),
{
    if s.len() > 0 && white(s.last()) {
        lemma_trim_end(s.drop_last());
        assert(forall|i: int| 0 <= i < s.len() - 1 ==> s.drop_last()[i] == s[i]);
    }
}

/// Trimming takes white space away at either end, all of it and nothing else: from
/// `trimmed(s)` the text is had back with white space before and behind it.
pub proof fn trimming_takes_white_space(s: Seq<char>)
    ensures
        ({
            let t = trimmed(s);
            &&& t.len() > 0 ==> !white(t[0]) && !white(t.last())
            &&& exists|i: int| {
                &&& 0 <= i <= i + t.len() <= s.len()
                &&& #[trigger] s.subrange(i, i + t.len()) == t
                &&& forall|k: int| 0 <= k < i || i + t.len() <= k < s.len() ==> white(#[trigger] s[k])
            }
        }),
{
    lemma_skip_white(s, 0);
    let i = skip_white(s, 0);
    let rest = s.skip(i);
    lemma_trim_end(rest);
    let n = trim_end_at(rest);
    let t = trimmed(s);
    assert(s.subrange(i, i + t.len()) =~= t);
    assert forall|k: int| 0 <= k < i || i + t.len() <= k < s.len() implies white(#[trigger] s[k]) by {
        if k >= i {
            assert(rest[k - i] == s[k]);
        }
    }
    if t.len() > 0 {
        assert(t[0] == s[i]);
        assert(t.last() == rest[n - 1]);
    }
}

/// Replacing goes character by character.
pub proof fn replacing_is_done_for_each(s: Seq<char>, x: char, c: char, by: Seq<char>)
    ensures
        replaced(Seq::empty(), c, by) == Seq::<char>::empty(),
        replaced(s.push(x), c, by) == replaced(s, c, by) + if x == c {
            by
        } else {
            seq![x]
        },
{
    assert(s.push(x).drop_last() =~= s);
}

/// Case does not matter once a text is lowered: lowering it again changes nothing, and each
/// of the 26 letters becomes its small one.
pub proof fn lowering_is_settled(s: Seq<char>, i: int)
    requires
        0 <= i < s.len(),
    ensures
        lowered(s).len() == s.len(),
        lowered(lowered(s)) == lowered(s),
        s[i] < 'A' || s[i] > 'Z' ==> lowered(s)[i] == s[i],
        'A' <= s[i] <= 'Z' ==> lowered(s)[i] as int == s[i] as int + 32 && 'a' <= lowered(s)[i] <= 'z',
{
    assert forall|k: int| 0 <= k < s.len() implies lower(#[trigger] lower(s[k])) == lower(s[k]) by {}
    assert(lowered(lowered(s)) =~= lowered(s));
}

/// What stands behind a beginning is had back by taking the beginning away.
pub proof fn beginnings_are_taken_away(p: Seq<char>, rest: Seq<char>)
    ensures
        begins(p + rest, p),
        after_prefix(p + rest, p) == Some(rest),
        begins(p, p) && after_prefix(p, p) == Some(Seq::<char>::empty()),
{
    assert((p + rest).take(p.len() as int) =~= p);
    assert((p + rest).skip(p.len() as int) =~= rest);
    assert(p.take(p.len() as int) =~= p);
    assert(p.skip(p.len() as int) =~= Seq::<char>::empty());
}

/// Joining puts the separator between each two parts and nowhere else.
pub proof fn joining_separates(parts: Seq<Seq<char>>, p: Seq<char>, sep: Seq<char>)
    ensures
        joined(Seq::empty(), sep) == Seq::<char>::empty(),
        joined(seq![p], sep) == p,
        parts.len() > 0 ==> joined(parts.push(p), sep) == joined(parts, sep) + sep + p,
{
    assert(parts.push(p).drop_last() =~= parts);
}

proof fn lemma_dec_value(n: nat)
    ensures
        digits_value(crate::text::dec(n)) == n,
        all_digits(crate::text::dec(n)),
        crate::text::dec(n).len() > 0,
    decreases n,
{
    let s = crate::text::dec(n);
    if n >= 10 {
        lemma_dec_value(n / 10);
        let front = crate::text::dec(n / 10);
        let d = (n % 10) as int;
        assert(s.drop_last() =~= front);
        assert(s.last() as int == 48 + d);
        assert forall|i: int| 0 <= i < s.len() implies is_digit(#[trigger] s[i]) by {
            if i < s.len() - 1 {
                assert(s[i] == front[i]);
            }
        }
    } else {
        assert(s.drop_last() =~= Seq::<char>::empty());
        assert(s.last() as int == 48 + n);
        assert(digits_value(Seq::<char>::empty()) == 0);
    }
}

/// A number is read back from how it is written, with a plus sign before it or without; and
/// so two numbers are written differently.
pub proof fn numbers_are_read_back(n: u32, m: nat)
    ensures
        number(crate::text::dec(n as nat)) == Some(n),
        number(seq!['+'] + crate::text::dec(n as nat)) == Some(n),
        m > u32::MAX ==> number(crate::text::dec(m)) is None,
        m != n ==> crate::text::dec(m) != crate::text::dec(n as nat),
{
    lemma_dec_value(n as nat);
    lemma_dec_value(m);
    let s = crate::text::dec(n as nat);
    assert(is_digit(s[0]));
    assert(is_digit(crate::text::dec(m)[0]));
    assert((seq!['+'] + s).skip(1) =~= s);
}

} // verus!
