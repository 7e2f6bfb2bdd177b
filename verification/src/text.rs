//! Small verified string utilities shared by the rest of the crate.
//!
//! Strings are modelled by their sequence of characters (`s@`). Ordering of
//! names goes by the UTF-8 bytes, which is how `str` is ordered.

use vstd::prelude::*;
use vstd::string::*;
use vstd::utf8::*;

verus! {

/// Whether `c` is white space: one of the characters with the Unicode
/// property `White_Space`. These are the controls U+0009 to U+000D, the
/// space, U+0085, the no-break space, U+1680, U+2000 to U+200A, the line
/// and paragraph separators, U+202F, U+205F and U+3000.
pub open spec fn is_whitespace(c: char) -> bool {
    let code = c as u32;
    ||| 0x0009 <= code <= 0x000d
    ||| code == 0x0020
    ||| code == 0x0085
    ||| code == 0x00a0
    ||| code == 0x1680
    ||| 0x2000 <= code <= 0x200a
    ||| code == 0x2028
    ||| code == 0x2029
    ||| code == 0x202f
    ||| code == 0x205f
    ||| code == 0x3000
}

/// Tells whether a character is white space.
pub fn char_is_whitespace(c: char) -> (r: bool)
    ensures
        r == is_whitespace(c),
{
    let code: u32 = c as u32;
    (0x0009 <= code && code <= 0x000d) || code == 0x0020 || code == 0x0085 || code == 0x00a0
        || code == 0x1680 || (0x2000 <= code && code <= 0x200a) || code == 0x2028 || code
        == 0x2029 || code == 0x202f || code == 0x205f || code == 0x3000
}

/// The characters of `s`, in order.
pub fn chars_of(s: &str) -> (v: Vec<char>)
    ensures
        v@ == s@,
{
    let mut v: Vec<char> = Vec::new();
    for c in it: s.chars()
        invariant
            it.seq() == s@,
            v@ == it.seq().take(it.index() as int),
    {
        v.push(c);
    }
    v
}

/// Whether two strings hold the same characters.
pub fn same_text(a: &str, b: &str) -> (r: bool)
    ensures
        r == (a@ == b@),
{
    let x = a.as_bytes();
    let y = b.as_bytes();
    proof {
        encode_utf8_decode_utf8(a@);
        encode_utf8_decode_utf8(b@);
    }
    if x.len() != y.len() {
        return false;
    }
    let mut i: usize = 0;
    while i < x.len()
        invariant
            i <= x.len(),
            x.len() == y.len(),
            (a@ == b@) == (x@ == y@),
            forall|k: int| 0 <= k < i ==> x@[k] == y@[k],
        decreases x.len() - i,
    {
        if x[i] != y[i] {
            return false;
        }
        i = i + 1;
    }
    assert(x@ =~= y@);
    true
}

/// Whether `s` begins with `prefix`.
pub fn starts_with(s: &str, prefix: &str) -> (r: bool)
    ensures
        r == prefix@.is_prefix_of(s@),
{
    let text = chars_of(s);
    let head = chars_of(prefix);
    if head.len() > text.len() {
        return false;
    }
    let mut i: usize = 0;
    while i < head.len()
        invariant
            i <= head.len() <= text.len(),
            head@ == prefix@,
            text@ == s@,
            forall|k: int| 0 <= k < i ==> head@[k] == text@[k],
        decreases head.len() - i,
    {
        if head[i] != text[i] {
            assert(text@.subrange(0, head@.len() as int)[i as int] == text@[i as int]);
            return false;
        }
        i = i + 1;
    }
    assert(head@ =~= text@.subrange(0, head@.len() as int));
    true
}

/// Whether `s` ends with `suffix`.
pub fn ends_with(s: &str, suffix: &str) -> (r: bool)
    ensures
        r == suffix@.is_suffix_of(s@),
{
    let text = chars_of(s);
    let tail = chars_of(suffix);
    if tail.len() > text.len() {
        return false;
    }
    let shift: usize = text.len() - tail.len();
    let mut i: usize = 0;
    while i < tail.len()
        invariant
            i <= tail.len() <= text.len(),
            shift == text.len() - tail.len(),
            tail@ == suffix@,
            text@ == s@,
            forall|k: int| 0 <= k < i ==> tail@[k] == text@[k + shift],
        decreases tail.len() - i,
    {
        if tail[i] != text[shift + i] {
            assert(text@.subrange(shift as int, text@.len() as int)[i as int] == text@[shift + i]);
            return false;
        }
        i = i + 1;
    }
    assert(tail@ =~= text@.subrange(shift as int, text@.len() as int));
    true
}

/// `n` spaces.
pub open spec fn spaces(n: nat) -> Seq<char> {
    Seq::new(n, |i: int| ' ')
}

/// `s` padded on the right with spaces up to `width` characters; longer text is left as it is.
pub open spec fn padded(s: Seq<char>, width: nat) -> Seq<char> {
    if s.len() >= width {
        s
    } else {
        s + spaces((width - s.len()) as nat)
    }
}

/// Left-aligns `s` in a field of `width` characters.
pub fn pad_right(s: &str, width: usize) -> (r: String)
    ensures
        r@ == padded(s@, width as nat),
{
    let mut out = String::from_str(s);
    let n: usize = s.unicode_len();
    let mut i: usize = n;
    proof {
        assert(out@ =~= s@ + spaces(0));
    }
    while i < width
        invariant
            n == s@.len(),
            n <= i,
            i <= width || i == n,
            out@ == s@ + spaces((i - n) as nat),
        decreases width - i,
    {
        proof {
            reveal_strlit(" ");
        }
        out.append(" ");
        i = i + 1;
        assert(out@ =~= s@ + spaces((i - n) as nat));
    }
    proof {
        if n >= width {
            assert(out@ =~= s@);
        }
    }
    out
}

/// `leaf` adjoined to the directory `base`, with the rules of Unix paths:
/// an absolute `leaf` stands alone, and a separator is put between the two
/// unless `base` is empty or already ends with one.
pub open spec fn joined(base: Seq<char>, leaf: Seq<char>) -> Seq<char> {
    if leaf.len() > 0 && leaf[0] == '/' {
        leaf
    } else if base.len() == 0 || base.last() == '/' {
        base + leaf
    } else {
        base + seq!['/'] + leaf
    }
}

/// Adjoins `leaf` to the directory `base`.
pub fn join_path(base: &str, leaf: &str) -> (r: String)
    ensures
        r@ == joined(base@, leaf@),
{
    let leaf_len: usize = leaf.unicode_len();
    if leaf_len > 0 && leaf.get_char(0) == '/' {
        return String::from_str(leaf);
    }
    let base_len: usize = base.unicode_len();
    let mut out = String::from_str(base);
    if base_len > 0 && base.get_char(base_len - 1) != '/' {
        proof {
            reveal_strlit("/");
        }
        out.append("/");
        assert(out@ =~= base@ + seq!['/']);
    }
    out.append(leaf);
    out
}

/// The order of byte strings: the first byte that differs decides, and a
/// proper prefix comes before what it is a prefix of.
pub open spec fn bytes_before(a: Seq<u8>, b: Seq<u8>) -> bool
    decreases a.len(),
{
    if b.len() == 0 {
        false
    } else if a.len() == 0 {
        true
    } else if a[0] != b[0] {
        a[0] < b[0]
    } else {
        bytes_before(a.drop_first(), b.drop_first())
    }
}

/// The order of names: that of their UTF-8 bytes.
pub open spec fn name_before(a: Seq<char>, b: Seq<char>) -> bool {
    bytes_before(encode_utf8(a), encode_utf8(b))
}

/// No byte string comes before itself.
pub proof fn lemma_bytes_before_irreflexive(a: Seq<u8>)
    ensures
        !bytes_before(a, a),
    decreases a.len(),
{
    if a.len() > 0 {
        lemma_bytes_before_irreflexive(a.drop_first());
    }
}

/// The order of byte strings is transitive.
pub proof fn lemma_bytes_before_transitive(a: Seq<u8>, b: Seq<u8>, c: Seq<u8>)
    requires
        bytes_before(a, b),
        bytes_before(b, c),
    ensures
        bytes_before(a, c),
    decreases a.len(),
{
    if a.len() > 0 && a[0] == b[0] && b[0] == c[0] {
        lemma_bytes_before_transitive(a.drop_first(), b.drop_first(), c.drop_first());
    }
}

/// Of two different byte strings one comes before the other.
pub proof fn lemma_bytes_before_total(a: Seq<u8>, b: Seq<u8>)
    ensures
        a == b || bytes_before(a, b) || bytes_before(b, a),
    decreases a.len(),
{
    if a.len() == 0 || b.len() == 0 {
        if a.len() == 0 && b.len() == 0 {
            assert(a =~= b);
        }
    } else if a[0] == b[0] {
        lemma_bytes_before_total(a.drop_first(), b.drop_first());
        if a.drop_first() == b.drop_first() {
            assert(a =~= seq![a[0]] + a.drop_first());
            assert(b =~= seq![b[0]] + b.drop_first());
        }
    }
}

/// Names are a strict total order: never before itself, transitive, and any
/// two different names are ordered one way or the other.
pub proof fn lemma_name_order(a: Seq<char>, b: Seq<char>, c: Seq<char>)
    ensures
        !name_before(a, a),
        name_before(a, b) && name_before(b, c) ==> name_before(a, c),
        a == b || name_before(a, b) || name_before(b, a),
        !(name_before(a, b) && name_before(b, a)),
{
    let x = encode_utf8(a);
    let y = encode_utf8(b);
    let z = encode_utf8(c);
    lemma_bytes_before_irreflexive(x);
    if bytes_before(x, y) && bytes_before(y, z) {
        lemma_bytes_before_transitive(x, y, z);
    }
    lemma_bytes_before_total(x, y);
    if x == y {
        encode_utf8_decode_utf8(a);
        encode_utf8_decode_utf8(b);
    }
    if bytes_before(x, y) && bytes_before(y, x) {
        lemma_bytes_before_transitive(x, y, x);
    }
}

/// Whether the name `a` sorts before the name `b`.
pub fn precedes(a: &str, b: &str) -> (r: bool)
    ensures
        r == name_before(a@, b@),
{
    let x = a.as_bytes();
    let y = b.as_bytes();
    let mut i: usize = 0;
    proof {
        assert(x@.skip(0) =~= x@);
        assert(y@.skip(0) =~= y@);
    }
    while i < x.len() && i < y.len()
        invariant
            i <= x.len(),
            i <= y.len(),
            x@ == encode_utf8(a@),
            y@ == encode_utf8(b@),
            bytes_before(x@, y@) == bytes_before(x@.skip(i as int), y@.skip(i as int)),
        decreases x.len() - i,
    {
        proof {
            assert(x@.skip(i as int).drop_first() =~= x@.skip(i + 1));
            assert(y@.skip(i as int).drop_first() =~= y@.skip(i + 1));
        }
        if x[i] != y[i] {
            return x[i] < y[i];
        }
        i = i + 1;
    }
    i < y.len()
}

/// How many characters stand at the start of `s` before the first white space.
pub open spec fn word_length(s: Seq<char>) -> int
    decreases s.len(),
{
    if s.len() == 0 || is_whitespace(s[0]) {
        0
    } else {
        1 + word_length(s.drop_first())
    }
}

/// A word is no longer than the text it starts, and not empty where the
/// text starts with a character that is no white space.
pub proof fn lemma_word_length_bounds(s: Seq<char>)
    ensures
        0 <= word_length(s) <= s.len(),
        s.len() > 0 && !is_whitespace(s[0]) ==> word_length(s) > 0,
    decreases s.len(),
{
    if s.len() > 0 && !is_whitespace(s[0]) {
        lemma_word_length_bounds(s.drop_first());
    }
}

/// The non-blank words of a line: its maximal runs of characters that are not white space.
pub open spec fn words(s: Seq<char>) -> Seq<Seq<char>>
    decreases s.len(),
{
    if s.len() == 0 {
        Seq::empty()
    } else if is_whitespace(s[0]) {
        words(s.drop_first())
    } else {
        proof {
            lemma_word_length_bounds(s);
        }
        seq![s.take(word_length(s))] + words(s.skip(word_length(s)))
    }
}

proof fn lemma_word_length(s: Seq<char>, n: int)
    requires
        0 <= n <= s.len(),
        forall|k: int| 0 <= k < n ==> !is_whitespace(s[k]),
        n == s.len() || is_whitespace(s[n]),
    ensures
        word_length(s) == n,
    decreases n,
{
    if n > 0 {
        lemma_word_length(s.drop_first(), n - 1);
    }
}

/// Splits a line into its non-blank words.
pub fn split_whitespace(line: &str) -> (out: Vec<String>)
    ensures
        out.deep_view() == words(line@),
{
    let text = chars_of(line);
    let mut out: Vec<String> = Vec::new();
    let ghost mut done: Seq<Seq<char>> = Seq::empty();
    let mut i: usize = 0;
    proof {
        assert(text@.skip(0) =~= text@);
        assert(done + words(text@) =~= words(text@));
    }
    while i < text.len()
        invariant
            i <= text.len(),
            text@ == line@,
            done.len() == out@.len(),
            forall|k: int| 0 <= k < out@.len() ==> (#[trigger] out@[k])@ == done[k],
            words(text@) == done + words(text@.skip(i as int)),
        decreases text.len() - i,
    {
        let ghost rest = text@.skip(i as int);
        if char_is_whitespace(text[i]) {
            proof {
                assert(rest.drop_first() =~= text@.skip(i + 1));
            }
            i = i + 1;
        } else {
            let start: usize = i;
            i = i + 1;
            while i < text.len() && !char_is_whitespace(text[i])
                invariant
                    start < i <= text.len(),
                    forall|k: int| start <= k < i ==> !is_whitespace(text@[k]),
                decreases text.len() - i,
            {
                i = i + 1;
            }
            let word = line.substring_char(start, i);
            proof {
                let n = i - start;
                lemma_word_length(rest, n);
                assert(rest.take(n) =~= line@.subrange(start as int, i as int));
                assert(rest.skip(n) =~= text@.skip(i as int));
                assert(done + (seq![rest.take(n)] + words(rest.skip(n))) =~= done.push(
                    rest.take(n),
                ) + words(rest.skip(n)));
                done = done.push(rest.take(n));
            }
            out.push(String::from_str(word));
        }
    }
    proof {
        assert(text@.skip(i as int) =~= Seq::<char>::empty());
        assert(done + Seq::<Seq<char>>::empty() =~= done);
        assert(out.deep_view() =~= done);
    }
    out
}

/// The width of the widest of some texts, counted in UTF-8 bytes; 0 where there is none.
pub open spec fn widest(texts: Seq<Seq<char>>) -> nat
    decreases texts.len(),
{
    if texts.len() == 0 {
        0
    } else if widest(texts.drop_last()) >= encode_utf8(texts.last()).len() {
        widest(texts.drop_last())
    } else {
        encode_utf8(texts.last()).len()
    }
}

} // verus!
