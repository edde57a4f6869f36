//! Text: comparison, assembly, numbers, white space, words and search.

use vstd::prelude::*;
use vstd::string::*;
use vstd::utf8::*;

verus! {

// ---------------------------------------------------------------------------
// Comparison and assembly
// ---------------------------------------------------------------------------

/// Appends one character: `std::string::String::push`.
///
/// Claimed: the string then holds what it held, followed by that character.
pub assume_specification[ String::push ](s: &mut String, ch: char)
    ensures
        final(s)@ == old(s)@.push(ch),
;

/// Two encodings are equal exactly when the texts are.
proof fn lemma_encoding_is_injective(a: Seq<char>, b: Seq<char>)
    ensures
        encode_utf8(a) == encode_utf8(b) <==> a == b,
{
    encode_utf8_decode_utf8(a);
    encode_utf8_decode_utf8(b);
}

/// Whether two strings hold the same characters.
pub fn same_text(a: &str, b: &str) -> (r: bool)
    ensures
        r == (a@ == b@),
{
    proof {
        lemma_encoding_is_injective(a@, b@);
    }
    let x: &[u8] = a.as_bytes();
    let y: &[u8] = b.as_bytes();
    if x.len() != y.len() {
        return false;
    }
    let mut i: usize = 0;
    while i < x.len()
        invariant
            i <= x.len(),
            x@.len() == y@.len(),
            forall|j: int| 0 <= j < i ==> x@[j] == y@[j],
            x@ == encode_utf8(a@),
            y@ == encode_utf8(b@),
            encode_utf8(a@) == encode_utf8(b@) <==> a@ == b@,
        decreases x.len() - i,
    {
        if x[i] != y[i] {
            return false;
        }
        i += 1;
    }
    assert(x@ =~= y@);
    true
}

/// The string followed by a further piece.
pub fn plus(s: String, t: &str) -> (r: String)
    ensures
        r@ == s@ + t@,
{
    let mut r = s;
    r.append(t);
    r
}

/// The characters of a string.
pub fn characters(s: &str) -> (r: Vec<char>)
    ensures
        r@ == s@,
{
    let mut r: Vec<char> = Vec::new();
    for c in it: s.chars()
        invariant
            r@ == it.seq().take(it.index() as int),
            it.seq() == s@,
    {
        r.push(c);
        assert(it.seq().take(it.index() as int).push(c) =~= it.seq().take(it.index() as int + 1));
    }
    assert(r@ =~= s@);
    r
}

/// The string of the characters from `from` up to, and without, `to`.
pub fn text_of(chars: &Vec<char>, from: usize, to: usize) -> (r: String)
    requires
        from <= to <= chars@.len(),
    ensures
        r@ == chars@.subrange(from as int, to as int),
{
    let mut r = String::new();
    let mut i: usize = from;
    while i < to
        invariant
            from <= i <= to <= chars@.len(),
            r@ == chars@.subrange(from as int, i as int),
        decreases to - i,
    {
        r.push(chars[i]);
        assert(chars@.subrange(from as int, i as int).push(chars@[i as int])
            =~= chars@.subrange(from as int, i as int + 1));
        i += 1;
    }
    r
}

/// Whether a text comes before another in the order of their characters, the
/// first that differ deciding. A text comes before all that it starts.
pub open spec fn sorts_before(a: Seq<char>, b: Seq<char>) -> bool
    decreases a.len(),
{
    if b.len() == 0 {
        false
    } else if a.len() == 0 {
        true
    } else if a[0] == b[0] {
        sorts_before(a.drop_first(), b.drop_first())
    } else {
        a[0] < b[0]
    }
}

/// The first `n` characters, or all of them where there are fewer.
pub open spec fn prefix(s: Seq<char>, n: nat) -> Seq<char> {
    if s.len() <= n {
        s
    } else {
        s.take(n as int)
    }
}

/// The string of the first `n` characters, or of all where there are fewer.
pub fn first_characters(s: &str, n: usize) -> (r: String)
    ensures
        r@ == prefix(s@, n as nat),
{
    let chars = characters(s);
    let end: usize = if chars.len() < n { chars.len() } else { n };
    let r = text_of(&chars, 0, end);
    assert(r@ =~= prefix(s@, n as nat));
    r
}

/// The views of a list of strings.
pub open spec fn views(list: Seq<String>) -> Seq<Seq<char>> {
    list.map_values(|s: String| s@)
}

/// The strings of a list of literals.
pub fn strings(list: Vec<&str>) -> (r: Vec<String>)
    ensures
        r@.len() == list@.len(),
        forall|i: int| 0 <= i < r@.len() ==> (#[trigger] views(r@)[i]) == list@[i]@,
{
    let mut r: Vec<String> = Vec::new();
    let mut i: usize = 0;
    while i < list.len()
        invariant
            i <= list@.len(),
            r@.len() == i,
            forall|j: int| 0 <= j < i ==> (#[trigger] r@[j])@ == list@[j]@,
        decreases list.len() - i,
    {
        r.push(list[i].to_string());
        i += 1;
    }
    r
}

/// The pieces one after the other, with the separator between each two.
pub open spec fn joined(pieces: Seq<Seq<char>>, separator: Seq<char>) -> Seq<char>
    decreases pieces.len(),
{
    if pieces.len() == 0 {
        Seq::empty()
    } else if pieces.len() == 1 {
        pieces[0]
    } else {
        joined(pieces.drop_last(), separator) + separator + pieces.last()
    }
}

/// Joins strings with a separator.
pub fn join(pieces: &Vec<String>, separator: &str) -> (r: String)
    ensures
        r@ == joined(views(pieces@), separator@),
{
    let mut r = String::new();
    let mut i: usize = 0;
    while i < pieces.len()
        invariant
            i <= pieces@.len(),
            r@ == joined(views(pieces@).take(i as int), separator@),
        decreases pieces.len() - i,
    {
        let ghost part = views(pieces@).take(i as int + 1);
        assert(part.drop_last() =~= views(pieces@).take(i as int));
        if i > 0 {
            r.append(separator);
        }
        let ghost so_far = r@;
        r.append(pieces[i].as_str());
        proof {
            if i == 0 {
                assert(part.len() == 1);
                assert(r@ =~= part[0]);
            }
        }
        i += 1;
    }
    assert(views(pieces@).take(pieces@.len() as int) =~= views(pieces@));
    r
}

/// The lengths, in bytes of UTF-8, that a text takes up.
pub open spec fn byte_len(s: Seq<char>) -> nat {
    encode_utf8(s).len()
}

/// The text whose encoding is the first `n` bytes of another's.
pub open spec fn cut(s: Seq<char>, n: nat) -> Seq<char> {
    decode_utf8(encode_utf8(s).subrange(0, n as int))
}

/// Whether a character of the text starts, or the text ends, at byte `n`.
pub open spec fn can_cut(s: Seq<char>, n: nat) -> bool {
    is_char_boundary(encode_utf8(s), n as int)
}

/// Two texts one after the other take up as many bytes as both.
pub proof fn lemma_byte_len_adds(a: Seq<char>, b: Seq<char>)
    ensures
        byte_len(a + b) == byte_len(a) + byte_len(b),
    decreases a.len(),
{
    if a.len() == 0 {
        assert(a + b =~= b);
    } else {
        assert((a + b).drop_first() =~= a.drop_first() + b);
        lemma_byte_len_adds(a.drop_first(), b);
    }
}

/// The copies of a list of strings.
pub fn copy_strings(list: &Vec<String>) -> (r: Vec<String>)
    ensures
        r@ == list@,
{
    let mut r: Vec<String> = Vec::new();
    let mut i: usize = 0;
    while i < list.len()
        invariant
            i <= list@.len(),
            r@ == list@.take(i as int),
        decreases list.len() - i,
    {
        r.push(list[i].clone());
        assert(list@.take(i as int).push(list@[i as int]) =~= list@.take(i as int + 1));
        i += 1;
    }
    assert(r@ =~= list@);
    r
}

// ---------------------------------------------------------------------------
// Numbers
// ---------------------------------------------------------------------------

/// The decimal digit of a number below ten.
pub open spec fn digit(n: nat) -> char {
    if n == 0 {
        '0'
    } else if n == 1 {
        '1'
    } else if n == 2 {
        '2'
    } else if n == 3 {
        '3'
    } else if n == 4 {
        '4'
    } else if n == 5 {
        '5'
    } else if n == 6 {
        '6'
    } else if n == 7 {
        '7'
    } else if n == 8 {
        '8'
    } else {
        '9'
    }
}

/// A number in decimal, without leading zeros.
pub open spec fn decimal(n: nat) -> Seq<char>
    decreases n,
{
    if n < 10 {
        seq![digit(n)]
    } else {
        decimal(n / 10).push(digit(n % 10))
    }
}

/// A number in decimal, with a sign where it is negative.
pub open spec fn signed_decimal(n: int) -> Seq<char> {
    if n < 0 {
        seq!['-'] + decimal((-n) as nat)
    } else {
        decimal(n as nat)
    }
}

/// `n` times the same character.
pub open spec fn repeated(c: char, n: nat) -> Seq<char> {
    Seq::new(n, |i: int| c)
}

/// A number in decimal, filled up with leading zeros to the width.
pub open spec fn zero_padded(n: nat, width: nat) -> Seq<char> {
    let d = decimal(n);
    if d.len() >= width {
        d
    } else {
        repeated('0', (width - d.len()) as nat) + d
    }
}

fn digit_char(n: u64) -> (c: char)
    requires
        n < 10,
    ensures
        c == digit(n as nat),
{
    if n == 0 {
        '0'
    } else if n == 1 {
        '1'
    } else if n == 2 {
        '2'
    } else if n == 3 {
        '3'
    } else if n == 4 {
        '4'
    } else if n == 5 {
        '5'
    } else if n == 6 {
        '6'
    } else if n == 7 {
        '7'
    } else if n == 8 {
        '8'
    } else {
        '9'
    }
}

/// The number in decimal.
pub fn decimal_text(n: u64) -> (r: String)
    ensures
        r@ == decimal(n as nat),
    decreases n,
{
    let mut r = if n < 10 { String::new() } else { decimal_text(n / 10) };
    r.push(digit_char(n % 10));
    assert(n < 10 ==> r@ =~= seq![digit(n as nat)]);
    r
}

/// The number in decimal, with a sign where it is negative.
pub fn signed_text(n: i32) -> (r: String)
    ensures
        r@ == signed_decimal(n as int),
{
    if n < 0 {
        proof {
            reveal_strlit("-");
        }
        assert("-"@ =~= seq!['-']);
        plus("-".to_string(), decimal_text((-(n as i64)) as u64).as_str())
    } else {
        decimal_text(n as u64)
    }
}

/// `n` copies of a character.
pub fn repeat(c: char, n: usize) -> (r: String)
    ensures
        r@ == repeated(c, n as nat),
{
    let mut r = String::new();
    let mut i: usize = 0;
    while i < n
        invariant
            i <= n,
            r@ == repeated(c, i as nat),
        decreases n - i,
    {
        r.push(c);
        assert(r@ =~= repeated(c, i as nat + 1));
        i += 1;
    }
    r
}

/// The number in decimal, filled up with leading zeros to the width.
pub fn zero_padded_text(n: u64, width: usize) -> (r: String)
    ensures
        r@ == zero_padded(n as nat, width as nat),
{
    let d = decimal_text(n);
    let len: usize = d.as_str().unicode_len();
    if len >= width {
        d
    } else {
        plus(repeat('0', width - len), d.as_str())
    }
}

/// The text, filled up with spaces behind to the width in characters.
pub open spec fn left_aligned(s: Seq<char>, width: nat) -> Seq<char> {
    if s.len() >= width {
        s
    } else {
        s + repeated(' ', (width - s.len()) as nat)
    }
}

/// Fills the text up with spaces behind to the width in characters.
pub fn left_aligned_text(s: &str, width: usize) -> (r: String)
    ensures
        r@ == left_aligned(s@, width as nat),
{
    let len: usize = s.unicode_len();
    if len >= width {
        s.to_string()
    } else {
        plus(s.to_string(), repeat(' ', width - len).as_str())
    }
}

/// The value of a decimal digit; `None` of any other character.
pub open spec fn digit_value(c: char) -> Option<nat> {
    if '0' <= c && c <= '9' {
        Some((c as u32 - '0' as u32) as nat)
    } else {
        None
    }
}

/// The number that a sequence of decimal digits writes. The empty sequence is
/// zero; anything but digits is no number.
pub open spec fn digits_value(s: Seq<char>) -> Option<nat>
    decreases s.len(),
{
    if s.len() == 0 {
        Some(0)
    } else {
        match (digits_value(s.drop_last()), digit_value(s.last())) {
            (Some(n), Some(d)) => Some(n * 10 + d),
            _ => None,
        }
    }
}

/// The number that a text writes: at least one decimal digit, behind an
/// optional plus sign, and no more than the limit.
pub open spec fn number_in(s: Seq<char>, limit: nat) -> Option<nat> {
    let body = if s.len() > 0 && s[0] == '+' {
        s.skip(1)
    } else {
        s
    };
    if body.len() == 0 {
        None
    } else {
        match digits_value(body) {
            Some(n) => if n <= limit {
                Some(n)
            } else {
                None
            },
            None => None,
        }
    }
}

proof fn lemma_digits_prefix(s: Seq<char>, i: int)
    requires
        0 <= i <= s.len(),
    ensures
        digits_value(s.take(i)) is None ==> digits_value(s) is None,
        digits_value(s.take(i)) is Some && digits_value(s) is Some ==> digits_value(s.take(i))->0
            <= digits_value(s)->0,
    decreases s.len(),
{
    if i == s.len() {
        assert(s.take(i) =~= s);
    } else {
        lemma_digits_prefix(s.drop_last(), i);
        assert(s.drop_last().take(i) =~= s.take(i));
    }
}

/// Reads a number that is no more than the limit.
pub fn parse_number(s: &str, limit: u64) -> (r: Option<u64>)
    ensures
        match r {
            Some(n) => number_in(s@, limit as nat) == Some(n as nat),
            None => number_in(s@, limit as nat) is None,
        },
{
    let chars = characters(s);
    let start: usize = if chars.len() > 0 && chars[0] == '+' { 1 } else { 0 };
    let ghost body = if start == 1 {
        s@.skip(1)
    } else {
        s@
    };
    assert(body =~= s@.skip(start as int));
    if start == chars.len() {
        return None;
    }
    let mut n: u64 = 0;
    let mut i: usize = start;
    while i < chars.len()
        invariant
            start <= i <= chars@.len(),
            chars@ == s@,
            body == s@.skip(start as int),
            body.len() > 0,
            number_in(s@, limit as nat) == (match digits_value(body) {
                Some(m) => if m <= limit {
                    Some(m)
                } else {
                    None
                },
                None => None::<nat>,
            }),
            digits_value(body.take(i - start)) == Some(n as nat),
            n <= limit,
        decreases chars.len() - i,
    {
        let c = chars[i];
        let ghost k = i - start + 1;
        proof {
            assert(body.take(k).drop_last() =~= body.take(k - 1));
            assert(body.take(k).last() == c);
            lemma_digits_prefix(body, k);
        }
        if c < '0' || c > '9' {
            return None;
        }
        let d: u64 = (c as u32 - '0' as u32) as u64;
        if n > (u64::MAX - d) / 10 {
            assert(n as nat * 10 + d > u64::MAX);
            return None;
        }
        n = n * 10 + d;
        if n > limit {
            return None;
        }
        i += 1;
    }
    assert(body.take(i - start) =~= body);
    Some(n)
}

// ---------------------------------------------------------------------------
// White space and words
// ---------------------------------------------------------------------------

/// The characters with the Unicode property White_Space.
pub open spec fn is_space(c: char) -> bool {
    ||| '\u{9}' <= c && c <= '\u{d}'
    ||| c == ' '
    ||| c == '\u{85}'
    ||| c == '\u{a0}'
    ||| c == '\u{1680}'
    ||| '\u{2000}' <= c && c <= '\u{200a}'
    ||| c == '\u{2028}'
    ||| c == '\u{2029}'
    ||| c == '\u{202f}'
    ||| c == '\u{205f}'
    ||| c == '\u{3000}'
}

fn space(c: char) -> (r: bool)
    ensures
        r == is_space(c),
{
    ('\u{9}' <= c && c <= '\u{d}') || c == ' ' || c == '\u{85}' || c == '\u{a0}' || c == '\u{1680}'
        || ('\u{2000}' <= c && c <= '\u{200a}') || c == '\u{2028}' || c == '\u{2029}' || c
        == '\u{202f}' || c == '\u{205f}' || c == '\u{3000}'
}

/// The text without the white space before it.
pub open spec fn trimmed_start(s: Seq<char>) -> Seq<char>
    decreases s.len(),
{
    if s.len() > 0 && is_space(s[0]) {
        trimmed_start(s.drop_first())
    } else {
        s
    }
}

/// The text without the white space behind it.
pub open spec fn trimmed_end(s: Seq<char>) -> Seq<char>
    decreases s.len(),
{
    if s.len() > 0 && is_space(s.last()) {
        trimmed_end(s.drop_last())
    } else {
        s
    }
}

/// The text without the white space around it.
pub open spec fn trimmed(s: Seq<char>) -> Seq<char> {
    trimmed_end(trimmed_start(s))
}

/// The text without the white space around it.
pub fn trim<'a>(s: &'a str) -> (r: &'a str)
    ensures
        r@ == trimmed(s@),
{
    let chars = characters(s);
    let mut lo: usize = 0;
    assert(s@.skip(0) =~= s@);
    while lo < chars.len() && space(chars[lo])
        invariant
            lo <= chars@.len(),
            chars@ == s@,
            trimmed_start(s@) == trimmed_start(s@.skip(lo as int)),
        decreases chars.len() - lo,
    {
        assert(s@.skip(lo as int).drop_first() =~= s@.skip(lo as int + 1));
        lo += 1;
    }
    let ghost t = s@.skip(lo as int);
    assert(trimmed_start(s@) == t);
    let mut hi: usize = chars.len();
    assert(t.take(hi - lo) =~= t);
    while hi > lo && space(chars[hi - 1])
        invariant
            lo <= hi <= chars@.len(),
            chars@ == s@,
            t == s@.skip(lo as int),
            trimmed_end(t) == trimmed_end(t.take(hi - lo)),
        decreases hi,
    {
        assert(t.take(hi - lo).drop_last() =~= t.take(hi - lo - 1));
        assert(t.take(hi - lo).last() == chars@[hi - 1]);
        hi -= 1;
    }
    assert(t.take(hi - lo) =~= s@.subrange(lo as int, hi as int));
    assert(hi > lo ==> t.take(hi - lo).last() == chars@[hi - 1]);
    s.substring_char(lo, hi)
}

/// How many characters come before the first white space.
pub open spec fn word_len(s: Seq<char>) -> nat
    decreases s.len(),
{
    if s.len() > 0 && !is_space(s[0]) {
        1 + word_len(s.drop_first())
    } else {
        0
    }
}

/// A word is no longer than the text that it starts.
pub proof fn lemma_word_len(s: Seq<char>)
    ensures
        word_len(s) <= s.len(),
    decreases s.len(),
{
    if s.len() > 0 && !is_space(s[0]) {
        lemma_word_len(s.drop_first());
    }
}

/// What is left of a text without the white space before it.
pub proof fn lemma_trimmed_start(s: Seq<char>)
    ensures
        trimmed_start(s).len() <= s.len(),
        trimmed_start(s).len() > 0 ==> !is_space(trimmed_start(s)[0]),
    decreases s.len(),
{
    if s.len() > 0 && is_space(s[0]) {
        lemma_trimmed_start(s.drop_first());
    }
}

proof fn lemma_trimmed_end(s: Seq<char>)
    ensures
        trimmed_end(s).len() <= s.len(),
        trimmed_end(s).len() > 0 ==> trimmed_end(s)[0] == s[0] && !is_space(trimmed_end(s).last()),
    decreases s.len(),
{
    if s.len() > 0 && is_space(s.last()) {
        lemma_trimmed_end(s.drop_last());
    }
}

/// There is nothing more to trim from a trimmed text.
pub proof fn lemma_trimmed_twice(s: Seq<char>)
    ensures
        trimmed(trimmed(s)) == trimmed(s),
{
    lemma_trimmed_start(s);
    lemma_trimmed_end(trimmed_start(s));
}

/// The words of a text: its longest pieces without white space, in order.
pub open spec fn words(s: Seq<char>) -> Seq<Seq<char>>
    decreases s.len(),
{
    let t = trimmed_start(s);
    if t.len() == 0 {
        Seq::empty()
    } else {
        proof {
            lemma_trimmed_start(s);
            lemma_word_len(t);
        }
        seq![t.take(word_len(t) as int)] + words(t.skip(word_len(t) as int))
    }
}

proof fn lemma_word_ends(s: Seq<char>, n: int)
    requires
        0 <= n <= s.len(),
        forall|j: int| 0 <= j < n ==> !is_space(#[trigger] s[j]),
        n < s.len() ==> is_space(s[n]),
    ensures
        word_len(s) == n,
    decreases n,
{
    if n > 0 {
        assert forall|j: int| 0 <= j < n - 1 implies !is_space(#[trigger] s.drop_first()[j]) by {
            assert(s.drop_first()[j] == s[j + 1]);
        }
        lemma_word_ends(s.drop_first(), n - 1);
    }
}

/// Splits a text into its words.
pub fn split_words(s: &str) -> (r: Vec<String>)
    ensures
        views(r@) == words(s@),
{
    let chars = characters(s);
    let mut out: Vec<String> = Vec::new();
    let mut i: usize = 0;
    assert(s@.skip(0) =~= s@);
    assert(views(out@) + words(s@) =~= words(s@));
    while i < chars.len()
        invariant
            i <= chars@.len(),
            chars@ == s@,
            words(s@) == views(out@) + words(s@.skip(i as int)),
        decreases chars.len() - i,
    {
        let ghost rest = s@.skip(i as int);
        if space(chars[i]) {
            assert(rest.drop_first() =~= s@.skip(i as int + 1));
            assert(trimmed_start(rest) == trimmed_start(rest.drop_first()));
            assert(words(rest) =~= words(rest.drop_first()));
            i += 1;
        } else {
            let start: usize = i;
            while i < chars.len() && !space(chars[i])
                invariant
                    start <= i <= chars@.len(),
                    start < chars@.len(),
                    chars@ == s@,
                    !is_space(chars@[start as int]),
                    rest == s@.skip(start as int),
                    forall|j: int| 0 <= j < i - start ==> !is_space(#[trigger] rest[j]),
                decreases chars.len() - i,
            {
                assert(rest[i - start] == chars@[i as int]);
                i += 1;
            }
            proof {
                assert(i < s@.len() ==> rest[i - start] == s@[i as int]);
                lemma_word_ends(rest, i - start);
                assert(trimmed_start(rest) == rest) by {
                    assert(rest[0] == chars@[start as int]);
                }
                assert(i > start) by {
                    if i == start {
                        assert(rest[0] == chars@[start as int]);
                    }
                }
                assert(rest.take(i - start) =~= s@.subrange(start as int, i as int));
                assert(rest.skip(i - start) =~= s@.skip(i as int));
            }
            let ghost before = out@;
            out.push(text_of(&chars, start, i));
            assert(views(out@) =~= views(before).push(s@.subrange(start as int, i as int)));
            assert(views(before) + (seq![s@.subrange(start as int, i as int)] + words(
                s@.skip(i as int),
            )) =~= views(out@) + words(s@.skip(i as int)));
        }
    }
    assert(s@.skip(i as int) =~= Seq::empty());
    assert(words(s@.skip(i as int)) =~= Seq::empty());
    assert(views(out@) =~= words(s@));
    out
}

// ---------------------------------------------------------------------------
// Search
// ---------------------------------------------------------------------------

/// Whether the pattern stands in the text at that place.
pub open spec fn occurs_at(s: Seq<char>, pattern: Seq<char>, i: int) -> bool {
    &&& 0 <= i
    &&& i + pattern.len() <= s.len()
    &&& s.subrange(i, i + pattern.len()) == pattern
}

/// The first place, not before `from`, at which the pattern stands in the text.
pub open spec fn found(s: Seq<char>, pattern: Seq<char>, from: int) -> Option<int>
    decreases s.len() + 1 - from,
{
    if from < 0 || from + pattern.len() > s.len() {
        None
    } else if occurs_at(s, pattern, from) {
        Some(from)
    } else {
        found(s, pattern, from + 1)
    }
}

/// Whether the pattern stands somewhere in the text.
pub open spec fn contains(s: Seq<char>, pattern: Seq<char>) -> bool {
    exists|i: int| #[trigger] occurs_at(s, pattern, i)
}

pub proof fn lemma_found(s: Seq<char>, pattern: Seq<char>, from: int)
    requires
        0 <= from,
    ensures
        match found(s, pattern, from) {
            Some(i) => from <= i && occurs_at(s, pattern, i) && forall|j: int|
                from <= j < i ==> !#[trigger] occurs_at(s, pattern, j),
            None => forall|j: int| from <= j ==> !#[trigger] occurs_at(s, pattern, j),
        },
    decreases s.len() + 1 - from,
{
    if from + pattern.len() <= s.len() && !occurs_at(s, pattern, from) {
        lemma_found(s, pattern, from + 1);
    }
}

fn matches_at(chars: &Vec<char>, pattern: &Vec<char>, i: usize) -> (r: bool)
    requires
        i + pattern@.len() <= chars@.len(),
    ensures
        r == occurs_at(chars@, pattern@, i as int),
{
    let end: usize = chars.len();
    let mut k: usize = 0;
    while k < pattern.len()
        invariant
            k <= pattern@.len(),
            i + pattern@.len() <= chars@.len() == end,
            forall|j: int| 0 <= j < k ==> chars@[i + j] == pattern@[j],
        decreases pattern.len() - k,
    {
        if chars[i + k] != pattern[k] {
            assert(chars@.subrange(i as int, i + pattern@.len())[k as int] != pattern@[k as int]);
            return false;
        }
        k += 1;
    }
    assert(chars@.subrange(i as int, i + pattern@.len()) =~= pattern@);
    true
}

/// Finds the first place, not before `from`, at which the pattern stands.
pub fn find(chars: &Vec<char>, pattern: &str, from: usize) -> (r: Option<usize>)
    requires
        from <= chars@.len(),
    ensures
        match r {
            Some(i) => found(chars@, pattern@, from as int) == Some(i as int) && from <= i && i
                + pattern@.len() <= chars@.len(),
            None => found(chars@, pattern@, from as int) is None,
        },
{
    let p = characters(pattern);
    let mut i: usize = from;
    while i <= chars.len() && p.len() <= chars.len() - i
        invariant
            from <= i <= chars@.len() + 1,
            p@ == pattern@,
            found(chars@, pattern@, from as int) == found(chars@, pattern@, i as int),
        decreases chars.len() + 1 - i,
    {
        if matches_at(chars, &p, i) {
            return Some(i);
        }
        if i == chars.len() {
            assert(found(chars@, pattern@, i as int + 1) is None);
            return None;
        }
        i += 1;
    }
    None
}

/// Replaces each occurrence of the character by the text.
pub open spec fn replaced(s: Seq<char>, c: char, by: Seq<char>) -> Seq<char>
    decreases s.len(),
{
    if s.len() == 0 {
        Seq::empty()
    } else if s.last() == c {
        replaced(s.drop_last(), c, by) + by
    } else {
        replaced(s.drop_last(), c, by).push(s.last())
    }
}

/// Replaces each occurrence of the character by the text.
pub fn replace(s: &str, c: char, by: &str) -> (r: String)
    ensures
        r@ == replaced(s@, c, by@),
{
    let chars = characters(s);
    let mut out = String::new();
    let mut i: usize = 0;
    while i < chars.len()
        invariant
            i <= chars@.len(),
            chars@ == s@,
            out@ == replaced(s@.take(i as int), c, by@),
        decreases chars.len() - i,
    {
        assert(s@.take(i as int + 1).drop_last() =~= s@.take(i as int));
        if chars[i] == c {
            out.append(by);
        } else {
            out.push(chars[i]);
        }
        i += 1;
    }
    assert(s@.take(s@.len() as int) =~= s@);
    out
}

// ---------------------------------------------------------------------------
// Laws
// ---------------------------------------------------------------------------

/// Each character of a number in decimal is the digit of its place: the last
/// one writes what is left of the number modulo ten, and those before it write
/// the number divided by ten. There is no leading zero.
pub proof fn law_decimal_digits(n: nat)
    ensures
        decimal(n).len() > 0,
        decimal(n).last() as u32 == 48 + n % 10,
        n >= 10 ==> decimal(n).drop_last() == decimal(n / 10),
        n < 10 ==> decimal(n).len() == 1,
        n > 0 ==> decimal(n)[0] != '0',
        forall|i: int| 0 <= i < decimal(n).len() ==> '0' <= (#[trigger] decimal(n)[i]) <= '9',
    decreases n,
{
    lemma_digit(n % 10);
    if n >= 10 {
        law_decimal_digits(n / 10);
        assert(decimal(n).drop_last() =~= decimal(n / 10));
        assert(decimal(n)[0] == decimal(n / 10)[0]);
        assert forall|i: int| 0 <= i < decimal(n).len() implies '0' <= (#[trigger] decimal(n)[i])
            <= '9' by {
            if i < decimal(n).len() - 1 {
                assert(decimal(n)[i] == decimal(n / 10)[i]);
            }
        }
    }
}

proof fn lemma_digit(d: nat)
    requires
        d < 10,
    ensures
        digit(d) as u32 == 48 + d,
        '0' <= digit(d) <= '9',
        digit_value(digit(d)) == Some(d),
        d > 0 ==> digit(d) != '0',
{
}

/// A number that was written is read back, whatever leading zeros or plus sign
/// stand before it, as long as it is within the limit.
pub proof fn law_numbers_are_read_back(n: nat, limit: nat, width: nat)
    ensures
        digits_value(decimal(n)) == Some(n),
        digits_value(zero_padded(n, width)) == Some(n),
        number_in(decimal(n), limit) == if n <= limit {
            Some(n)
        } else {
            None
        },
        number_in(seq!['+'] + decimal(n), limit) == number_in(decimal(n), limit),
        number_in(zero_padded(n, width), limit) == number_in(decimal(n), limit),
{
    lemma_decimal_is_read_back(n);
    law_decimal_digits(n);
    let d = decimal(n);
    assert(d[0] != '+');
    assert((seq!['+'] + d).skip(1) =~= d);
    let z = zero_padded(n, width);
    if d.len() < width {
        lemma_leading_zeros((width - d.len()) as nat, d);
        assert(z[0] == '0');
    }
}

proof fn lemma_decimal_is_read_back(n: nat)
    ensures
        digits_value(decimal(n)) == Some(n),
    decreases n,
{
    lemma_digit(n % 10);
    if n >= 10 {
        lemma_decimal_is_read_back(n / 10);
        assert(decimal(n).drop_last() =~= decimal(n / 10));
    } else {
        assert(decimal(n).drop_last() =~= Seq::empty());
        assert(digits_value(decimal(n).drop_last()) == Some(0nat));
    }
}

proof fn lemma_leading_zeros(k: nat, d: Seq<char>)
    ensures
        digits_value(repeated('0', k) + d) == digits_value(d),
    decreases k + d.len(),
{
    let s = repeated('0', k) + d;
    if d.len() == 0 {
        if k > 0 {
            assert(s.drop_last() =~= repeated('0', (k - 1) as nat) + d);
            lemma_leading_zeros((k - 1) as nat, d);
        }
    } else {
        assert(s.drop_last() =~= repeated('0', k) + d.drop_last());
        lemma_leading_zeros(k, d.drop_last());
    }
}

/// A text in which anything but a decimal digit stands is no number, and one
/// of digits writes ten times what the digits before the last write, plus the
/// last.
pub proof fn law_only_digits_write_a_number(s: Seq<char>, c: char)
    ensures
        digits_value(Seq::<char>::empty()) == Some(0nat),
        digits_value(s.push(c)) is Some <==> digits_value(s) is Some && '0' <= c <= '9',
        digits_value(s.push(c)) is Some ==> digits_value(s.push(c))->0 == 10 * digits_value(s)->0
            + (c as u32 - 48),
{
    assert(s.push(c).drop_last() =~= s);
}

/// A filled-up number is as long as the width asks, or longer where the number
/// is; it ends with the number, and zeros stand before.
pub proof fn law_padding_puts_zeros_before_the_number(n: nat, width: nat)
    ensures
        zero_padded(n, width).len() == if decimal(n).len() > width {
            decimal(n).len()
        } else {
            width
        },
        zero_padded(n, width).skip(zero_padded(n, width).len() - decimal(n).len()) == decimal(n),
        forall|i: int|
            0 <= i < zero_padded(n, width).len() - decimal(n).len() ==> (#[trigger] zero_padded(
                n,
                width,
            )[i]) == '0',
{
    let z = zero_padded(n, width);
    assert(z.skip(z.len() - decimal(n).len()) =~= decimal(n));
}

/// A number below zero is its size behind a minus sign.
pub proof fn law_signs(n: int)
    ensures
        n >= 0 ==> signed_decimal(n) == decimal(n as nat),
        n < 0 ==> signed_decimal(n) == seq!['-'] + decimal((0 - n) as nat),
{
}

/// Texts are joined in order, with the separator between each two and nowhere
/// else.
pub proof fn law_joining(pieces: Seq<Seq<char>>, last: Seq<char>, separator: Seq<char>)
    ensures
        joined(Seq::empty(), separator) == Seq::<char>::empty(),
        joined(seq![last], separator) == last,
        pieces.len() > 0 ==> joined(pieces.push(last), separator) == joined(pieces, separator)
            + separator + last,
{
    reveal_with_fuel(joined, 2);
    assert(pieces.push(last).drop_last() =~= pieces);
    assert(seq![last].drop_last() =~= Seq::<Seq<char>>::empty());
    assert(joined(seq![last], separator) =~= last);
}

/// What is left of a text that is cut to some characters are its first ones, in
/// order, and as many as there are.
pub proof fn law_prefixes(s: Seq<char>, n: nat)
    ensures
        prefix(s, n).len() == if s.len() < n {
            s.len()
        } else {
            n
        },
        forall|i: int| 0 <= i < prefix(s, n).len() ==> (#[trigger] prefix(s, n)[i]) == s[i],
{
}

/// Trimming takes away white space only, and all of it at both ends: the text
/// is what is left with white space around it, and what is left neither starts
/// nor ends with any.
pub proof fn law_trimming(s: Seq<char>)
    ensures
        exists|a: int, b: int|
            0 <= a <= b <= s.len() && trimmed(s) == #[trigger] s.subrange(a, b) && (forall|i: int|
                0 <= i < a || b <= i < s.len() ==> is_space(#[trigger] s[i])),
        trimmed(s).len() > 0 ==> !is_space(trimmed(s)[0]) && !is_space(trimmed(s).last()),
{
    lemma_trimmed_start(s);
    lemma_trimmed_end(trimmed_start(s));
    lemma_start_is_cut(s);
    let t = trimmed_start(s);
    lemma_end_is_cut(t);
    let a = s.len() - t.len();
    let b = a + trimmed(s).len();
    assert(trimmed(s) =~= s.subrange(a, b)) by {
        assert(trimmed(s) == t.take(trimmed(s).len() as int));
        assert(t == s.skip(a));
    }
    assert forall|i: int| 0 <= i < a || b <= i < s.len() implies is_space(#[trigger] s[i]) by {
        if i >= b {
            assert(s[i] == t[i - a]);
        }
    }
    assert(trimmed(s) == s.subrange(a, b));
}

proof fn lemma_start_is_cut(s: Seq<char>)
    ensures
        trimmed_start(s).len() <= s.len(),
        trimmed_start(s) == s.skip(s.len() - trimmed_start(s).len()),
        forall|i: int| 0 <= i < s.len() - trimmed_start(s).len() ==> is_space(#[trigger] s[i]),
    decreases s.len(),
{
    if s.len() > 0 && is_space(s[0]) {
        let rest = s.drop_first();
        lemma_start_is_cut(rest);
        let t = trimmed_start(s);
        assert(s.skip(s.len() - t.len()) =~= rest.skip(rest.len() - t.len()));
        assert forall|i: int| 0 <= i < s.len() - t.len() implies is_space(#[trigger] s[i]) by {
            if i > 0 {
                assert(s[i] == rest[i - 1]);
            }
        }
    } else {
        assert(s.skip(0) =~= s);
    }
}

proof fn lemma_end_is_cut(s: Seq<char>)
    ensures
        trimmed_end(s).len() <= s.len(),
        trimmed_end(s) == s.take(trimmed_end(s).len() as int),
        forall|i: int| trimmed_end(s).len() <= i < s.len() ==> is_space(#[trigger] s[i]),
    decreases s.len(),
{
    if s.len() > 0 && is_space(s.last()) {
        let rest = s.drop_last();
        lemma_end_is_cut(rest);
        let t = trimmed_end(s);
        assert(s.take(t.len() as int) =~= rest.take(t.len() as int));
        assert forall|i: int| t.len() <= i < s.len() implies is_space(#[trigger] s[i]) by {
            if i < s.len() - 1 {
                assert(s[i] == rest[i]);
            }
        }
    } else {
        assert(s.take(s.len() as int) =~= s);
    }
}

/// White space and nothing else parts words: a text without any is one word, a
/// text of nothing but white space has none, and the words of two texts with
/// white space between them are the words of the one and then those of the
/// other.
pub proof fn law_white_space_parts_words(a: Seq<char>, c: char, b: Seq<char>)
    requires
        is_space(c),
    ensures
        words(a + seq![c] + b) == words(a) + words(b),
        (forall|i: int| 0 <= i < a.len() ==> !is_space(#[trigger] a[i])) && a.len() > 0 ==> words(a)
            == seq![a],
        (forall|i: int| 0 <= i < a.len() ==> is_space(#[trigger] a[i])) ==> words(a).len() == 0,
{
    lemma_words_apart(a, c, b);
    if (forall|i: int| 0 <= i < a.len() ==> !is_space(#[trigger] a[i])) && a.len() > 0 {
        lemma_word_ends(a, a.len() as int);
        assert(trimmed_start(a) == a);
        assert(a.take(a.len() as int) =~= a);
        assert(a.skip(a.len() as int) =~= Seq::<char>::empty());
        assert(words(Seq::<char>::empty()) =~= Seq::<Seq<char>>::empty());
        assert(words(a) =~= seq![a]);
    }
    if forall|i: int| 0 <= i < a.len() ==> is_space(#[trigger] a[i]) {
        lemma_start_is_cut(a);
        lemma_trimmed_start(a);
        if trimmed_start(a).len() > 0 {
            assert(trimmed_start(a)[0] == a[a.len() - trimmed_start(a).len()]);
        }
    }
}

proof fn lemma_words_apart(a: Seq<char>, c: char, b: Seq<char>)
    requires
        is_space(c),
    ensures
        words(a + seq![c] + b) == words(a) + words(b),
    decreases a.len(),
{
    let s = a + seq![c] + b;
    if a.len() == 0 {
        assert(s.drop_first() =~= b);
        assert(s[0] == c);
        assert(trimmed_start(s) == trimmed_start(b));
        assert(words(a) =~= Seq::<Seq<char>>::empty());
        assert(words(s) =~= words(b));
        assert(words(a) + words(b) =~= words(b));
    } else if is_space(a[0]) {
        assert(s.drop_first() =~= a.drop_first() + seq![c] + b);
        assert(s[0] == a[0]);
        lemma_words_apart(a.drop_first(), c, b);
        assert(words(s) =~= words(s.drop_first()));
        assert(words(a) =~= words(a.drop_first()));
    } else {
        assert(s[0] == a[0]);
        assert(trimmed_start(s) == s && trimmed_start(a) == a);
        lemma_word_len(a);
        lemma_word_len_before_space(a, c, b);
        let n = word_len(a) as int;
        assert(n > 0);
        assert(s.take(n) =~= a.take(n));
        assert(s.skip(n) =~= a.skip(n) + seq![c] + b);
        lemma_words_apart(a.skip(n), c, b);
        assert(words(s) =~= seq![s.take(n)] + words(s.skip(n)));
        assert(words(a) =~= seq![a.take(n)] + words(a.skip(n)));
        assert(words(s) =~= words(a) + words(b));
    }
}

proof fn lemma_word_len_before_space(a: Seq<char>, c: char, b: Seq<char>)
    requires
        is_space(c),
    ensures
        word_len(a + seq![c] + b) == word_len(a),
    decreases a.len(),
{
    let s = a + seq![c] + b;
    if a.len() == 0 {
        assert(s[0] == c);
    } else {
        assert(s[0] == a[0]);
        if !is_space(a[0]) {
            assert(s.drop_first() =~= a.drop_first() + seq![c] + b);
            lemma_word_len_before_space(a.drop_first(), c, b);
        }
    }
}

/// Replacing goes character by character: one that is meant becomes the text,
/// any other stays, and the order is kept.
pub proof fn law_replacing(a: Seq<char>, x: char, b: Seq<char>, c: char, by: Seq<char>)
    ensures
        replaced(a + b, c, by) == replaced(a, c, by) + replaced(b, c, by),
        replaced(seq![x], c, by) == if x == c {
            by
        } else {
            seq![x]
        },
        replaced(Seq::empty(), c, by) == Seq::<char>::empty(),
    decreases b.len(),
{
    reveal_with_fuel(replaced, 2);
    assert(seq![x].drop_last() =~= Seq::<char>::empty());
    assert(replaced(seq![x], c, by) =~= if x == c {
        by
    } else {
        seq![x]
    });
    if b.len() == 0 {
        assert(a + b =~= a);
        assert(replaced(a, c, by) + replaced(b, c, by) =~= replaced(a, c, by));
    } else {
        law_replacing(a, x, b.drop_last(), c, by);
        assert((a + b).drop_last() =~= a + b.drop_last());
        assert(replaced(a + b, c, by) =~= replaced(a, c, by) + replaced(b, c, by));
    }
}

/// A text that is set to the left starts its column, which is filled with
/// spaces; a longer one is not cut.
pub proof fn law_alignment(s: Seq<char>, width: nat)
    ensures
        left_aligned(s, width).len() == if s.len() > width {
            s.len()
        } else {
            width
        },
        left_aligned(s, width).take(s.len() as int) == s,
        forall|i: int|
            s.len() <= i < left_aligned(s, width).len() ==> (#[trigger] left_aligned(s, width)[i])
                == ' ',
{
    assert(left_aligned(s, width).take(s.len() as int) =~= s);
}

/// Texts are in order: of two different ones exactly one comes before, none
/// before itself, and the first place at which they differ decides.
pub proof fn law_order_of_texts(a: Seq<char>, b: Seq<char>, common: Seq<char>)
    ensures
        !sorts_before(a, a),
        a != b ==> (sorts_before(a, b) <==> !sorts_before(b, a)),
        sorts_before(common + a, common + b) == sorts_before(a, b),
        a.len() > 0 && b.len() > 0 && a[0] != b[0] ==> sorts_before(a, b) == (a[0] < b[0]),
        a.len() == 0 && b.len() > 0 ==> sorts_before(a, b),
    decreases a.len() + common.len(),
{
    if common.len() > 0 {
        law_order_of_texts(a, b, common.drop_first());
        assert((common + a).drop_first() =~= common.drop_first() + a);
        assert((common + b).drop_first() =~= common.drop_first() + b);
    } else {
        assert(common + a =~= a);
        assert(common + b =~= b);
        if a.len() > 0 {
            law_order_of_texts(a.drop_first(), a.drop_first(), common);
            if b.len() > 0 && a[0] == b[0] {
                law_order_of_texts(a.drop_first(), b.drop_first(), common);
                if a != b {
                    assert(a =~= seq![a[0]] + a.drop_first());
                    assert(b =~= seq![b[0]] + b.drop_first());
                }
            }
        } else {
            assert(a != b ==> b.len() > 0) by {
                if b.len() == 0 {
                    assert(a =~= b);
                }
            }
        }
    }
}

/// White space is what Unicode lists as such, by its numbers.
pub proof fn law_white_space(c: char)
    ensures
        is_space(c) <==> {
            let n = c as u32;
            ||| 9 <= n <= 13
            ||| n == 32
            ||| n == 133
            ||| n == 160
            ||| n == 5760
            ||| 8192 <= n <= 8202
            ||| n == 8232
            ||| n == 8233
            ||| n == 8239
            ||| n == 8287
            ||| n == 12288
        },
{
}

/// A text trimmed is empty exactly where it is all white space.
pub proof fn law_blank_texts(s: Seq<char>)
    ensures
        trimmed(s).len() == 0 <==> forall|i: int| 0 <= i < s.len() ==> is_space(#[trigger] s[i]),
{
    law_trimming(s);
    let (a, b) = choose|a: int, b: int|
        0 <= a <= b <= s.len() && trimmed(s) == #[trigger] s.subrange(a, b) && (forall|i: int|
            0 <= i < a || b <= i < s.len() ==> is_space(#[trigger] s[i]));
    if trimmed(s).len() > 0 {
        assert(trimmed(s)[0] == s[a]);
    } else {
        assert(a == b);
    }
}

/// What is found of a pattern is its first place from there on, and nothing is
/// found where it has none.
pub proof fn law_the_first_place_is_found(s: Seq<char>, pattern: Seq<char>, from: int, j: int)
    requires
        0 <= from,
    ensures
        found(s, pattern, from) matches Some(i) ==> from <= i && i + pattern.len() <= s.len()
            && s.subrange(i, i + pattern.len()) == pattern,
        found(s, pattern, from) matches Some(i) ==> (from <= j < i ==> s.subrange(
            j,
            j + pattern.len(),
        ) != pattern),
        found(s, pattern, from) is None ==> (from <= j <= s.len() - pattern.len() ==> s.subrange(
            j,
            j + pattern.len(),
        ) != pattern),
{
    lemma_found(s, pattern, from);
    if from <= j <= s.len() - pattern.len() {
        assert(occurs_at(s, pattern, j) <==> s.subrange(j, j + pattern.len()) == pattern);
    }
}

/// The characters of a list of strings are those of each string, one for one.
pub proof fn law_texts_are_seen_one_for_one(list: Seq<String>, i: int)
    ensures
        views(list).len() == list.len(),
        0 <= i < list.len() ==> views(list)[i] == list[i]@,
{
}

/// A text cut at the bytes that its beginning takes up is that beginning.
pub proof fn law_cutting(a: Seq<char>, b: Seq<char>)
    ensures
        cut(a + b, encode_utf8(a).len()) == a,
{
    lemma_encoded_one_after_the_other(a, b);
    encode_utf8_decode_utf8(a);
    assert(encode_utf8(a + b).subrange(0, encode_utf8(a).len() as int) =~= encode_utf8(a));
}

proof fn lemma_encoded_one_after_the_other(a: Seq<char>, b: Seq<char>)
    ensures
        encode_utf8(a + b) == encode_utf8(a) + encode_utf8(b),
    decreases a.len(),
{
    if a.len() == 0 {
        assert(a + b =~= b);
        assert(encode_utf8(a) + encode_utf8(b) =~= encode_utf8(b));
    } else {
        assert((a + b).drop_first() =~= a.drop_first() + b);
        lemma_encoded_one_after_the_other(a.drop_first(), b);
        assert(encode_utf8(a + b) =~= encode_utf8(a) + encode_utf8(b));
    }
}

/// A character that is repeated stands that many times, and nothing else.
pub proof fn law_repeating(c: char, n: nat, i: int)
    ensures
        repeated(c, n).len() == n,
        0 <= i < n ==> repeated(c, n)[i] == c,
{
}

/// Behind the bytes that the beginning of a text takes up, the text can be cut.
pub proof fn law_a_cut_behind_a_beginning(a: Seq<char>, b: Seq<char>)
    ensures
        can_cut(a + b, encode_utf8(a).len()),
    decreases a.len(),
{
    let bytes = encode_utf8(a + b);
    let n = encode_utf8(a).len() as int;
    lemma_encoded_one_after_the_other(a, b);
    encode_utf8_valid_utf8(a + b);
    if a.len() > 0 {
        assert((a + b).drop_first() =~= a.drop_first() + b);
        law_a_cut_behind_a_beginning(a.drop_first(), b);
        encode_utf8_first_scalar(a + b);
        assert((a + b)[0] == a[0]);
        assert(pop_first_scalar(bytes) =~= encode_utf8(a.drop_first() + b));
        assert(n == length_of_first_scalar(bytes) + encode_utf8(a.drop_first()).len());
    }
}

} // verus!
