//! Text as sequences of characters: the splitting, trimming and formatting that
//! the rest of the crate builds on.
use vstd::prelude::*;
use vstd::utf8::{decode_utf8, valid_utf8};

verus! {

// ---------------------------------------------------------------------------
// Trusted operations of the standard library
// ---------------------------------------------------------------------------

/// `String::push` appends one character to the end of the string.
pub assume_specification[ String::push ](s: &mut String, c: char)
    ensures
        final(s)@ == old(s)@.push(c),
;

/// What `String::from_utf8_lossy` makes of some bytes.
pub uninterp spec fn lossy_text(bytes: Seq<u8>) -> Seq<char>;

/// `String::from_utf8_lossy` turns bytes into text. Valid UTF-8 is decoded; of
/// other bytes it is only claimed that the text depends on nothing else.
#[verifier::external_body]
pub(crate) fn from_utf8_lossy(bytes: &Vec<u8>) -> (r: String)
    ensures
        r@ == lossy_text(bytes@),
        valid_utf8(bytes@) ==> r@ == decode_utf8(bytes@),
{
    String::from_utf8_lossy(bytes).into_owned()
}

/// `String::from_utf8` decodes valid UTF-8 and refuses all other bytes.
#[verifier::external_body]
pub(crate) fn from_utf8(bytes: Vec<u8>) -> (r: Option<String>)
    ensures
        r is Some == valid_utf8(bytes@),
        r matches Some(s) ==> s@ == decode_utf8(bytes@),
{
    String::from_utf8(bytes).ok()
}

/// What `str::to_lowercase` makes of a text.
pub uninterp spec fn lowercase(s: Seq<char>) -> Seq<char>;

/// `str::to_lowercase` gives the lower-case form of a text. Of ASCII text the
/// capitals are replaced one by one; of other text it is only claimed that the
/// result depends on nothing else.
#[verifier::external_body]
pub(crate) fn lower_text(s: &str) -> (r: String)
    ensures
        r@ == lowercase(s@),
        (forall|i: int| 0 <= i < s@.len() ==> (#[trigger] s@[i]) <= '\u{7f}') ==> r@ =~= s@.map_values(
            |c: char| ascii_lower(c),
        ),
{
    s.to_lowercase()
}

// ---------------------------------------------------------------------------
// Models
// ---------------------------------------------------------------------------

/// The lower-case form of an ASCII letter; any other character stays as it is.
pub open spec fn ascii_lower(c: char) -> char {
    if 'A' <= c <= 'Z' {
        (c as u8 + 0x20) as u8 as char
    } else {
        c
    }
}

/// The characters of each string of a sequence.
pub open spec fn texts(v: Seq<String>) -> Seq<Seq<char>> {
    v.map_values(|s: String| s@)
}

/// The characters of a string that may be missing.
pub open spec fn text_of(s: Option<String>) -> Option<Seq<char>> {
    match s {
        Some(s) => Some(s@),
        None => None,
    }
}

/// The characters with the Unicode property `White_Space`.
pub open spec fn is_space(c: char) -> bool {
    ||| '\u{9}' <= c <= '\u{d}'
    ||| c == '\u{20}'
    ||| c == '\u{85}'
    ||| c == '\u{a0}'
    ||| c == '\u{1680}'
    ||| '\u{2000}' <= c <= '\u{200a}'
    ||| c == '\u{2028}'
    ||| c == '\u{2029}'
    ||| c == '\u{202f}'
    ||| c == '\u{205f}'
    ||| c == '\u{3000}'
}

/// `s` without its leading white space.
pub open spec fn trim_start(s: Seq<char>) -> Seq<char>
    decreases s.len(),
{
    if s.len() > 0 && is_space(s[0]) {
        trim_start(s.skip(1))
    } else {
        s
    }
}

/// `s` without its trailing white space.
pub open spec fn trim_end(s: Seq<char>) -> Seq<char>
    decreases s.len(),
{
    if s.len() > 0 && is_space(s.last()) {
        trim_end(s.drop_last())
    } else {
        s
    }
}

/// `s` without white space at either end.
pub open spec fn trimmed(s: Seq<char>) -> Seq<char> {
    trim_end(trim_start(s))
}

/// The index of the first `c` in `s`, or the length of `s` where there is none.
pub open spec fn first_index(s: Seq<char>, c: char) -> int
    decreases s.len(),
{
    if s.len() == 0 || s[0] == c {
        0
    } else {
        1 + first_index(s.skip(1), c)
    }
}

/// The pieces of `s` between the occurrences of `sep`, empty ones included.
pub open spec fn split_on(s: Seq<char>, sep: char) -> Seq<Seq<char>>
    decreases s.len(),
    via split_on_shrinks
{
    let i = first_index(s, sep);
    if i >= s.len() {
        seq![s]
    } else {
        seq![s.take(i)] + split_on(s.skip(i + 1), sep)
    }
}

#[via_fn]
proof fn split_on_shrinks(s: Seq<char>, sep: char) {
    lemma_first_index(s, sep);
}

/// A line without the carriage return that belonged to its line ending.
pub open spec fn without_cr(s: Seq<char>) -> Seq<char> {
    if s.len() > 0 && s.last() == '\r' {
        s.drop_last()
    } else {
        s
    }
}

/// The lines of `s`: each ends at a line feed, with an optional carriage return
/// before it; the line feed of the last line may be missing.
pub open spec fn line_list(s: Seq<char>) -> Seq<Seq<char>>
    decreases s.len(),
    via line_list_shrinks
{
    let i = first_index(s, '\n');
    if s.len() == 0 {
        seq![]
    } else if i >= s.len() {
        seq![s]
    } else {
        seq![without_cr(s.take(i))] + line_list(s.skip(i + 1))
    }
}

#[via_fn]
proof fn line_list_shrinks(s: Seq<char>) {
    lemma_first_index(s, '\n');
}

/// The length of the run of non-space characters that `s` starts with.
pub open spec fn word_len(s: Seq<char>) -> int
    decreases s.len(),
{
    if s.len() == 0 || is_space(s[0]) {
        0
    } else {
        1 + word_len(s.skip(1))
    }
}

/// The maximal runs of non-space characters of `s`, in order.
pub open spec fn word_list(s: Seq<char>) -> Seq<Seq<char>>
    decreases s.len(),
    via word_list_shrinks
{
    if s.len() == 0 {
        seq![]
    } else if is_space(s[0]) {
        word_list(s.skip(1))
    } else {
        seq![s.take(word_len(s))] + word_list(s.skip(word_len(s)))
    }
}

#[via_fn]
proof fn word_list_shrinks(s: Seq<char>) {
    lemma_word_len(s);
    if s.len() > 0 && !is_space(s[0]) {
        lemma_word_len(s.skip(1));
    }
}

/// The parts in order, with `sep` between every two neighbours.
pub open spec fn joined(parts: Seq<Seq<char>>, sep: Seq<char>) -> Seq<char>
    decreases parts.len(),
{
    if parts.len() == 0 {
        seq![]
    } else if parts.len() == 1 {
        parts[0]
    } else {
        joined(parts.drop_last(), sep) + sep + parts.last()
    }
}

/// `s` with copies of `prefix` removed from its front until none is left.
pub open spec fn without_prefixes(s: Seq<char>, prefix: Seq<char>) -> Seq<char>
    decreases s.len(),
{
    if prefix.len() > 0 && prefix.is_prefix_of(s) {
        without_prefixes(s.skip(prefix.len() as int), prefix)
    } else {
        s
    }
}

/// `s` with spaces added at its end up to `width` characters.
pub open spec fn padded(s: Seq<char>, width: nat) -> Seq<char> {
    s + Seq::new((if s.len() < width { width - s.len() } else { 0 }) as nat, |i: int| ' ')
}

/// The decimal digit with the value `d`.
pub open spec fn digit(d: nat) -> char {
    (0x30 + d) as char
}

/// The decimal notation of `n`, without leading zeros.
pub open spec fn decimal(n: nat) -> Seq<char>
    decreases n,
{
    if n < 10 {
        seq![digit(n)]
    } else {
        decimal(n / 10).push(digit(n % 10))
    }
}

/// The decimal notation of an integer, with a minus sign where it is negative.
pub open spec fn signed_decimal(n: int) -> Seq<char> {
    if n < 0 {
        "-"@ + decimal(-n as nat)
    } else {
        decimal(n as nat)
    }
}

/// Whether every character of `s` is an ASCII decimal digit.
pub open spec fn all_digits(s: Seq<char>) -> bool {
    forall|i: int| 0 <= i < s.len() ==> '0' <= #[trigger] s[i] <= '9'
}

/// The number that the decimal digits of `s` denote.
pub open spec fn number(s: Seq<char>) -> nat
    decreases s.len(),
{
    if s.len() == 0 {
        0
    } else {
        number(s.drop_last()) * 10 + (s.last() as nat - 0x30) as nat
    }
}

/// The digits of a number that may be written with a leading plus sign.
pub open spec fn without_plus(s: Seq<char>) -> Seq<char> {
    if s.len() > 0 && s[0] == '+' {
        s.skip(1)
    } else {
        s
    }
}

/// The `u64` that `s` denotes: an optional plus sign, then at least one decimal
/// digit, and nothing else.
pub open spec fn parsed_u64(s: Seq<char>) -> Option<u64> {
    let d = without_plus(s);
    if d.len() > 0 && all_digits(d) && number(d) <= u64::MAX {
        Some(number(d) as u64)
    } else {
        None
    }
}

/// The lower-case hexadecimal digit with the value `d`.
pub open spec fn hex_digit(d: nat) -> char {
    if d < 10 {
        digit(d)
    } else {
        (0x61 + d - 10) as char
    }
}

/// The last `width` hexadecimal digits of `n`, zeros in front included.
pub open spec fn hex(n: nat, width: nat) -> Seq<char>
    decreases width,
{
    if width == 0 {
        seq![]
    } else {
        hex(n / 16, (width - 1) as nat).push(hex_digit(n % 16))
    }
}

// ---------------------------------------------------------------------------
// Lemmas
// ---------------------------------------------------------------------------

/// The first index is where the character stands, and no earlier place holds it.
pub proof fn lemma_first_index(s: Seq<char>, c: char)
    ensures
        0 <= first_index(s, c) <= s.len(),
        forall|i: int| 0 <= i < first_index(s, c) ==> s[i] != c,
        first_index(s, c) < s.len() ==> s[first_index(s, c)] == c,
    decreases s.len(),
{
    if s.len() > 0 && s[0] != c {
        lemma_first_index(s.skip(1), c);
        assert forall|i: int| 0 <= i < first_index(s, c) implies s[i] != c by {
            if i > 0 {
                assert(s.skip(1)[i - 1] == s[i]);
            }
        }
    }
}

/// A place that holds the character, with none before it, is the first index.
pub proof fn lemma_first_index_at(s: Seq<char>, c: char, i: int)
    requires
        0 <= i <= s.len(),
        forall|j: int| 0 <= j < i ==> s[j] != c,
        i < s.len() ==> s[i] == c,
    ensures
        first_index(s, c) == i,
{
    lemma_first_index(s, c);
}

pub(crate) proof fn lemma_word_len(s: Seq<char>)
    ensures
        0 <= word_len(s) <= s.len(),
        forall|i: int| 0 <= i < word_len(s) ==> !is_space(s[i]),
        word_len(s) < s.len() ==> is_space(s[word_len(s)]),
    decreases s.len(),
{
    if s.len() > 0 && !is_space(s[0]) {
        lemma_word_len(s.skip(1));
        assert forall|i: int| 0 <= i < word_len(s) implies !is_space(s[i]) by {
            if i > 0 {
                assert(s.skip(1)[i - 1] == s[i]);
            }
        }
    }
}

proof fn lemma_word_len_at(s: Seq<char>, i: int)
    requires
        0 <= i <= s.len(),
        forall|j: int| 0 <= j < i ==> !is_space(s[j]),
        i < s.len() ==> is_space(s[i]),
    ensures
        word_len(s) == i,
{
    lemma_word_len(s);
}

// ---------------------------------------------------------------------------
// Conversions
// ---------------------------------------------------------------------------

/// The characters of `s`.
pub fn chars_of(s: &str) -> (v: Vec<char>)
    ensures
        v@ == s@,
{
    let mut v: Vec<char> = Vec::new();
    for c in it: s.chars()
        invariant
            it.seq() == s@,
            v@ == s@.take(it.index()),
    {
        v.push(c);
        assert(s@.take(it.index() + 1) == s@.take(it.index()).push(c));
    }
    assert(s@.take(s@.len() as int) == s@);
    v
}

/// The string made of the characters of `v` from `from` up to `to`.
pub fn string_of(v: &Vec<char>, from: usize, to: usize) -> (s: String)
    requires
        from <= to <= v.len(),
    ensures
        s@ == v@.subrange(from as int, to as int),
{
    let mut s = String::new();
    let mut i: usize = from;
    while i < to
        invariant
            from <= i <= to <= v.len(),
            s@ == v@.subrange(from as int, i as int),
        decreases to - i,
    {
        s.push(v[i]);
        assert(v@.subrange(from as int, i + 1) == v@.subrange(from as int, i as int).push(v@[i as int]));
        i += 1;
    }
    s
}

/// Whether `a` and `b` hold the same characters.
pub fn same(a: &str, b: &str) -> (r: bool)
    ensures
        r == (a@ == b@),
{
    a.to_owned() == b.to_owned()
}

// ---------------------------------------------------------------------------
// Tests on text
// ---------------------------------------------------------------------------

/// Whether `c` is white space.
pub fn is_white(c: char) -> (r: bool)
    ensures
        r == is_space(c),
{
    ('\u{9}' <= c && c <= '\u{d}') || c == '\u{20}' || c == '\u{85}' || c == '\u{a0}' || c
        == '\u{1680}' || ('\u{2000}' <= c && c <= '\u{200a}') || c == '\u{2028}' || c == '\u{2029}'
        || c == '\u{202f}' || c == '\u{205f}' || c == '\u{3000}'
}

/// Whether `s` starts with `prefix`.
pub fn starts_with(s: &str, prefix: &str) -> (r: bool)
    ensures
        r == prefix@.is_prefix_of(s@),
{
    let a = chars_of(s);
    let b = chars_of(prefix);
    if b.len() > a.len() {
        return false;
    }
    let mut i: usize = 0;
    while i < b.len()
        invariant
            i <= b.len() <= a.len(),
            a@ == s@,
            b@ == prefix@,
            forall|j: int| 0 <= j < i ==> a@[j] == b@[j],
        decreases b.len() - i,
    {
        if a[i] != b[i] {
            assert(s@.take(prefix@.len() as int)[i as int] != prefix@[i as int]);
            return false;
        }
        i += 1;
    }
    assert(prefix@ =~= s@.take(prefix@.len() as int));
    true
}

/// Whether `s` holds the character `c`.
pub fn has_char(s: &str, c: char) -> (r: bool)
    ensures
        r == s@.contains(c),
{
    let v = chars_of(s);
    let mut i: usize = 0;
    while i < v.len()
        invariant
            i <= v.len(),
            v@ == s@,
            forall|j: int| 0 <= j < i ==> s@[j] != c,
        decreases v.len() - i,
    {
        if v[i] == c {
            assert(s@[i as int] == c);
            return true;
        }
        i += 1;
    }
    false
}

/// Whether `s` is one of the listed strings.
pub fn listed(list: &Vec<String>, s: &str) -> (r: bool)
    ensures
        r == texts(list@).contains(s@),
{
    let mut i: usize = 0;
    while i < list.len()
        invariant
            i <= list.len(),
            forall|j: int| 0 <= j < i ==> texts(list@)[j] != s@,
        decreases list.len() - i,
    {
        if same(list[i].as_str(), s) {
            assert(texts(list@)[i as int] == s@);
            return true;
        }
        i += 1;
    }
    false
}

// ---------------------------------------------------------------------------
// Trimming and splitting
// ---------------------------------------------------------------------------

/// `s` without white space at either end.
pub fn trim(s: &str) -> (r: String)
    ensures
        r@ == trimmed(s@),
{
    let v = chars_of(s);
    let mut from: usize = 0;
    assert(v@.skip(0) == v@);
    while from < v.len() && is_white(v[from])
        invariant
            from <= v.len(),
            trim_start(v@) == trim_start(v@.skip(from as int)),
        decreases v.len() - from,
    {
        assert(v@.skip(from as int).skip(1) == v@.skip(from + 1));
        from += 1;
    }
    let ghost rest = v@.skip(from as int);
    assert(trim_start(v@) == rest);
    let mut to: usize = v.len();
    assert(v@.subrange(from as int, to as int) == rest);
    while to > from && is_white(v[to - 1])
        invariant
            from <= to <= v.len(),
            trim_end(rest) == trim_end(v@.subrange(from as int, to as int)),
        decreases to,
    {
        assert(v@.subrange(from as int, to as int).drop_last() == v@.subrange(
            from as int,
            to - 1,
        ));
        to -= 1;
    }
    string_of(&v, from, to)
}

/// The index of the first `c` in `v` at or after `from`, or the length of `v`.
pub(crate) fn find_from(v: &Vec<char>, c: char, from: usize) -> (r: usize)
    requires
        from <= v.len(),
    ensures
        from <= r <= v.len(),
        r - from == first_index(v@.skip(from as int), c),
{
    let ghost rest = v@.skip(from as int);
    let mut i: usize = from;
    while i < v.len() && v[i] != c
        invariant
            from <= i <= v.len(),
            rest == v@.skip(from as int),
            forall|j: int| 0 <= j < i - from ==> rest[j] != c,
        decreases v.len() - i,
    {
        i += 1;
    }
    proof {
        lemma_first_index_at(rest, c, i - from);
    }
    i
}

/// The pieces of `s` between the occurrences of `sep`, empty ones included.
pub fn split(s: &str, sep: char) -> (r: Vec<String>)
    ensures
        texts(r@) == split_on(s@, sep),
{
    let v = chars_of(s);
    let mut r: Vec<String> = Vec::new();
    let mut from: usize = 0;
    assert(v@.skip(0) == v@);
    assert(texts(r@) + split_on(v@, sep) == split_on(v@, sep));
    loop
        invariant
            from <= v.len(),
            v@ == s@,
            texts(r@) + split_on(v@.skip(from as int), sep) == split_on(s@, sep),
        decreases v.len() - from,
    {
        let at = find_from(&v, sep, from);
        let ghost rest = v@.skip(from as int);
        let ghost before = texts(r@);
        let piece = string_of(&v, from, at);
        assert(v@.subrange(from as int, at as int) == rest.take(at - from));
        r.push(piece);
        assert(texts(r@) == before.push(rest.take(at - from)));
        if at == v.len() {
            assert(rest.take(at - from) == rest);
            assert(texts(r@) == before + seq![rest]);
            return r;
        }
        assert(v@.skip(at + 1) == rest.skip(at - from + 1));
        assert(before + (seq![rest.take(at - from)] + split_on(v@.skip(at + 1), sep)) == texts(r@)
            + split_on(v@.skip(at + 1), sep));
        from = at + 1;
    }
}

/// The lines of `s`, without their line endings.
pub fn lines(s: &str) -> (r: Vec<String>)
    ensures
        texts(r@) == line_list(s@),
{
    let v = chars_of(s);
    let mut r: Vec<String> = Vec::new();
    let mut from: usize = 0;
    assert(v@.skip(0) == v@);
    assert(texts(r@) + line_list(v@) == line_list(v@));
    while from < v.len()
        invariant
            from <= v.len(),
            v@ == s@,
            texts(r@) + line_list(v@.skip(from as int)) == line_list(s@),
        decreases v.len() - from,
    {
        let at = find_from(&v, '\n', from);
        let ghost rest = v@.skip(from as int);
        let ghost before = texts(r@);
        if at == v.len() {
            let piece = string_of(&v, from, at);
            assert(piece@ == rest);
            r.push(piece);
            assert(texts(r@) == before + seq![rest]);
            return r;
        }
        let to = if at > from && v[at - 1] == '\r' {
            at - 1
        } else {
            at
        };
        let piece = string_of(&v, from, to);
        assert(piece@ == without_cr(rest.take(at - from)));
        r.push(piece);
        assert(texts(r@) == before.push(piece@));
        assert(v@.skip(at + 1) == rest.skip(at - from + 1));
        assert(before + (seq![piece@] + line_list(v@.skip(at + 1))) == texts(r@) + line_list(
            v@.skip(at + 1),
        ));
        from = at + 1;
    }
    assert(texts(r@) + line_list(v@.skip(from as int)) == texts(r@));
    r
}

/// The maximal runs of non-space characters of `s`, in order.
pub fn words(s: &str) -> (r: Vec<String>)
    ensures
        texts(r@) == word_list(s@),
{
    let v = chars_of(s);
    let mut r: Vec<String> = Vec::new();
    let mut from: usize = 0;
    assert(v@.skip(0) == v@);
    assert(texts(r@) + word_list(v@) == word_list(v@));
    while from < v.len()
        invariant
            from <= v.len(),
            v@ == s@,
            texts(r@) + word_list(v@.skip(from as int)) == word_list(s@),
        decreases v.len() - from,
    {
        let ghost rest = v@.skip(from as int);
        let ghost before = texts(r@);
        if is_white(v[from]) {
            assert(rest.skip(1) == v@.skip(from + 1));
            from += 1;
        } else {
            let mut to: usize = from;
            while to < v.len() && !is_white(v[to])
                invariant
                    from <= to <= v.len(),
                    rest == v@.skip(from as int),
                    forall|j: int| 0 <= j < to - from ==> !is_space(rest[j]),
                decreases v.len() - to,
            {
                to += 1;
            }
            proof {
                lemma_word_len_at(rest, to - from);
            }
            let piece = string_of(&v, from, to);
            assert(piece@ == rest.take(to - from));
            r.push(piece);
            assert(texts(r@) == before.push(piece@));
            assert(v@.skip(to as int) == rest.skip(to - from));
            assert(before + (seq![piece@] + word_list(v@.skip(to as int))) == texts(r@) + word_list(
                v@.skip(to as int),
            ));
            from = to;
        }
    }
    assert(texts(r@) + word_list(v@.skip(from as int)) == texts(r@));
    r
}

/// `s` with copies of `prefix` removed from its front until none is left.
pub fn strip_prefixes(s: &str, prefix: &str) -> (r: String)
    ensures
        r@ == without_prefixes(s@, prefix@),
{
    let v = chars_of(s);
    let n = chars_of(prefix).len();
    let mut from: usize = 0;
    assert(v@.skip(0) == v@);
    let mut rest: String = string_of(&v, 0, v.len());
    assert(rest@ == v@);
    while n > 0 && starts_with(rest.as_str(), prefix)
        invariant
            from <= v.len(),
            n == prefix@.len(),
            rest@ == v@.skip(from as int),
            without_prefixes(s@, prefix@) == without_prefixes(rest@, prefix@),
        decreases v.len() - from,
    {
        let ghost before = rest@;
        assert(n <= before.len());
        from += n;
        rest = string_of(&v, from, v.len());
        assert(rest@ == v@.skip(from as int));
        assert(before.skip(n as int) == rest@);
    }
    rest
}

// ---------------------------------------------------------------------------
// Building text
// ---------------------------------------------------------------------------

/// `a` followed by `b`.
pub fn cat(a: &str, b: &str) -> (r: String)
    ensures
        r@ == a@ + b@,
{
    let mut r = a.to_owned();
    r.append(b);
    r
}

/// The parts in order, with `sep` between every two neighbours.
pub fn join(parts: &Vec<String>, sep: &str) -> (r: String)
    ensures
        r@ == joined(texts(parts@), sep@),
{
    let mut r = String::new();
    let mut i: usize = 0;
    assert(texts(parts@).take(0) == Seq::<Seq<char>>::empty());
    while i < parts.len()
        invariant
            i <= parts.len(),
            r@ == joined(texts(parts@).take(i as int), sep@),
        decreases parts.len() - i,
    {
        let ghost next = texts(parts@).take(i + 1);
        assert(next.drop_last() == texts(parts@).take(i as int));
        assert(next.last() == parts@[i as int]@);
        if i > 0 {
            r.append(sep);
        }
        r.append(parts[i].as_str());
        assert(i == 0 ==> r@ == parts@[0]@);
        i += 1;
    }
    assert(texts(parts@).take(parts@.len() as int) == texts(parts@));
    r
}

/// `s` with spaces added at its end up to `width` characters.
pub fn pad(s: &str, width: usize) -> (r: String)
    ensures
        r@ == padded(s@, width as nat),
{
    let n = chars_of(s).len();
    let mut r = s.to_owned();
    let mut i: usize = n;
    while i < width
        invariant
            n == s@.len(),
            n <= i,
            i <= width || i == n,
            r@ == padded(s@, i as nat),
        decreases width - i,
    {
        r.push(' ');
        assert(padded(s@, (i + 1) as nat) == padded(s@, i as nat).push(' '));
        i += 1;
    }
    assert(r@ == padded(s@, width as nat));
    r
}

/// The decimal notation of `n`.
pub fn decimal_text(n: u64) -> (r: String)
    ensures
        r@ == decimal(n as nat),
    decreases n,
{
    let last = (0x30u8 + (n % 10) as u8) as char;
    if n < 10 {
        let mut r = String::new();
        r.push(last);
        r
    } else {
        let mut r = decimal_text(n / 10);
        r.push(last);
        r
    }
}

/// The decimal notation of `n`, with a minus sign where it is negative.
pub fn signed_text(n: i32) -> (r: String)
    ensures
        r@ == signed_decimal(n as int),
{
    if n < 0 {
        cat("-", decimal_text((-(n as i64)) as u64).as_str())
    } else {
        decimal_text(n as u64)
    }
}

/// The `width` last hexadecimal digits of `n`.
pub fn hex_text(n: u64, width: usize) -> (r: String)
    ensures
        r@ == hex(n as nat, width as nat),
    decreases width,
{
    if width == 0 {
        return String::new();
    }
    let d = (n % 16) as u8;
    let last = if d < 10 {
        (0x30u8 + d) as char
    } else {
        (0x61u8 + (d - 10)) as char
    };
    let mut r = hex_text(n / 16, width - 1);
    r.push(last);
    r
}

/// The number that `s` denotes: an optional plus sign, then decimal digits.
pub fn parse_u64(s: &str) -> (r: Option<u64>)
    ensures
        r == parsed_u64(s@),
{
    let v = chars_of(s);
    let from: usize = if v.len() > 0 && v[0] == '+' {
        1
    } else {
        0
    };
    let ghost d = without_plus(s@);
    assert(v@.skip(from as int) == d);
    if from == v.len() {
        return None;
    }
    let mut i: usize = from;
    let mut n: u64 = 0;
    while i < v.len()
        invariant
            from <= i <= v.len(),
            v@.skip(from as int) == d,
            v@ == s@,
            d == without_plus(s@),
            d.len() == v.len() - from,
            all_digits(d.take(i - from)),
            number(d.take(i - from)) == n,
        decreases v.len() - i,
    {
        let c = v[i];
        let ghost k = i - from;
        assert(d[k] == c);
        if !('0' <= c && c <= '9') {
            return None;
        }
        let digit_value: u64 = (c as u32 - 0x30) as u64;
        assert(d.take(k + 1).drop_last() == d.take(k));
        assert(d.take(k + 1).last() == c);
        assert(number(d.take(k + 1)) == n * 10 + digit_value);
        if n > (u64::MAX - digit_value) / 10 {
            proof {
                lemma_number_grows(d, k + 1);
            }
            return None;
        }
        n = n * 10 + digit_value;
        i += 1;
    }
    assert(d.take(d.len() as int) == d);
    Some(n)
}

proof fn lemma_number_grows(d: Seq<char>, k: int)
    requires
        0 <= k <= d.len(),
        all_digits(d.take(k)),
    ensures
        all_digits(d) ==> number(d.take(k)) <= number(d),
    decreases d.len(),
{
    if k == d.len() {
        assert(d.take(k) == d);
    } else if all_digits(d) {
        let short = d.drop_last();
        assert forall|i: int| 0 <= i < short.len() implies '0' <= #[trigger] short[i] <= '9' by {
            assert(short[i] == d[i]);
        }
        assert(short.take(k) == d.take(k));
        lemma_number_grows(short, k);
    }
}

// ---------------------------------------------------------------------------
// Laws
// ---------------------------------------------------------------------------

/// Reading the decimal notation of a number gives the number back, so two
/// numbers with the same notation are equal.
pub proof fn decimal_is_injective(a: nat, b: nat)
    ensures
        all_digits(decimal(a)),
        decimal(a).len() > 0,
        number(decimal(a)) == a,
        decimal(a) == decimal(b) ==> a == b,
{
    lemma_decimal(a);
    lemma_decimal(b);
}

proof fn lemma_decimal(n: nat)
    ensures
        all_digits(decimal(n)),
        decimal(n).len() > 0,
        number(decimal(n)) == n,
    decreases n,
{
    if n < 10 {
        let s = decimal(n);
        assert(s.drop_last() == Seq::<char>::empty());
        assert(number(s.drop_last()) == 0);
    } else {
        lemma_decimal(n / 10);
        let s = decimal(n);
        assert(s.drop_last() == decimal(n / 10));
        assert forall|i: int| 0 <= i < s.len() implies '0' <= #[trigger] s[i] <= '9' by {
            if i < s.len() - 1 {
                assert(s[i] == decimal(n / 10)[i]);
            }
        }
    }
}

/// Splitting takes apart what a separator joins: a text without the separator is one
/// piece, and what stands in front of the first separator is the first piece.
pub proof fn split_takes_apart(a: Seq<char>, sep: char, b: Seq<char>)
    requires
        !a.contains(sep),
    ensures
        split_on(a, sep) == seq![a],
        split_on(a + seq![sep] + b, sep) == seq![a] + split_on(b, sep),
{
    lemma_none_of(a, sep);
    lemma_first_index_at(a, sep, a.len() as int);
    let s = a + seq![sep] + b;
    assert forall|j: int| 0 <= j < a.len() implies s[j] != sep by {
        assert(s[j] == a[j]);
    }
    lemma_first_index_at(s, sep, a.len() as int);
    assert(s.take(a.len() as int) =~= a);
    assert(s.skip(a.len() as int + 1) =~= b);
}

proof fn lemma_none_of(a: Seq<char>, c: char)
    requires
        !a.contains(c),
    ensures
        forall|j: int| 0 <= j < a.len() ==> a[j] != c,
{
    assert forall|j: int| 0 <= j < a.len() implies a[j] != c by {
        if a[j] == c {
            assert(a.contains(c));
        }
    }
}

/// A line ends at a line feed, which does not belong to it, nor does one carriage return
/// right before it. What comes behind the last line feed is a line too, unless it is
/// empty.
pub proof fn lines_end_at_line_feeds(a: Seq<char>, b: Seq<char>)
    requires
        !a.contains('\n'),
    ensures
        line_list(seq![]) == Seq::<Seq<char>>::empty(),
        a.len() > 0 ==> line_list(a) == seq![a],
        line_list(a + seq!['\n'] + b) == seq![
            if a.len() > 0 && a.last() == '\r' {
                a.drop_last()
            } else {
                a
            },
        ] + line_list(b),
{
    lemma_none_of(a, '\n');
    lemma_first_index_at(a, '\n', a.len() as int);
    let s = a + seq!['\n'] + b;
    assert forall|j: int| 0 <= j < a.len() implies s[j] != '\n' by {
        assert(s[j] == a[j]);
    }
    lemma_first_index_at(s, '\n', a.len() as int);
    assert(s.take(a.len() as int) =~= a);
    assert(s.skip(a.len() as int + 1) =~= b);
}

/// Words are what stands between white space: a text without white space is one word,
/// white space in front makes no difference, and white space ends a word.
pub proof fn words_stand_between_white_space(w: Seq<char>, c: char, b: Seq<char>)
    requires
        w.len() > 0,
        forall|i: int| 0 <= i < w.len() ==> !is_space(#[trigger] w[i]),
        is_space(c),
    ensures
        word_list(seq![]) == Seq::<Seq<char>>::empty(),
        word_list(seq![c] + b) == word_list(b),
        word_list(w) == seq![w],
        word_list(w + seq![c] + b) == seq![w] + word_list(b),
{
    assert((seq![c] + b).skip(1) =~= b);
    lemma_word_len_at(w, w.len() as int);
    assert(w.take(w.len() as int) =~= w);
    assert(w.skip(w.len() as int) =~= seq![]);
    assert(!is_space(w[0]));
    assert(word_list(w.skip(w.len() as int)) =~= seq![]);
    assert(word_list(w) =~= seq![w]);
    let s = w + seq![c] + b;
    assert forall|j: int| 0 <= j < w.len() implies !is_space(s[j]) by {
        assert(s[j] == w[j]);
    }
    lemma_word_len_at(s, w.len() as int);
    assert(s.take(w.len() as int) =~= w);
    assert(s.skip(w.len() as int) =~= seq![c] + b);
    assert(s[0] == w[0]);
}

/// The blank, the tab, the line feed and the carriage return are white space; the
/// visible ASCII characters are not. All in all it is the characters with these numbers.
pub proof fn white_space_is_blank(c: char)
    ensures
        c == ' ' || c == '\t' || c == '\n' || c == '\r' ==> is_space(c),
        '!' <= c <= '~' ==> !is_space(c),
        is_space(c) <==> ({
            let n = c as int;
            9 <= n <= 13 || n == 32 || n == 133 || n == 160 || n == 5760 || 8192 <= n <= 8202 || n
                == 8232 || n == 8233 || n == 8239 || n == 8287 || n == 12288
        }),
{
}

/// Trimming takes the white space from both ends, and nothing else.
pub proof fn trimming_takes_both_ends(a: Seq<char>, t: Seq<char>, b: Seq<char>)
    requires
        forall|i: int| 0 <= i < a.len() ==> is_space(#[trigger] a[i]),
        forall|i: int| 0 <= i < b.len() ==> is_space(#[trigger] b[i]),
        t.len() > 0 ==> !is_space(t[0]) && !is_space(t.last()),
    ensures
        trimmed(a + t + b) == t,
{
    lemma_trim_start(a, t + b);
    assert(a + t + b =~= a + (t + b));
    if t.len() > 0 {
        assert((t + b)[0] == t[0]);
        assert(trim_start(t + b) == t + b);
        lemma_trim_end(t, b);
    } else {
        assert(t + b =~= b + seq![]);
        lemma_trim_start(b, seq![]);
        assert(trimmed(a + t + b) =~= t);
    }
}

proof fn lemma_trim_start(a: Seq<char>, t: Seq<char>)
    requires
        forall|i: int| 0 <= i < a.len() ==> is_space(#[trigger] a[i]),
    ensures
        trim_start(a + t) == trim_start(t),
    decreases a.len(),
{
    if a.len() == 0 {
        assert(a + t =~= t);
    } else {
        let rest = a.skip(1);
        assert forall|i: int| 0 <= i < rest.len() implies is_space(#[trigger] rest[i]) by {
            assert(rest[i] == a[i + 1]);
        }
        assert((a + t)[0] == a[0]);
        assert((a + t).skip(1) =~= rest + t);
        lemma_trim_start(rest, t);
    }
}

proof fn lemma_trim_end(t: Seq<char>, b: Seq<char>)
    requires
        t.len() > 0,
        !is_space(t.last()),
        forall|i: int| 0 <= i < b.len() ==> is_space(#[trigger] b[i]),
    ensures
        trim_end(t + b) == t,
    decreases b.len(),
{
    if b.len() == 0 {
        assert(t + b =~= t);
    } else {
        let rest = b.drop_last();
        assert forall|i: int| 0 <= i < rest.len() implies is_space(#[trigger] rest[i]) by {
            assert(rest[i] == b[i]);
        }
        assert((t + b).last() == b[b.len() - 1]);
        assert((t + b).drop_last() =~= t + rest);
        lemma_trim_end(t, rest);
    }
}

/// Joining puts the separator between every two neighbours and nothing anywhere else,
/// seen from the front.
pub proof fn joining_from_the_front(x: Seq<char>, xs: Seq<Seq<char>>, sep: Seq<char>)
    ensures
        joined(seq![], sep) == Seq::<char>::empty(),
        joined(seq![x], sep) == x,
        xs.len() > 0 ==> joined(seq![x] + xs, sep) == x + sep + joined(xs, sep),
    decreases xs.len(),
{
    if xs.len() > 0 {
        let all = seq![x] + xs;
        assert(all.drop_last() =~= seq![x] + xs.drop_last());
        assert(all.last() == xs.last());
        joining_from_the_front(x, xs.drop_last(), sep);
        if xs.len() == 1 {
            assert(seq![x] + xs.drop_last() =~= seq![x]);
        } else {
            assert(joined(all, sep) =~= x + sep + joined(xs, sep));
        }
    }
}

/// Padding keeps the text, and fills up with blanks to the width and no further.
pub proof fn padding_fills_up(s: Seq<char>, width: nat)
    ensures
        s.len() >= width ==> padded(s, width) == s,
        s.len() < width ==> padded(s, width).len() == width,
        padded(s, width).take(s.len() as int) == s,
        forall|i: int| s.len() <= i < padded(s, width).len() ==> padded(s, width)[i] == ' ',
{
    assert(padded(s, width).take(s.len() as int) =~= s);
    if s.len() >= width {
        assert(padded(s, width) =~= s);
    }
}

/// Reading what was written: the decimal notation of a number is read as that number,
/// with or without a plus sign; what holds anything but digits is no number, and
/// neither is one that is too large or the empty text.
pub proof fn numbers_are_read_back(n: u64, s: Seq<char>, i: int)
    ensures
        parsed_u64(decimal(n as nat)) == Some(n),
        parsed_u64(seq!['+'] + decimal(n as nat)) == Some(n),
        parsed_u64(seq![]) is None,
        0 < i < s.len() && !('0' <= s[i] <= '9') ==> parsed_u64(s) is None,
        s.len() > 0 && s[0] != '+' && !('0' <= s[0] <= '9') ==> parsed_u64(s) is None,
        parsed_u64(decimal(u64::MAX as nat + 1 + n as nat)) is None,
{
    let d = decimal(n as nat);
    lemma_decimal(n as nat);
    assert(d[0] != '+');
    assert((seq!['+'] + d).skip(1) =~= d);
    let big = u64::MAX as nat + 1 + n as nat;
    lemma_decimal(big);
    assert(decimal(big)[0] != '+');
    if 0 < i < s.len() && !('0' <= s[i] <= '9') {
        if s[0] == '+' {
            assert(without_plus(s)[i - 1] == s[i]);
        } else {
            assert(without_plus(s)[i] == s[i]);
        }
    }
    if s.len() > 0 && s[0] != '+' && !('0' <= s[0] <= '9') {
        assert(without_plus(s)[0] == s[0]);
    }
}

/// The hexadecimal notation has exactly as many digits as asked for, all of them lower
/// case, and differs for different numbers that fit.
pub proof fn hex_tells_numbers_apart(n: u64, m: u64)
    ensures
        hex(n as nat, 16).len() == 16,
        forall|i: int|
            0 <= i < 16 ==> '0' <= #[trigger] hex(n as nat, 16)[i] <= '9' || 'a' <= hex(
                n as nat,
                16,
            )[i] <= 'f',
        hex(n as nat, 16) == hex(m as nat, 16) ==> n == m,
        hex(n as nat, 16).last() == (if n % 16 < 10 {
            (0x30 + n % 16) as char
        } else {
            (0x57 + n % 16) as char
        }),
{
    lemma_hex(n as nat, m as nat, 16);
    assert(power_of_16(16) == 0x1_0000_0000_0000_0000) by {
        reveal_with_fuel(power_of_16, 17);
    }
}

spec fn power_of_16(k: nat) -> nat
    decreases k,
{
    if k == 0 {
        1
    } else {
        16 * power_of_16((k - 1) as nat)
    }
}

proof fn lemma_hex(n: nat, m: nat, width: nat)
    ensures
        hex(n, width).len() == width,
        forall|i: int|
            0 <= i < width ==> '0' <= #[trigger] hex(n, width)[i] <= '9' || 'a' <= hex(n, width)[i]
                <= 'f',
        hex(n, width) == hex(m, width) && n < power_of_16(width) && m < power_of_16(width) ==> n
            == m,
    decreases width,
{
    if width > 0 {
        let w = (width - 1) as nat;
        lemma_hex(n / 16, m / 16, w);
        lemma_hex(m / 16, n / 16, w);
        if hex(n, width) == hex(m, width) {
            assert(hex(n, width).last() == hex_digit(n % 16));
            assert(hex(m, width).last() == hex_digit(m % 16));
            assert(hex(n, width).drop_last() =~= hex(n / 16, w));
            assert(hex(m, width).drop_last() =~= hex(m / 16, w));
            assert(n % 16 == m % 16);
        }
    }
}

/// Copies of a prefix are taken off until none is left.
pub proof fn prefixes_are_taken_off(s: Seq<char>, prefix: Seq<char>)
    requires
        prefix.len() > 0,
    ensures
        without_prefixes(prefix + s, prefix) == without_prefixes(s, prefix),
        !prefix.is_prefix_of(s) ==> without_prefixes(s, prefix) == s,
{
    assert(prefix =~= (prefix + s).take(prefix.len() as int));
    assert((prefix + s).skip(prefix.len() as int) =~= s);
}

/// A negative number is written as a minus sign and its opposite.
pub proof fn negative_numbers_have_a_sign(n: nat)
    requires
        n > 0,
    ensures
        signed_decimal(-(n as int)) == seq!['-'] + decimal(n),
        signed_decimal(n as int) == decimal(n),
        signed_decimal(0) == seq!['0'],
{
    reveal_strlit("-");
    assert("-"@ =~= seq!['-']);
}

/// Strings are seen as their characters, one by one and in their order; so is one that
/// may be missing.
pub proof fn strings_are_seen_as_their_characters(v: Seq<String>, s: String, i: int)
    ensures
        texts(v).len() == v.len(),
        0 <= i < v.len() ==> texts(v)[i] == v[i]@,
        text_of(Some(s)) == Some(s@),
        text_of(None) is None,
{
}

/// The lower-case form of a capital of ASCII is the letter itself, 32 places on; any other
/// character stays as it is.
pub proof fn capitals_have_small_letters(c: char)
    ensures
        'A' <= c <= 'Z' ==> ascii_lower(c) as int == c as int + 32,
        !('A' <= c <= 'Z') ==> ascii_lower(c) == c,
{
}

/// A number with one digit more behind it is ten times the number and the digit, both as
/// it is written and as it is read; in hexadecimal notation it is sixteen times the number.
pub proof fn digits_have_their_places(n: nat, d: nat, s: Seq<char>, c: char, width: nat)
    ensures
        d < 10 ==> decimal(d).len() == 1 && decimal(d)[0] as int == 48 + d,
        d < 10 && n > 0 ==> decimal(10 * n + d) == decimal(n) + decimal(d),
        number(seq![]) == 0,
        '0' <= c <= '9' ==> number(s.push(c)) == 10 * number(s) + (c as int - 48),
        hex(n, 0) == Seq::<char>::empty(),
        d < 10 ==> hex(16 * n + d, width + 1) == hex(n, width) + decimal(d),
        10 <= d < 16 ==> hex(16 * n + d, width + 1).drop_last() == hex(n, width) && hex(
            16 * n + d,
            width + 1,
        ).last() as int == 87 + d,
{
    assert(s.push(c).drop_last() =~= s);
    if d < 10 && n > 0 {
        assert((10 * n + d) / 10 == n && (10 * n + d) % 10 == d);
        assert(decimal(10 * n + d) =~= decimal(n) + decimal(d));
    }
    if d < 16 {
        assert((16 * n + d) / 16 == n && (16 * n + d) % 16 == d);
        let h = hex(16 * n + d, width + 1);
        assert(h == hex(n, width).push(hex_digit(d)));
        assert(h.drop_last() =~= hex(n, width));
        if d < 10 {
            assert(h =~= hex(n, width) + decimal(d));
        }
    }
}

} // verus!
