//! Quoting for a POSIX shell.
use vstd::prelude::*;

use crate::text::{chars_of, joined};

verus! {

/// What stands for one character between single quotes: a quote is written by
/// closing the quotes, an escaped quote, and opening them again.
pub open spec fn quoted_char(c: char) -> Seq<char> {
    if c == '\'' {
        seq!['\'', '\\', '\'', '\'']
    } else {
        seq![c]
    }
}

/// What stands for `s` between single quotes.
pub open spec fn quoted(s: Seq<char>) -> Seq<char>
    decreases s.len(),
{
    if s.len() == 0 {
        seq![]
    } else {
        quoted(s.drop_last()) + quoted_char(s.last())
    }
}

/// `s` as one single-quoted shell word.
pub open spec fn shell_word(s: Seq<char>) -> Seq<char> {
    seq!['\''] + quoted(s) + seq!['\'']
}

/// `s` in the form that it has between single quotes.
pub fn escape_quotes(s: &str) -> (r: String)
    ensures
        r@ == quoted(s@),
{
    let v = chars_of(s);
    let mut r = String::new();
    let mut i: usize = 0;
    while i < v.len()
        invariant
            i <= v.len(),
            v@ == s@,
            r@ == quoted(s@.take(i as int)),
        decreases v.len() - i,
    {
        assert(s@.take(i + 1).drop_last() == s@.take(i as int));
        if v[i] == '\'' {
            r.push('\'');
            r.push('\\');
            r.push('\'');
            r.push('\'');
        } else {
            r.push(v[i]);
        }
        assert(r@ == quoted(s@.take(i + 1)));
        i += 1;
    }
    assert(s@.take(s@.len() as int) == s@);
    r
}

/// `s` as one single-quoted shell word.
pub fn shell_escape(s: &str) -> (r: String)
    ensures
        r@ == shell_word(s@),
{
    let mut r = String::new();
    r.push('\'');
    r.append(escape_quotes(s).as_str());
    r.push('\'');
    assert(r@ == shell_word(s@));
    r
}

// ---------------------------------------------------------------------------
// What a shell makes of a line
// ---------------------------------------------------------------------------

/// How a shell reads the next character.
pub enum Quoting {
    Plain,
    Escaped,
    Quotes,
}

/// A shell in the middle of a line: the words that are complete, the word that
/// is being read, if one has begun, and how the next character is read.
pub struct Reading {
    pub words: Seq<Seq<char>>,
    pub word: Option<Seq<char>>,
    pub quoting: Quoting,
}

/// The word that is being read, empty where none has begun.
pub open spec fn begun(r: Reading) -> Seq<char> {
    match r.word {
        Some(w) => w,
        None => seq![],
    }
}

/// A shell reads one character: blanks end a word, a backslash takes the next
/// character as it is, and between single quotes every character stands for
/// itself.
pub open spec fn read_char(r: Reading, c: char) -> Reading {
    match r.quoting {
        Quoting::Quotes => if c == '\'' {
            Reading { quoting: Quoting::Plain, ..r }
        } else {
            Reading { word: Some(begun(r).push(c)), ..r }
        },
        Quoting::Escaped => Reading {
            word: Some(begun(r).push(c)),
            quoting: Quoting::Plain,
            ..r
        },
        Quoting::Plain => if c == '\'' {
            Reading { word: Some(begun(r)), quoting: Quoting::Quotes, ..r }
        } else if c == '\\' {
            Reading { word: Some(begun(r)), quoting: Quoting::Escaped, ..r }
        } else if c == ' ' || c == '\t' {
            match r.word {
                Some(w) => Reading { words: r.words.push(w), word: None, ..r },
                None => r,
            }
        } else {
            Reading { word: Some(begun(r).push(c)), ..r }
        },
    }
}

/// A shell reads the characters of `s`.
pub open spec fn read(r: Reading, s: Seq<char>) -> Reading
    decreases s.len(),
{
    if s.len() == 0 {
        r
    } else {
        read_char(read(r, s.drop_last()), s.last())
    }
}

/// The shell before the first character of a line.
pub open spec fn fresh() -> Reading {
    Reading { words: seq![], word: None, quoting: Quoting::Plain }
}

/// The words that a shell splits a line into, before any expansion.
pub open spec fn shell_words(line: Seq<char>) -> Seq<Seq<char>> {
    let r = read(fresh(), line);
    match r.word {
        Some(w) => r.words.push(w),
        None => r.words,
    }
}

/// Reading two texts in a row is reading them one after the other.
pub proof fn lemma_read_concat(r: Reading, a: Seq<char>, b: Seq<char>)
    ensures
        read(r, a + b) == read(read(r, a), b),
    decreases b.len(),
{
    if b.len() == 0 {
        assert(a + b == a);
    } else {
        assert((a + b).drop_last() == a + b.drop_last());
        lemma_read_concat(r, a, b.drop_last());
    }
}

proof fn lemma_read_quoted(r: Reading, s: Seq<char>)
    requires
        r.quoting is Quotes,
        r.word is Some,
    ensures
        read(r, quoted(s)) == (Reading { word: Some(r.word->0 + s), ..r }),
    decreases s.len(),
{
    if s.len() == 0 {
        assert(r.word->0 + s == r.word->0);
    } else {
        let short = s.drop_last();
        let mid = read(r, quoted(short));
        lemma_read_quoted(r, short);
        lemma_read_concat(r, quoted(short), quoted_char(s.last()));
        let q = quoted_char(s.last());
        reveal_with_fuel(read, 5);
        if s.last() == '\'' {
            assert(q.drop_last() =~= seq!['\'', '\\', '\'']);
            assert(q.drop_last().drop_last() =~= seq!['\'', '\\']);
            assert(q.drop_last().drop_last().drop_last() =~= seq!['\'']);
        }
        assert(r.word->0 + s =~= (r.word->0 + short).push(s.last()));
    }
}

/// Between words, a shell reads a single-quoted word as exactly the text that was
/// quoted.
pub proof fn lemma_read_word(r: Reading, s: Seq<char>)
    requires
        r.quoting is Plain,
    ensures
        read(r, shell_word(s)) == (Reading { word: Some(begun(r) + s), ..r }),
{
    let open = seq!['\''];
    let opened = Reading { word: Some(begun(r)), quoting: Quoting::Quotes, ..r };
    assert(read(r, open) == opened) by {
        reveal_with_fuel(read, 2);
        assert(open.drop_last() =~= seq![]);
    }
    lemma_read_concat(r, open, quoted(s));
    lemma_read_quoted(opened, s);
    let inside = Reading { word: Some(begun(r) + s), quoting: Quoting::Quotes, ..r };
    lemma_read_concat(r, open + quoted(s), seq!['\'']);
    assert(read(inside, seq!['\'']) == read_char(inside, '\'')) by {
        reveal_with_fuel(read, 2);
        assert(seq!['\''].drop_last() =~= seq![]);
    }
}

/// Quoting round-trips: whatever a text holds, a shell reads its quoted form as
/// one word, and that word is the text.
pub proof fn quoting_round_trips(s: Seq<char>)
    ensures
        shell_words(shell_word(s)) == seq![s],
{
    lemma_read_word(fresh(), s);
    assert(begun(fresh()) + s =~= s);
    assert(shell_words(shell_word(s)) =~= seq![s]);
}

/// Whether a shell takes every character of `s` as it is.
pub open spec fn is_plain(s: Seq<char>) -> bool {
    forall|i: int|
        0 <= i < s.len() ==> (#[trigger] s[i]) != '\'' && s[i] != '\\' && s[i] != ' ' && s[i] != '\t'
}

/// Whether a shell between two words reads `text` as the given words, and is at the
/// end of the last of them.
pub open spec fn reads_as(text: Seq<char>, words: Seq<Seq<char>>) -> bool {
    &&& words.len() > 0
    &&& forall|r: Reading|
        r.quoting is Plain && r.word is None ==> #[trigger] read(r, text) == (Reading {
            words: r.words + words.drop_last(),
            word: Some(words.last()),
            quoting: Quoting::Plain,
        })
}

proof fn lemma_read_plain(r: Reading, s: Seq<char>)
    requires
        r.quoting is Plain,
        is_plain(s),
        s.len() > 0,
    ensures
        read(r, s) == (Reading { word: Some(begun(r) + s), ..r }),
    decreases s.len(),
{
    let short = s.drop_last();
    assert(begun(r) + s =~= (begun(r) + short).push(s.last()));
    assert(s[s.len() - 1] == s.last());
    if short.len() == 0 {
        assert(begun(r) + short =~= begun(r));
        reveal_with_fuel(read, 2);
    } else {
        assert forall|i: int| 0 <= i < short.len() implies (#[trigger] short[i]) != '\'' && short[i]
            != '\\' && short[i] != ' ' && short[i] != '\t' by {
            assert(short[i] == s[i]);
        }
        lemma_read_plain(r, short);
    }
}

/// A plain text is read as one word.
pub proof fn lemma_plain_reads(s: Seq<char>)
    requires
        is_plain(s),
        s.len() > 0,
    ensures
        reads_as(s, seq![s]),
{
    assert forall|r: Reading| r.quoting is Plain && r.word is None implies #[trigger] read(r, s) == (
    Reading { words: r.words + seq![s].drop_last(), word: Some(seq![s].last()), quoting: Quoting::Plain }) by {
        lemma_read_plain(r, s);
        assert(begun(r) + s =~= s);
        assert(r.words + seq![s].drop_last() =~= r.words);
    }
}

/// A quoted text behind a plain one is read as one word with it.
pub proof fn lemma_quoted_reads(front: Seq<char>, s: Seq<char>)
    requires
        is_plain(front),
    ensures
        reads_as(front + shell_word(s), seq![front + s]),
{
    let text = front + shell_word(s);
    let word = front + s;
    assert forall|r: Reading| r.quoting is Plain && r.word is None implies #[trigger] read(r, text)
        == (Reading {
        words: r.words + seq![word].drop_last(),
        word: Some(seq![word].last()),
        quoting: Quoting::Plain,
    }) by {
        lemma_read_concat(r, front, shell_word(s));
        if front.len() > 0 {
            lemma_read_plain(r, front);
        }
        let mid = read(r, front);
        assert(begun(mid) =~= front);
        lemma_read_word(mid, s);
        assert(r.words + seq![word].drop_last() =~= r.words);
    }
}

/// Texts with a blank between them are read one after the other.
pub proof fn lemma_reads_in_a_row(
    a: Seq<char>,
    a_words: Seq<Seq<char>>,
    b: Seq<char>,
    b_words: Seq<Seq<char>>,
)
    requires
        reads_as(a, a_words),
        reads_as(b, b_words),
    ensures
        reads_as(a + seq![' '] + b, a_words + b_words),
{
    let text = a + seq![' '] + b;
    let words = a_words + b_words;
    assert forall|r: Reading| r.quoting is Plain && r.word is None implies #[trigger] read(r, text)
        == (Reading {
        words: r.words + words.drop_last(),
        word: Some(words.last()),
        quoting: Quoting::Plain,
    }) by {
        lemma_read_concat(r, a + seq![' '], b);
        lemma_read_concat(r, a, seq![' ']);
        let at = read(r, a);
        let gap = read(at, seq![' ']);
        assert(gap == read_char(at, ' ')) by {
            reveal_with_fuel(read, 2);
            assert(seq![' '].drop_last() =~= seq![]);
        }
        assert(gap.words =~= r.words + a_words);
        assert(gap.words + b_words.drop_last() =~= r.words + words.drop_last());
    }
}

/// What a shell reads as some words, it splits into them.
pub proof fn lemma_words_of(text: Seq<char>, words: Seq<Seq<char>>)
    requires
        reads_as(text, words),
    ensures
        shell_words(text) == words,
{
    assert(read(fresh(), text).words =~= words.drop_last());
    assert(shell_words(text) =~= words);
}

/// All words of some lists, one list after the other.
pub open spec fn all_words(lists: Seq<Seq<Seq<char>>>) -> Seq<Seq<char>>
    decreases lists.len(),
{
    if lists.len() == 0 {
        seq![]
    } else {
        all_words(lists.drop_last()) + lists.last()
    }
}

/// Texts that are joined by blanks are read one after the other.
pub proof fn lemma_joined_reads(parts: Seq<Seq<char>>, lists: Seq<Seq<Seq<char>>>)
    requires
        parts.len() > 0,
        parts.len() == lists.len(),
        forall|i: int| 0 <= i < parts.len() ==> reads_as(#[trigger] parts[i], lists[i]),
    ensures
        reads_as(joined(parts, seq![' ']), all_words(lists)),
    decreases parts.len(),
{
    let front = lists.drop_last();
    assert(parts[parts.len() - 1] == parts.last());
    if parts.len() == 1 {
        assert(all_words(front) =~= seq![]);
        assert(all_words(lists) =~= lists[0]);
    } else {
        let short = parts.drop_last();
        assert forall|i: int| 0 <= i < short.len() implies reads_as(#[trigger] short[i], front[i]) by {
            assert(short[i] == parts[i]);
        }
        lemma_joined_reads(short, front);
        lemma_reads_in_a_row(
            joined(short, seq![' ']),
            all_words(front),
            parts.last(),
            lists.last(),
        );
    }
}

/// The quoted forms of some texts.
pub open spec fn shell_words_of(args: Seq<Seq<char>>) -> Seq<Seq<char>> {
    args.map_values(|a: Seq<char>| shell_word(a))
}

/// Each text as a list of one word.
pub open spec fn single_words(args: Seq<Seq<char>>) -> Seq<Seq<Seq<char>>> {
    args.map_values(|a: Seq<char>| seq![a])
}

/// The quoted form of each text is read as the text.
pub proof fn lemma_arguments_read(args: Seq<Seq<char>>)
    ensures
        forall|i: int|
            0 <= i < args.len() ==> reads_as(
                #[trigger] shell_words_of(args)[i],
                single_words(args)[i],
            ),
        all_words(single_words(args)) == args,
    decreases args.len(),
{
    assert forall|i: int| 0 <= i < args.len() implies reads_as(
        #[trigger] shell_words_of(args)[i],
        single_words(args)[i],
    ) by {
        lemma_quoted_reads(seq![], args[i]);
        assert(Seq::<char>::empty() + shell_word(args[i]) =~= shell_word(args[i]));
        assert(Seq::<char>::empty() + args[i] =~= args[i]);
    }
    if args.len() > 0 {
        lemma_arguments_read(args.drop_last());
        assert(single_words(args).drop_last() =~= single_words(args.drop_last()));
        assert(all_words(single_words(args)) =~= args);
    } else {
        assert(all_words(single_words(args)) =~= args);
    }
}

/// Arguments that are quoted and put behind each other reach a shell one by one
/// and unchanged.
pub proof fn quoted_arguments_round_trip(args: Seq<Seq<char>>)
    ensures
        shell_words(joined(shell_words_of(args), seq![' '])) == args,
{
    lemma_arguments_read(args);
    if args.len() == 0 {
        assert(args =~= seq![]);
    } else {
        lemma_joined_reads(shell_words_of(args), single_words(args));
        lemma_words_of(joined(shell_words_of(args), seq![' ']), args);
    }
}

/// Nothing of a quoted word is left to the shell: it stands between single quotes, a text
/// without single quotes unchanged, and where a text is quoted piece by piece each single
/// quote in it is written outside of them, behind a backslash.
pub proof fn everything_stands_between_quotes(s: Seq<char>, t: Seq<char>)
    requires
        !s.contains('\''),
    ensures
        shell_word(s) == seq!['\''] + s + seq!['\''],
        shell_word(s + seq!['\''] + t) == seq!['\''] + s + seq!['\'', '\\'] + seq!['\''] + shell_word(t),
{
    lemma_quoted_as_it_is(s);
    let q = seq!['\''];
    lemma_quoted_concat(s + q, t);
    lemma_quoted_concat(s, q);
    reveal_with_fuel(quoted, 2);
    assert(q.drop_last() =~= seq![]);
    assert(quoted(q) =~= seq!['\'', '\\', '\'', '\'']);
    assert(shell_word(s + q + t) =~= seq!['\''] + s + seq!['\'', '\\'] + q + shell_word(t));
}

proof fn lemma_quoted_as_it_is(s: Seq<char>)
    requires
        !s.contains('\''),
    ensures
        quoted(s) == s,
    decreases s.len(),
{
    if s.len() > 0 {
        assert(s.contains(s.last()));
        assert forall|i: int| 0 <= i < s.drop_last().len() implies s.drop_last()[i] != '\'' by {
            assert(s.contains(s[i]));
        }
        lemma_quoted_as_it_is(s.drop_last());
        assert(quoted(s) =~= s);
    }
}

proof fn lemma_quoted_concat(s: Seq<char>, t: Seq<char>)
    ensures
        quoted(s + t) == quoted(s) + quoted(t),
    decreases t.len(),
{
    if t.len() == 0 {
        assert(s + t =~= s);
        assert(quoted(s + t) =~= quoted(s) + quoted(t));
    } else {
        assert((s + t).drop_last() =~= s + t.drop_last());
        lemma_quoted_concat(s, t.drop_last());
        assert(quoted(s + t) =~= quoted(s) + quoted(t));
    }
}

} // verus!
