//! Splitting a command line into words, with basic quoting.

use vstd::prelude::*;
use vstd::string::*;

verus! {

/// The quotation marks that enclose a position of a command line.
pub enum Quote {
    Bare,
    Single,
    Double,
}

/// How the next character of a command line is read.
pub struct Mode {
    pub quote: Quote,
    pub escaped: bool,
}

/// What one character of a command line adds to the words.
pub enum Mark {
    /// The character itself belongs to a word.
    Literal(char),
    /// The character separates two words.
    Gap,
    /// The character only changes how later ones are read.
    Silent,
}

/// What the character `c` adds to the words when it is read in mode `m`.
pub open spec fn mark(m: Mode, c: char) -> Mark {
    if m.escaped {
        Mark::Literal(c)
    } else {
        match m.quote {
            Quote::Bare => if c == '\\' || c == '\'' || c == '"' {
                Mark::Silent
            } else if c == ' ' || c == '\t' {
                Mark::Gap
            } else {
                Mark::Literal(c)
            },
            Quote::Single => if c == '\'' {
                Mark::Silent
            } else {
                Mark::Literal(c)
            },
            Quote::Double => if c == '\\' || c == '"' {
                Mark::Silent
            } else {
                Mark::Literal(c)
            },
        }
    }
}

/// How the character after `c` is read, when `c` itself is read in mode `m`.
pub open spec fn next_mode(m: Mode, c: char) -> Mode {
    if m.escaped {
        Mode { quote: m.quote, escaped: false }
    } else if c == '\\' && !(m.quote is Single) {
        Mode { quote: m.quote, escaped: true }
    } else if c == '\'' && !(m.quote is Double) {
        Mode {
            quote: if m.quote is Single {
                Quote::Bare
            } else {
                Quote::Single
            },
            escaped: false,
        }
    } else if c == '"' && !(m.quote is Single) {
        Mode {
            quote: if m.quote is Double {
                Quote::Bare
            } else {
                Quote::Double
            },
            escaped: false,
        }
    } else {
        m
    }
}

/// How the character that follows the text `cmd` is read.
pub open spec fn mode_after(cmd: Seq<char>) -> Mode
    decreases cmd.len(),
{
    if cmd.len() == 0 {
        Mode { quote: Quote::Bare, escaped: false }
    } else {
        next_mode(mode_after(cmd.drop_last()), cmd.last())
    }
}

/// What each character of a command line adds to the words.
pub open spec fn marks(cmd: Seq<char>) -> Seq<Mark> {
    Seq::new(cmd.len(), |i: int| mark(mode_after(cmd.take(i)), cmd[i]))
}

/// The literal characters after the last gap.
pub open spec fn last_run(ms: Seq<Mark>) -> Seq<char>
    decreases ms.len(),
{
    if ms.len() == 0 {
        seq![]
    } else {
        match ms.last() {
            Mark::Literal(c) => last_run(ms.drop_last()).push(c),
            Mark::Gap => seq![],
            Mark::Silent => last_run(ms.drop_last()),
        }
    }
}

/// The runs of literal characters that a gap closes, empty runs left out.
pub open spec fn closed_runs(ms: Seq<Mark>) -> Seq<Seq<char>>
    decreases ms.len(),
{
    if ms.len() == 0 {
        seq![]
    } else if ms.last() is Gap {
        with_run(closed_runs(ms.drop_last()), last_run(ms.drop_last()))
    } else {
        closed_runs(ms.drop_last())
    }
}

/// A list of words with one more run at its end, unless the run is empty.
pub open spec fn with_run(words: Seq<Seq<char>>, run: Seq<char>) -> Seq<Seq<char>> {
    if run.len() == 0 {
        words
    } else {
        words.push(run)
    }
}

/// The words of a command line: the runs of literal characters between gaps,
/// empty runs left out.
pub open spec fn words_of(cmd: Seq<char>) -> Seq<Seq<char>> {
    with_run(closed_runs(marks(cmd)), last_run(marks(cmd)))
}

/// The contents of each string of a list.
pub open spec fn texts(list: Seq<String>) -> Seq<Seq<char>> {
    list.map_values(|s: String| s@)
}

/// One more character at the end of a command line adds one mark at the end.
proof fn lemma_marks_push(cmd: Seq<char>, c: char)
    ensures
        mode_after(cmd.push(c)) == next_mode(mode_after(cmd), c),
        marks(cmd.push(c)) == marks(cmd).push(mark(mode_after(cmd), c)),
        last_run(marks(cmd.push(c))) == (match mark(mode_after(cmd), c) {
            Mark::Literal(x) => last_run(marks(cmd)).push(x),
            Mark::Gap => seq![],
            Mark::Silent => last_run(marks(cmd)),
        }),
        closed_runs(marks(cmd.push(c))) == if mark(mode_after(cmd), c) is Gap {
            words_of(cmd)
        } else {
            closed_runs(marks(cmd))
        },
{
    let longer = cmd.push(c);
    assert(longer.drop_last() =~= cmd);
    assert forall|i: int| 0 <= i < cmd.len() implies #[trigger] longer.take(i) == cmd.take(i) by {
        assert(longer.take(i) =~= cmd.take(i));
    }
    assert(longer.take(cmd.len() as int) =~= cmd);
    assert(marks(longer) =~= marks(cmd).push(mark(mode_after(cmd), c)));
    assert(marks(longer).drop_last() =~= marks(cmd));
}

/// Splits a command line into words. Blanks and tabs separate words; single and
/// double quotes and a backslash take away the special meaning of what they
/// cover. A single-quoted backslash stands for itself.
pub fn shell_words(cmd: &str) -> (parts: Vec<String>)
    ensures
        texts(parts@) == words_of(cmd@),
{
    let mut parts: Vec<String> = Vec::new();
    let mut current = String::new();
    let mut in_single_quote = false;
    let mut in_double_quote = false;
    let mut escape_next = false;

    assert(cmd@.take(0) =~= seq![]);
    assert(marks(seq![]) =~= seq![]);
    assert(texts(parts@) =~= seq![]);
    for ch in it: cmd.chars()
        invariant
            it.seq() == cmd@,
            texts(parts@) == closed_runs(marks(cmd@.take(it.index()))),
            current@ == last_run(marks(cmd@.take(it.index()))),
            !(in_single_quote && in_double_quote),
            mode_after(cmd@.take(it.index())) == (Mode {
                quote: if in_single_quote {
                    Quote::Single
                } else if in_double_quote {
                    Quote::Double
                } else {
                    Quote::Bare
                },
                escaped: escape_next,
            }),
    {
        proof {
            let read = cmd@.take(it.index());
            lemma_marks_push(read, ch);
            assert(cmd@.take(it.index() + 1) =~= read.push(ch));
        }
        if escape_next {
            current.push(ch);
            escape_next = false;
        } else if ch == '\\' && !in_single_quote {
            escape_next = true;
        } else if ch == '\'' && !in_double_quote {
            in_single_quote = !in_single_quote;
        } else if ch == '"' && !in_single_quote {
            in_double_quote = !in_double_quote;
        } else if (ch == ' ' || ch == '\t') && !in_single_quote && !in_double_quote {
            if !current.as_str().is_empty() {
                let ghost before = parts@;
                let word = current;
                current = String::new();
                parts.push(word);
                assert(texts(parts@) =~= texts(before).push(word@));
            }
        } else {
            current.push(ch);
        }
    }
    assert(cmd@.take(cmd@.len() as int) =~= cmd@);
    if !current.as_str().is_empty() {
        let ghost before = parts@;
        let ghost run = current@;
        parts.push(current);
        assert(texts(parts@) =~= texts(before).push(run));
    }
    parts
}

/// Reading a command line in two parts, the first of which ends outside a word
/// and outside quotes, gives the runs of the parts one after the other.
proof fn lemma_read_in_parts(a: Seq<char>, b: Seq<char>)
    requires
        mode_after(a) == mode_after(seq![]),
        last_run(marks(a)).len() == 0,
    ensures
        mode_after(a + b) == mode_after(b),
        last_run(marks(a + b)) == last_run(marks(b)),
        closed_runs(marks(a + b)) == closed_runs(marks(a)) + closed_runs(marks(b)),
    decreases b.len(),
{
    if b.len() == 0 {
        assert(a + b =~= a);
        assert(b =~= seq![]);
        assert(marks(b) =~= seq![]);
        assert(last_run(marks(a)) =~= seq![]);
        assert(closed_runs(marks(a)) + closed_runs(marks(b)) =~= closed_runs(marks(a)));
    } else {
        let init = b.drop_last();
        let c = b.last();
        lemma_read_in_parts(a, init);
        lemma_marks_push(a + init, c);
        lemma_marks_push(init, c);
        assert((a + init).push(c) =~= a + b);
        assert(init.push(c) =~= b);
        assert(closed_runs(marks(a + b)) =~= closed_runs(marks(a)) + closed_runs(marks(b)));
    }
}

/// Whether `text`, read on its own, is one spelling of `word`: it closes what it
/// quotes, and all that it adds is the characters of `word`.
pub open spec fn spells(text: Seq<char>, word: Seq<char>) -> bool {
    &&& mode_after(text) == mode_after(seq![])
    &&& closed_runs(marks(text)) == Seq::<Seq<char>>::empty()
    &&& last_run(marks(text)) == word
}

/// Texts one after the other, with one blank between each and the next.
pub open spec fn spaced(parts: Seq<Seq<char>>) -> Seq<char>
    decreases parts.len(),
{
    if parts.len() == 0 {
        seq![]
    } else if parts.len() == 1 {
        parts[0]
    } else {
        spaced(parts.drop_last()) + (seq![' '] + parts.last())
    }
}

/// No word that a command line splits into is empty.
pub proof fn words_are_not_empty(cmd: Seq<char>)
    ensures
        forall|i: int| 0 <= i < words_of(cmd).len() ==> (#[trigger] words_of(cmd)[i]).len() > 0,
{
    lemma_closed_runs_not_empty(marks(cmd));
}

proof fn lemma_closed_runs_not_empty(ms: Seq<Mark>)
    ensures
        forall|i: int|
            0 <= i < closed_runs(ms).len() ==> (#[trigger] closed_runs(ms)[i]).len() > 0,
    decreases ms.len(),
{
    if ms.len() > 0 {
        let before = closed_runs(ms.drop_last());
        lemma_closed_runs_not_empty(ms.drop_last());
        assert forall|i: int| 0 <= i < closed_runs(ms).len() implies (#[trigger] closed_runs(
            ms,
        )[i]).len() > 0 by {
            if i < before.len() {
                assert(closed_runs(ms)[i] == before[i]);
            }
        }
    }
}

/// Splitting undoes spelling: where each text spells a word that is not empty,
/// the texts with a blank between them split into exactly those words.
pub proof fn splitting_undoes_spelling(parts: Seq<Seq<char>>, words: Seq<Seq<char>>)
    requires
        parts.len() == words.len(),
        forall|i: int|
            0 <= i < words.len() ==> spells(#[trigger] parts[i], words[i]) && words[i].len() > 0,
    ensures
        words_of(spaced(parts)) == words,
{
    assert(marks(seq![]) =~= seq![]);
    if words.len() == 0 {
        assert(words =~= seq![]);
    } else {
        lemma_spaced(parts, words);
        assert(words.drop_last().push(words.last()) =~= words);
    }
}

proof fn lemma_spaced(parts: Seq<Seq<char>>, words: Seq<Seq<char>>)
    requires
        parts.len() == words.len(),
        parts.len() > 0,
        forall|i: int|
            0 <= i < words.len() ==> spells(#[trigger] parts[i], words[i]) && words[i].len() > 0,
    ensures
        mode_after(spaced(parts)) == mode_after(seq![]),
        closed_runs(marks(spaced(parts))) == words.drop_last(),
        last_run(marks(spaced(parts))) == words.last(),
    decreases parts.len(),
{
    if parts.len() == 1 {
        assert(spells(parts[0], words[0]));
        assert(words.drop_last() =~= seq![]);
    } else {
        let front = parts.drop_last();
        assert forall|i: int| 0 <= i < front.len() implies spells(
            #[trigger] front[i],
            words.drop_last()[i],
        ) && words.drop_last()[i].len() > 0 by {
            assert(spells(parts[i], words[i]));
        }
        lemma_spaced(front, words.drop_last());
        lemma_marks_push(spaced(front), ' ');
        assert(spells(parts.last(), words.last()));
        lemma_read_in_parts(spaced(front).push(' '), parts.last());
        assert(spaced(front).push(' ') + parts.last() =~= spaced(front) + (seq![' ']
            + parts.last()));
        assert(words.drop_last().drop_last().push(words.drop_last().last()) =~= words.drop_last());
        assert(words.drop_last() + Seq::<Seq<char>>::empty() =~= words.drop_last());
    }
}

/// Whether a character has no special meaning outside quotes.
pub open spec fn is_plain(c: char) -> bool {
    c != ' ' && c != '\t' && c != '\\' && c != '\'' && c != '"'
}

/// A word without blanks, tabs, quotes and backslashes spells itself.
pub proof fn plain_word_spells_itself(word: Seq<char>)
    requires
        forall|i: int| 0 <= i < word.len() ==> is_plain(#[trigger] word[i]),
    ensures
        spells(word, word),
    decreases word.len(),
{
    assert(marks(seq![]) =~= seq![]);
    if word.len() == 0 {
        assert(word =~= seq![]);
    } else {
        plain_word_spells_itself(word.drop_last());
        lemma_marks_push(word.drop_last(), word.last());
        assert(word.drop_last().push(word.last()) =~= word);
    }
}

/// `word` between two quotation marks `q`.
pub open spec fn enclosed(q: char, word: Seq<char>) -> Seq<char> {
    (seq![q] + word).push(q)
}

/// A word without single quotes is spelled by that word in single quotes,
/// whatever else it holds.
pub proof fn single_quotes_spell(word: Seq<char>)
    requires
        !word.contains('\''),
    ensures
        spells(enclosed('\'', word), word),
{
    lemma_inside_quotes('\'', word);
    lemma_marks_push(seq!['\''] + word, '\'');
}

/// A word without double quotes and backslashes is spelled by that word in
/// double quotes.
pub proof fn double_quotes_spell(word: Seq<char>)
    requires
        !word.contains('"'),
        !word.contains('\\'),
    ensures
        spells(enclosed('"', word), word),
{
    lemma_inside_quotes('"', word);
    lemma_marks_push(seq!['"'] + word, '"');
}

proof fn lemma_inside_quotes(q: char, word: Seq<char>)
    requires
        q == '\'' || q == '"',
        !word.contains(q),
        q == '"' ==> !word.contains('\\'),
    ensures
        mode_after(seq![q] + word) == (Mode {
            quote: if q == '"' {
                Quote::Double
            } else {
                Quote::Single
            },
            escaped: false,
        }),
        closed_runs(marks(seq![q] + word)) == Seq::<Seq<char>>::empty(),
        last_run(marks(seq![q] + word)) == word,
    decreases word.len(),
{
    assert(marks(seq![]) =~= seq![]);
    lemma_marks_push(seq![], q);
    assert(Seq::<char>::empty().push(q) =~= seq![q]);
    if word.len() == 0 {
        assert(seq![q] + word =~= seq![q]);
        assert(word =~= seq![]);
    } else {
        let init = word.drop_last();
        assert forall|c: char| !word.contains(c) implies !init.contains(c) by {
            if init.contains(c) {
                let i = choose|i: int| 0 <= i < init.len() && init[i] == c;
                assert(word[i] == c);
            }
        }
        lemma_inside_quotes(q, init);
        lemma_marks_push(seq![q] + init, word.last());
        assert((seq![q] + init).push(word.last()) =~= seq![q] + word);
        assert(init.push(word.last()) =~= word);
    }
}

/// `word` with a backslash before each character.
pub open spec fn backslashed(word: Seq<char>) -> Seq<char>
    decreases word.len(),
{
    if word.len() == 0 {
        seq![]
    } else {
        backslashed(word.drop_last()).push('\\').push(word.last())
    }
}

/// Any word at all is spelled by a backslash before each of its characters.
pub proof fn backslashes_spell(word: Seq<char>)
    ensures
        spells(backslashed(word), word),
    decreases word.len(),
{
    assert(marks(seq![]) =~= seq![]);
    if word.len() == 0 {
        assert(word =~= seq![]);
    } else {
        let init = word.drop_last();
        backslashes_spell(init);
        lemma_marks_push(backslashed(init), '\\');
        lemma_marks_push(backslashed(init).push('\\'), word.last());
        assert(init.push(word.last()) =~= word);
    }
}

/// The texts of a list are those of its strings, one for one.
pub proof fn texts_are_those_of_the_strings(list: Seq<String>)
    ensures
        texts(list).len() == list.len(),
        forall|i: int| 0 <= i < list.len() ==> #[trigger] texts(list)[i] == list[i]@,
{
}

/// What a command line goes on with is read in the same way after any two
/// beginnings that leave the same word unfinished in the same mode.
proof fn lemma_same_reading(a: Seq<char>, b: Seq<char>, rest: Seq<char>)
    requires
        mode_after(a) == mode_after(b),
        last_run(marks(a)) == last_run(marks(b)),
        closed_runs(marks(a)) == closed_runs(marks(b)),
    ensures
        mode_after(a + rest) == mode_after(b + rest),
        last_run(marks(a + rest)) == last_run(marks(b + rest)),
        closed_runs(marks(a + rest)) == closed_runs(marks(b + rest)),
        words_of(a + rest) == words_of(b + rest),
    decreases rest.len(),
{
    if rest.len() == 0 {
        assert(a + rest =~= a);
        assert(b + rest =~= b);
    } else {
        let init = rest.drop_last();
        let c = rest.last();
        lemma_same_reading(a, b, init);
        lemma_marks_push(a + init, c);
        lemma_marks_push(b + init, c);
        assert((a + init).push(c) =~= a + rest);
        assert((b + init).push(c) =~= b + rest);
    }
}

/// A command line that ends, with nothing quoted or a quotation left open, after the
/// characters of `word` has that word, and no word where there are no characters. A
/// backslash at the very end stands for nothing.
pub proof fn a_line_ends_with_its_last_word(word: Seq<char>)
    ensures
        ({
            let written = backslashed(word);
            let last = if word.len() == 0 {
                Seq::<Seq<char>>::empty()
            } else {
                seq![word]
            };
            &&& words_of(written) == last
            &&& words_of(written.push('\\')) == last
            &&& words_of(written.push('\'')) == last
            &&& words_of(written.push('"')) == last
            &&& words_of(written.push('"').push('\\')) == last
        }),
{
    let written = backslashed(word);
    backslashes_spell(word);
    lemma_marks_push(written, '\\');
    lemma_marks_push(written, '\'');
    lemma_marks_push(written, '"');
    lemma_marks_push(written.push('"'), '\\');
    assert(marks(seq![]) =~= seq![]);
    assert(Seq::<Seq<char>>::empty().push(word) =~= seq![word]);
}

/// A blank or a tab outside quotes ends a word, and what follows is split on its
/// own; where no word has begun, it makes no difference.
pub proof fn a_gap_ends_a_word(word: Seq<char>, gap: char, rest: Seq<char>)
    requires
        gap == ' ' || gap == '\t',
    ensures
        word.len() > 0 ==> words_of(backslashed(word).push(gap) + rest) == seq![word] + words_of(
            rest,
        ),
        words_of(seq![gap] + rest) == words_of(rest),
{
    let written = backslashed(word);
    let none = Seq::<Seq<char>>::empty();
    assert(marks(seq![]) =~= seq![]);
    backslashes_spell(word);
    lemma_marks_push(written, gap);
    lemma_read_in_parts(written.push(gap), rest);
    if word.len() > 0 {
        assert(none.push(word) =~= seq![word]);
        assert(words_of(written.push(gap) + rest) =~= seq![word] + words_of(rest));
    }
    lemma_marks_push(seq![], gap);
    assert(Seq::<char>::empty().push(gap) =~= seq![gap]);
    lemma_read_in_parts(seq![gap], rest);
    assert(words_of(seq![gap] + rest) =~= words_of(rest));
}

/// Outside quotes a character other than a blank, a tab, a quotation mark or a
/// backslash stands for itself, with a backslash before it or without.
pub proof fn a_plain_character_stands_for_itself(word: Seq<char>, c: char, rest: Seq<char>)
    requires
        c != ' ',
        c != '\t',
        c != '\\',
        c != '\'',
        c != '"',
    ensures
        words_of(backslashed(word).push(c) + rest) == words_of(backslashed(word.push(c)) + rest),
{
    backslashes_spell(word);
    backslashes_spell(word.push(c));
    lemma_marks_push(backslashed(word), c);
    lemma_same_reading(backslashed(word).push(c), backslashed(word.push(c)), rest);
}

/// In single quotes every character but the single quote stands for itself, a
/// backslash among them; the next single quote ends the quotation, which is no gap
/// between words.
pub proof fn single_quotes_quote_all_but_themselves(word: Seq<char>, c: char, rest: Seq<char>)
    ensures
        c != '\'' ==> words_of(backslashed(word).push('\'').push(c) + rest) == words_of(
            backslashed(word.push(c)).push('\'') + rest,
        ),
        words_of(backslashed(word).push('\'').push('\'') + rest) == words_of(
            backslashed(word) + rest,
        ),
{
    let open = backslashed(word).push('\'');
    backslashes_spell(word);
    lemma_marks_push(backslashed(word), '\'');
    assert(marks(seq![]) =~= seq![]);
    if c != '\'' {
        backslashes_spell(word.push(c));
        lemma_marks_push(open, c);
        lemma_marks_push(backslashed(word.push(c)), '\'');
        lemma_same_reading(open.push(c), backslashed(word.push(c)).push('\''), rest);
    }
    lemma_marks_push(open, '\'');
    lemma_same_reading(open.push('\''), backslashed(word), rest);
}

/// In double quotes every character but the double quote and the backslash stands
/// for itself, and so does any character after a backslash; the next double quote
/// ends the quotation, which is no gap between words.
pub proof fn double_quotes_quote_but_for_backslashes(word: Seq<char>, c: char, rest: Seq<char>)
    ensures
        c != '"' && c != '\\' ==> words_of(backslashed(word).push('"').push(c) + rest) == words_of(
            backslashed(word.push(c)).push('"') + rest,
        ),
        words_of(backslashed(word).push('"').push('\\').push(c) + rest) == words_of(
            backslashed(word.push(c)).push('"') + rest,
        ),
        words_of(backslashed(word).push('"').push('"') + rest) == words_of(
            backslashed(word) + rest,
        ),
{
    let open = backslashed(word).push('"');
    let more = backslashed(word.push(c)).push('"');
    assert(marks(seq![]) =~= seq![]);
    backslashes_spell(word);
    backslashes_spell(word.push(c));
    lemma_marks_push(backslashed(word), '"');
    lemma_marks_push(backslashed(word.push(c)), '"');
    if c != '"' && c != '\\' {
        lemma_marks_push(open, c);
        lemma_same_reading(open.push(c), more, rest);
    }
    lemma_marks_push(open, '\\');
    lemma_marks_push(open.push('\\'), c);
    lemma_same_reading(open.push('\\').push(c), more, rest);
    lemma_marks_push(open, '"');
    lemma_same_reading(open.push('"'), backslashed(word), rest);
}

/// What stands for a word, character by character, is a backslash before each.
pub proof fn backslashed_words_grow_by_two(word: Seq<char>, c: char)
    ensures
        backslashed(Seq::empty()) == Seq::<char>::empty(),
        backslashed(word.push(c)) == backslashed(word) + seq!['\\', c],
{
    assert(word.push(c).drop_last() =~= word);
    assert(backslashed(word).push('\\').push(c) =~= backslashed(word) + seq!['\\', c]);
}

} // verus!
