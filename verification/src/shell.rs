//! Quoting of words for a POSIX shell, and a model of how such a shell reads
//! them back.
//!
//! A word that is handed to a remote shell as part of a command line must
//! reach the program it is meant for unchanged, whatever characters it holds.
//! [`quote`] writes a word so that this is the case, and
//! [`lemma_quoted_reads_back`] proves it against [`read_line`].

use vstd::prelude::*;

verus! {

/// Characters that a shell takes literally wherever they stand in a word:
/// ASCII letters and digits and `_ - . / : , + @ %`.
pub open spec fn is_plain_char(c: char) -> bool {
    ||| 'a' <= c <= 'z'
    ||| 'A' <= c <= 'Z'
    ||| '0' <= c <= '9'
    ||| c == '_'
    ||| c == '-'
    ||| c == '.'
    ||| c == '/'
    ||| c == ':'
    ||| c == ','
    ||| c == '+'
    ||| c == '@'
    ||| c == '%'
}

/// A word that needs no quoting: not empty, plain characters only.
pub open spec fn is_plain_word(w: Seq<char>) -> bool {
    w.len() > 0 && forall|i: int| 0 <= i < w.len() ==> is_plain_char(#[trigger] w[i])
}

/// What stands for `c` between single quotes. Nothing is special there but
/// the quote itself, which is written by leaving the quotes, escaping one
/// quote with a backslash, and entering them again.
pub open spec fn escape_char(c: char) -> Seq<char> {
    if c == '\'' {
        seq!['\'', '\\', '\'', '\'']
    } else {
        seq![c]
    }
}

/// The characters of `w`, each as it stands between single quotes.
pub open spec fn escaped(w: Seq<char>) -> Seq<char>
    decreases w.len(),
{
    if w.len() == 0 {
        Seq::empty()
    } else {
        escaped(w.drop_last()) + escape_char(w.last())
    }
}

/// The text that a shell reads as the single word `w`: the word itself if it
/// is plain, otherwise the word between single quotes.
pub open spec fn quoted(w: Seq<char>) -> Seq<char> {
    if is_plain_word(w) {
        w
    } else {
        seq!['\''] + escaped(w) + seq!['\'']
    }
}

/// The words, each quoted, with one space between neighbours.
pub open spec fn quoted_words(words: Seq<Seq<char>>) -> Seq<char>
    decreases words.len(),
{
    if words.len() == 0 {
        Seq::empty()
    } else if words.len() == 1 {
        quoted(words[0])
    } else {
        quoted_words(words.drop_last()) + seq![' '] + quoted(words.last())
    }
}

/// Characters that stand for themselves outside quotes when a shell splits
/// a line into words: the plain ones and `=`.
pub open spec fn is_literal_char(c: char) -> bool {
    is_plain_char(c) || c == '='
}

/// Where a shell stands in a line: outside quotes, between single quotes, or
/// behind a backslash outside quotes.
pub enum Mode {
    Bare,
    Quoted,
    Escaped,
}

/// What a shell has made of a line so far: the commands that are complete,
/// the complete words of the command it is reading, and the characters of
/// the word it is reading, if it has begun one.
pub struct Reader {
    pub commands: Seq<Seq<Seq<char>>>,
    pub words: Seq<Seq<char>>,
    pub word: Option<Seq<char>>,
    pub mode: Mode,
}

impl Reader {
    /// The reader before the first character.
    pub open spec fn start() -> Reader {
        Reader { commands: Seq::empty(), words: Seq::empty(), word: None, mode: Mode::Bare }
    }

    /// The characters of the word being read; none where no word was begun.
    pub open spec fn pending(self) -> Seq<char> {
        match self.word {
            Some(w) => w,
            None => Seq::empty(),
        }
    }

    /// The reader after `text` was added to the word being read, in `mode`.
    pub open spec fn put(self, text: Seq<char>, mode: Mode) -> Reader {
        Reader { word: Some(self.pending() + text), mode, ..self }
    }

    /// The reader after the word being read, if any, was closed.
    pub open spec fn end_word(self) -> Reader {
        match self.word {
            Some(w) => Reader { words: self.words.push(w), word: None, ..self },
            None => self,
        }
    }

    /// The reader after one more character. Outside quotes a single quote
    /// opens a quoted stretch, a backslash makes the next character literal
    /// (and swallows a line break), a blank closes the word, a semicolon
    /// closes the word and the command, which must not be empty, and a
    /// literal character joins the word. Between quotes the quote closes the
    /// stretch and every other character joins the word. `None` for a
    /// character that means anything else to a shell (an operator, an
    /// expansion, a pattern, a comment).
    pub open spec fn step(self, c: char) -> Option<Reader> {
        match self.mode {
            Mode::Bare => {
                if c == '\'' {
                    Some(self.put(Seq::empty(), Mode::Quoted))
                } else if c == '\\' {
                    Some(Reader { mode: Mode::Escaped, ..self })
                } else if c == ' ' {
                    Some(self.end_word())
                } else if c == ';' {
                    let closed = self.end_word();
                    if closed.words.len() == 0 {
                        None
                    } else {
                        Some(
                            Reader {
                                commands: closed.commands.push(closed.words),
                                words: Seq::empty(),
                                ..closed
                            },
                        )
                    }
                } else if is_literal_char(c) {
                    Some(self.put(seq![c], Mode::Bare))
                } else {
                    None
                }
            },
            Mode::Quoted => {
                if c == '\'' {
                    Some(Reader { mode: Mode::Bare, ..self })
                } else {
                    Some(self.put(seq![c], Mode::Quoted))
                }
            },
            Mode::Escaped => {
                if c == '\n' {
                    Some(Reader { mode: Mode::Bare, ..self })
                } else {
                    Some(self.put(seq![c], Mode::Bare))
                }
            },
        }
    }

    /// The reader after all of `text`, if a shell can read it.
    pub open spec fn scan(self, text: Seq<char>) -> Option<Reader>
        decreases text.len(),
    {
        if text.len() == 0 {
            Some(self)
        } else {
            match self.step(text[0]) {
                Some(next) => next.scan(text.drop_first()),
                None => None,
            }
        }
    }

    /// The commands read when the line ends here: it must not end inside
    /// quotes or behind a backslash.
    pub open spec fn finish(self) -> Option<Seq<Seq<Seq<char>>>> {
        if self.mode != Mode::Bare {
            None
        } else {
            let closed = self.end_word();
            if closed.words.len() == 0 {
                Some(closed.commands)
            } else {
                Some(closed.commands.push(closed.words))
            }
        }
    }
}

/// The commands that a shell runs for `line`, one after the other, each as
/// the words it is made of: the program first, then its arguments. `None`
/// where the line holds anything but words, blanks and semicolons, or is
/// incomplete. This is about the words that a shell reads, not about what
/// it runs for them.
pub open spec fn read_line(line: Seq<char>) -> Option<Seq<Seq<Seq<char>>>> {
    match Reader::start().scan(line) {
        Some(reader) => reader.finish(),
        None => None,
    }
}

/// Reading a text is reading its first part and then its second.
pub proof fn lemma_scan_concat(reader: Reader, a: Seq<char>, b: Seq<char>)
    ensures
        reader.scan(a + b) == match reader.scan(a) {
            Some(next) => next.scan(b),
            None => None,
        },
    decreases a.len(),
{
    if a.len() == 0 {
        assert(a + b =~= b);
    } else {
        assert((a + b)[0] == a[0]);
        assert((a + b).drop_first() =~= a.drop_first() + b);
        match reader.step(a[0]) {
            Some(next) => lemma_scan_concat(next, a.drop_first(), b),
            None => {},
        }
    }
}

/// Reading one character is taking one step.
pub proof fn lemma_scan_one(reader: Reader, c: char)
    ensures
        reader.scan(seq![c]) == reader.step(c),
{
    assert(seq![c].drop_first() =~= Seq::<char>::empty());
    match reader.step(c) {
        Some(next) => {
            assert(next.scan(Seq::<char>::empty()) == Some(next));
        },
        None => {},
    }
}

/// Literal characters outside quotes join the word being read.
pub proof fn lemma_scan_literal(reader: Reader, text: Seq<char>)
    requires
        reader.mode == Mode::Bare,
        text.len() > 0,
        forall|i: int| 0 <= i < text.len() ==> is_literal_char(#[trigger] text[i]),
    ensures
        reader.scan(text) == Some(reader.put(text, Mode::Bare)),
    decreases text.len(),
{
    let c = text[0];
    let rest = text.drop_first();
    let next = reader.put(seq![c], Mode::Bare);
    assert(is_literal_char(c));
    assert(reader.step(c) == Some(next));
    if rest.len() == 0 {
        assert(text =~= seq![c]);
        assert(next.scan(rest) == Some(next));
    } else {
        assert forall|i: int| 0 <= i < rest.len() implies is_literal_char(#[trigger] rest[i]) by {
            assert(rest[i] == text[i + 1]);
        }
        lemma_scan_literal(next, rest);
        assert(next.pending() + rest =~= reader.pending() + text);
    }
}

/// Between quotes, the escaped form of `w` adds the characters of `w` to the
/// word being read, and the reader is between quotes again after it.
pub proof fn lemma_scan_escaped(reader: Reader, w: Seq<char>)
    requires
        reader.mode == Mode::Quoted,
        reader.word is Some,
    ensures
        reader.scan(escaped(w)) == Some(reader.put(w, Mode::Quoted)),
    decreases w.len(),
{
    if w.len() == 0 {
        assert(reader.pending() + w =~= reader.pending());
    } else {
        let front = w.drop_last();
        let c = w.last();
        let mid = reader.put(front, Mode::Quoted);
        lemma_scan_escaped(reader, front);
        lemma_scan_concat(reader, escaped(front), escape_char(c));
        assert(mid.pending() + seq![c] =~= reader.pending() + w) by {
            assert(front.push(c) =~= w);
        }
        if c == '\'' {
            let tail = escape_char(c);
            let r1 = Reader { mode: Mode::Bare, ..mid };
            let r2 = Reader { mode: Mode::Escaped, ..mid };
            let r3 = mid.put(seq![c], Mode::Bare);
            let r4 = mid.put(seq![c], Mode::Quoted);
            assert(mid.step(tail[0]) == Some(r1));
            assert(r1.step(tail[1]) == Some(r2));
            assert(r2.step(tail[2]) == Some(r3));
            assert(r3.step(tail[3]) == Some(r4)) by {
                assert(r3.pending() + Seq::<char>::empty() =~= r3.pending());
            }
            let t1 = tail.drop_first();
            let t2 = t1.drop_first();
            let t3 = t2.drop_first();
            assert(t1[0] == tail[1] && t2[0] == tail[2] && t3[0] == tail[3]);
            assert(t3.drop_first() =~= Seq::<char>::empty());
            assert(r4.scan(t3.drop_first()) == Some(r4));
            assert(r3.scan(t3) == Some(r4));
            assert(r2.scan(t2) == Some(r4));
            assert(r1.scan(t1) == Some(r4));
            assert(mid.scan(tail) == Some(r4));
        } else {
            lemma_scan_one(mid, c);
        }
    }
}

/// Outside quotes, the quoted form of `w` adds the characters of `w` to the
/// word being read, and the reader is outside quotes again after it.
pub proof fn lemma_scan_quoted(reader: Reader, w: Seq<char>)
    requires
        reader.mode == Mode::Bare,
    ensures
        reader.scan(quoted(w)) == Some(reader.put(w, Mode::Bare)),
{
    if is_plain_word(w) {
        lemma_scan_literal(reader, w);
    } else {
        let quote = seq!['\''];
        let opened = reader.put(Seq::empty(), Mode::Quoted);
        let filled = opened.put(w, Mode::Quoted);
        lemma_scan_one(reader, '\'');
        lemma_scan_escaped(opened, w);
        lemma_scan_one(filled, '\'');
        lemma_scan_concat(reader, quote, escaped(w));
        lemma_scan_concat(reader, quote + escaped(w), quote);
        assert(filled.pending() =~= reader.pending() + w);
    }
}

/// Outside quotes and between words, the quoted words are read as these
/// words: all but the last are complete, the last is still being read.
pub proof fn lemma_scan_quoted_words(reader: Reader, words: Seq<Seq<char>>)
    requires
        reader.mode == Mode::Bare,
        reader.word is None,
        words.len() > 0,
    ensures
        reader.scan(quoted_words(words)) == Some(
            Reader {
                words: reader.words + words.drop_last(),
                word: Some(words.last()),
                ..reader
            },
        ),
    decreases words.len(),
{
    let last = words.last();
    if words.len() == 1 {
        lemma_scan_quoted(reader, last);
        assert(reader.pending() + last =~= last);
        assert(reader.words + words.drop_last() =~= reader.words);
    } else {
        let front = words.drop_last();
        let blank = seq![' '];
        let before = Reader {
            words: reader.words + front.drop_last(),
            word: Some(front.last()),
            ..reader
        };
        let between = before.end_word();
        lemma_scan_quoted_words(reader, front);
        lemma_scan_one(before, ' ');
        lemma_scan_quoted(between, last);
        lemma_scan_concat(reader, quoted_words(front), blank);
        lemma_scan_concat(reader, quoted_words(front) + blank, quoted(last));
        assert(between.pending() + last =~= last);
        assert(between.words =~= reader.words + front);
    }
}

/// Quoting is sound: a shell reads the quoted form of a word as one command
/// of one word, and that word is `w`, whatever characters it holds.
pub proof fn lemma_quoted_reads_back(w: Seq<char>)
    ensures
        read_line(quoted(w)) == Some(seq![seq![w]]),
{
    let reader = Reader::start();
    lemma_scan_quoted(reader, w);
    assert(reader.pending() + w =~= w);
    let after = reader.put(w, Mode::Bare);
    assert(after.end_word().words =~= seq![w]);
    assert(after.end_word().commands.push(seq![w]) =~= seq![seq![w]]);
}

/// A line of quoted words is read as one command of exactly these words.
pub proof fn lemma_quoted_words_read_back(words: Seq<Seq<char>>)
    requires
        words.len() > 0,
    ensures
        read_line(quoted_words(words)) == Some(seq![words]),
{
    let reader = Reader::start();
    lemma_scan_quoted_words(reader, words);
    let after = Reader {
        words: reader.words + words.drop_last(),
        word: Some(words.last()),
        ..reader
    };
    assert(after.end_word().words =~= words);
    assert(after.end_word().commands.push(words) =~= seq![words]);
}

/// Whether `c` is a plain character.
pub fn is_plain(c: char) -> (b: bool)
    ensures
        b == is_plain_char(c),
{
    ('a' <= c && c <= 'z') || ('A' <= c && c <= 'Z') || ('0' <= c && c <= '9') || c == '_' || c
        == '-' || c == '.' || c == '/' || c == ':' || c == ',' || c == '+' || c == '@' || c == '%'
}

/// Whether `word` can stand in a command line as it is.
pub fn is_plain_str(word: &str) -> (b: bool)
    ensures
        b == is_plain_word(word@),
{
    let mut empty = true;
    let mut plain = true;
    for c in it: word.chars()
        invariant
            it.seq() == word@,
            empty == (it.index() == 0),
            plain == (forall|k: int| 0 <= k < it.index() ==> is_plain_char(#[trigger] word@[k])),
    {
        empty = false;
        if !is_plain(c) {
            plain = false;
        }
    }
    !empty && plain
}

/// Writes `word` so that a shell reads it as one word with exactly these
/// characters.
pub fn quote(word: &str) -> (s: String)
    ensures
        s@ == quoted(word@),
{
    if is_plain_str(word) {
        return String::from_str(word);
    }
    let n = word.unicode_len();
    let mut s = String::from_str("'");
    // The stretch from `start` to `i` holds no quote and is not written yet.
    let mut start: usize = 0;
    let mut i: usize = 0;
    proof {
        reveal_strlit("'");
        reveal_strlit("'\\''");
        assert(s@ + word@.subrange(0, 0) =~= seq!['\''] + escaped(word@.take(0)));
    }
    for c in it: word.chars()
        invariant
            it.seq() == word@,
            n == word@.len(),
            i == it.index(),
            start <= i <= n,
            s@ + word@.subrange(start as int, i as int) == seq!['\''] + escaped(
                word@.take(i as int),
            ),
            "'\\''"@ == seq!['\'', '\\', '\'', '\''],
    {
        proof {
            let next = word@.take(i + 1);
            assert(next.drop_last() =~= word@.take(i as int));
            assert(next.last() == c);
            assert(word@.subrange(start as int, i + 1) =~= word@.subrange(start as int, i as int)
                + seq![c]);
        }
        let ghost before = s@;
        let ghost run = word@.subrange(start as int, i as int);
        if c == '\'' {
            s.append(word.substring_char(start, i));
            s.append("'\\''");
            start = i + 1;
        }
        assert(s@ + word@.subrange(start as int, i + 1) =~= before + run + escape_char(c));
        i += 1;
    }
    s.append(word.substring_char(start, n));
    s.append("'");
    assert(word@.take(n as int) =~= word@);
    s
}

/// Writes a command line that a shell reads as the word `first` followed by
/// the words of `rest`.
pub fn quote_words(first: &str, rest: &Vec<String>) -> (line: String)
    ensures
        line@ == quoted_words(seq![first@] + rest.deep_view()),
{
    let ghost words = seq![first@] + rest.deep_view();
    let mut line = quote(first);
    let n = rest.len();
    let mut i: usize = 0;
    proof {
        reveal_strlit(" ");
        assert(words.take(1) =~= seq![first@]);
    }
    while i < n
        invariant
            n == rest@.len(),
            i <= n,
            words == seq![first@] + rest.deep_view(),
            line@ == quoted_words(words.take(i + 1)),
            " "@ == seq![' '],
        decreases n - i,
    {
        proof {
            let next = words.take(i + 2);
            assert(next.drop_last() =~= words.take(i + 1));
            assert(next.last() == rest@[i as int]@);
        }
        line.append(" ");
        let word = quote(rest[i].as_str());
        line.append(word.as_str());
        i += 1;
    }
    assert(words.take(n + 1) =~= words);
    line
}

} // verus!
