//! Text fitted to a number of terminal columns.

use vstd::prelude::*;
use crate::text;
use crate::text::{
    concatenated, lemma_concatenated_push, lemma_texts_push, repeated, texts,
    white_space, words,
};

verus! {

/// The number of terminal columns that `Span::width` of the `ratatui` crate counts for a text.
pub uninterp spec fn display_columns(s: Seq<char>) -> nat;

/// `Span::width` of the `ratatui` crate: the columns that a text takes when it is laid out, two
/// of them for a wide character.
#[verifier::external_body]
fn measured(text: &str) -> (columns: usize)
    ensures
        columns == display_columns(text@),
{
    ratatui::text::Span::raw(text).width()
}

/// The number of terminal columns that `text` takes.
pub fn display_width(text: &str) -> (columns: usize)
    ensures
        columns == display_columns(text@),
{
    measured(text)
}

/// The columns of a part of a row; the space between two words counts as one.
pub open spec fn part_columns(part: Seq<char>) -> int {
    if part == seq![' '] {
        1
    } else {
        display_columns(part) as int
    }
}

/// The columns of the parts of a row.
pub open spec fn row_columns(parts: Seq<Seq<char>>) -> int
    decreases parts.len(),
{
    if parts.len() == 0 {
        0
    } else {
        row_columns(parts.drop_last()) + part_columns(parts.last())
    }
}

/// Rows being filled: the finished ones, and the parts and columns of the current one.
pub struct Wrapping {
    pub rows: Seq<Seq<Seq<char>>>,
    pub row: Seq<Seq<char>>,
    pub columns: int,
}

impl Wrapping {
    /// No row finished, and the current one empty.
    pub open spec fn start() -> Self {
        Wrapping { rows: Seq::empty(), row: Seq::empty(), columns: 0 }
    }

    /// The current row finished.
    pub open spec fn broken(self) -> Self {
        Wrapping { rows: self.rows.push(self.row), row: Seq::empty(), columns: 0 }
    }

    /// One more part in the current row.
    pub open spec fn with_part(self, part: Seq<char>) -> Self {
        Wrapping {
            row: self.row.push(part),
            columns: self.columns + part_columns(part),
            ..self
        }
    }

    /// One more character of a word that is too wide for a row; where it does not fit, in a new
    /// row.
    pub open spec fn with_char(self, c: char, width: int) -> Self {
        let w = if self.columns > 0 && self.columns + part_columns(seq![c]) > width {
            self.broken()
        } else {
            self
        };
        w.with_part(seq![c])
    }

    /// The characters of a word that is too wide for a row.
    pub open spec fn with_chars(self, word: Seq<char>, width: int) -> Self
        decreases word.len(),
    {
        if word.len() == 0 {
            self
        } else {
            self.with_chars(word.drop_last(), width).with_char(word.last(), width)
        }
    }

    /// One more word: behind a space where it fits into the current row, else in a new row, and
    /// broken up where it is too wide for any row.
    pub open spec fn with_word(self, word: Seq<char>, width: int) -> Self {
        let columns = display_columns(word) as int;
        if columns > width {
            let w = if self.columns > 0 {
                self.broken()
            } else {
                self
            };
            w.with_chars(word, width)
        } else {
            let w = if self.columns > 0 && self.columns + 1 + columns > width {
                self.broken()
            } else {
                self
            };
            let spaced = if w.columns > 0 {
                w.with_part(seq![' '])
            } else {
                w
            };
            spaced.with_part(word)
        }
    }

    /// All rows, the current one among them unless it takes no columns and others are there.
    pub open spec fn all(self) -> Seq<Seq<Seq<char>>> {
        if self.columns > 0 || self.rows.len() == 0 {
            self.rows.push(self.row)
        } else {
            self.rows
        }
    }
}

/// The rows into which `words` are wrapped.
pub open spec fn wrapped_words(words: Seq<Seq<char>>, width: int) -> Wrapping
    decreases words.len(),
{
    if words.len() == 0 {
        Wrapping::start()
    } else {
        wrapped_words(words.drop_last(), width).with_word(words.last(), width)
    }
}

/// The parts of the rows into which `text` is wrapped.
pub open spec fn wrapped_parts(text: Seq<char>, width: int) -> Seq<Seq<Seq<char>>> {
    wrapped_words(words(text), width).all()
}

/// Rows as texts.
pub open spec fn row_texts(rows: Seq<Seq<Seq<char>>>) -> Seq<Seq<char>> {
    rows.map_values(|parts: Seq<Seq<char>>| concatenated(parts))
}

/// The rows of at most `width` columns into which `text` is wrapped; without columns, all of it
/// is one row.
pub open spec fn wrapped(text: Seq<char>, width: int) -> Seq<Seq<char>> {
    if width == 0 {
        seq![text]
    } else {
        row_texts(wrapped_parts(text, width))
    }
}

/// A row being filled: what [`Wrapping`] describes.
struct RowWriter {
    rows: Vec<String>,
    row: String,
    columns: usize,
}

impl RowWriter {
    spec fn writes(self, w: Wrapping) -> bool {
        &&& texts(self.rows@) == row_texts(w.rows)
        &&& self.row@ == concatenated(w.row)
        &&& self.columns == w.columns
    }

    fn new() -> (writer: Self)
        ensures
            writer.writes(Wrapping::start()),
    {
        let writer = RowWriter { rows: Vec::new(), row: String::new(), columns: 0 };
        assert(texts(writer.rows@) =~= row_texts(Wrapping::start().rows));
        writer
    }

    fn finish_row(&mut self, Ghost(w): Ghost<Wrapping>)
        requires
            old(self).writes(w),
        ensures
            final(self).writes(w.broken()),
    {
        let mut row = String::new();
        std::mem::swap(&mut row, &mut self.row);
        proof {
            lemma_texts_push(self.rows@, row);
            assert(row_texts(w.rows.push(w.row)) =~= row_texts(w.rows).push(row@));
        }
        self.rows.push(row);
        self.columns = 0;
    }

    fn add_char(&mut self, c: char, width: usize, Ghost(w): Ghost<Wrapping>)
        requires
            old(self).writes(w),
            c != ' ',
        ensures
            final(self).writes(w.with_char(c, width as int)),
    {
        let piece = text::char_text(c);
        let columns: usize = display_width(piece.as_str());
        assert(piece@[0] == c);
        assert(seq![' '][0] == ' ');
        let ghost mut v = w;
        if self.columns > 0 && (self.columns > width || columns > width - self.columns) {
            self.finish_row(Ghost(w));
            proof {
                v = w.broken();
            }
        }
        proof {
            lemma_concatenated_push(v.row, seq![c]);
            assert(concatenated(v.row) + seq![c] =~= concatenated(v.row).push(c));
        }
        self.row.push(c);
        self.columns = self.columns + columns;
    }

    fn add_word(&mut self, word: &String, width: usize, Ghost(w): Ghost<Wrapping>)
        requires
            old(self).writes(w),
            forall|i: int| 0 <= i < word@.len() ==> !white_space(#[trigger] word@[i]),
        ensures
            final(self).writes(w.with_word(word@, width as int)),
    {
        let columns: usize = display_width(word.as_str());
        assert(word@ != seq![' ']) by {
            assert(seq![' '][0] == ' ');
        }
        if columns > width {
            let ghost mut start = w;
            if self.columns > 0 {
                self.finish_row(Ghost(w));
                proof {
                    start = w.broken();
                }
            }
            let chars = text::chars_of(word.as_str());
            let n: usize = chars.len();
            let mut i: usize = 0;
            assert(word@.take(0).len() == 0);
            while i < n
                invariant
                    i <= n,
                    n == chars@.len(),
                    chars@ == word@,
                    forall|k: int| 0 <= k < word@.len() ==> !white_space(#[trigger] word@[k]),
                    self.writes(start.with_chars(word@.take(i as int), width as int)),
                decreases n - i,
            {
                let c: char = chars[i];
                assert(!white_space(word@[i as int]));
                let ghost before = start.with_chars(word@.take(i as int), width as int);
                assert(word@.take(i as int + 1).drop_last() =~= word@.take(i as int));
                self.add_char(c, width, Ghost(before));
                i = i + 1;
            }
            assert(word@.take(n as int) =~= word@);
        } else {
            let ghost mut v = w;
            if self.columns > 0 && (self.columns >= width || columns > width - self.columns - 1) {
                self.finish_row(Ghost(w));
                proof {
                    v = w.broken();
                }
            }
            if self.columns > 0 {
                proof {
                    lemma_concatenated_push(v.row, seq![' ']);
                    assert(concatenated(v.row) + seq![' '] =~= concatenated(v.row).push(' '));
                    v = v.with_part(seq![' ']);
                }
                self.row.push(' ');
                self.columns = self.columns + 1;
            }
            proof {
                lemma_concatenated_push(v.row, word@);
            }
            self.row.append(word.as_str());
            self.columns = self.columns + columns;
        }
    }
}

/// The words of a text hold no white space.
pub proof fn lemma_words_hold_no_space(s: Seq<char>)
    ensures
        forall|i: int, j: int|
            0 <= i < words(s).len() && 0 <= j < words(s)[i].len() ==> !white_space(
                #[trigger] words(s)[i][j],
            ),
    decreases s.len(),
{
    let t = text::trim_start(s);
    let n = text::word_len(t);
    if 0 < n <= t.len() && t.len() <= s.len() {
        let rest = t.skip(n);
        lemma_words_hold_no_space(rest);
        text::lemma_word_len_bounds(t);
        assert forall|i: int, j: int|
            0 <= i < words(s).len() && 0 <= j < words(s)[i].len() implies !white_space(
            #[trigger] words(s)[i][j],
        ) by {
            if i == 0 {
                assert(words(s)[0] == t.take(n));
                assert(words(s)[0][j] == t[j]);
            } else {
                assert(words(s)[i] == words(rest)[i - 1]);
                assert(!white_space(words(rest)[i - 1][j]));
            }
        }
    }
}

/// Wraps `text` into rows of at most `width` columns, between words where they fit into a row.
pub fn wrap_value(text: &str, width: usize) -> (rows: Vec<String>)
    ensures
        texts(rows@) == wrapped(text@, width as int),
{
    if width == 0 {
        let mut rows: Vec<String> = Vec::new();
        rows.push(text.to_string());
        assert(texts(rows@) =~= seq![text@]);
        return rows;
    }
    let parts = text::split_words(text);
    let n: usize = parts.len();
    let mut writer = RowWriter::new();
    let mut i: usize = 0;
    proof {
        lemma_words_hold_no_space(text@);
        assert(words(text@).take(0).len() == 0);
    }
    while i < n
        invariant
            i <= n,
            n == parts@.len(),
            texts(parts@) == words(text@),
            forall|a: int, b: int|
                0 <= a < words(text@).len() && 0 <= b < words(text@)[a].len() ==> !white_space(
                    #[trigger] words(text@)[a][b],
                ),
            writer.writes(wrapped_words(words(text@).take(i as int), width as int)),
        decreases n - i,
    {
        let ghost before = wrapped_words(words(text@).take(i as int), width as int);
        proof {
            assert(texts(parts@)[i as int] == parts@[i as int]@);
            assert(words(text@).take(i as int + 1).drop_last() =~= words(text@).take(i as int));
            assert forall|k: int| 0 <= k < parts@[i as int]@.len() implies !white_space(
                #[trigger] parts@[i as int]@[k],
            ) by {
                assert(!white_space(words(text@)[i as int][k]));
            }
        }
        writer.add_word(&parts[i], width, Ghost(before));
        i = i + 1;
    }
    assert(words(text@).take(n as int) =~= words(text@));
    if writer.columns > 0 || writer.rows.len() == 0 {
        writer.finish_row(Ghost(wrapped_words(words(text@), width as int)));
    }
    writer.rows
}

/// Whatever the text, there is a first row.
pub proof fn lemma_wrapped_has_a_row(text: Seq<char>, width: int)
    ensures
        wrapped(text, width).len() >= 1,
{
}

/// Whether a row takes no more than `width` columns, or is as wide as one character that is
/// wider by itself.
pub open spec fn fits(parts: Seq<Seq<char>>, width: int) -> bool {
    ||| row_columns(parts) <= width
    ||| parts.last().len() == 1 && row_columns(parts) == part_columns(parts.last())
}

spec fn fitting(w: Wrapping, width: int) -> bool {
    &&& forall|i: int| 0 <= i < w.rows.len() ==> fits(#[trigger] w.rows[i], width)
    &&& fits(w.row, width)
    &&& w.columns == row_columns(w.row)
    &&& w.columns >= 0
}

proof fn lemma_with_part_columns(w: Wrapping, part: Seq<char>)
    requires
        w.columns == row_columns(w.row),
    ensures
        w.with_part(part).columns == row_columns(w.with_part(part).row),
{
    assert(w.row.push(part).drop_last() =~= w.row);
}

proof fn lemma_chars_fit(w: Wrapping, word: Seq<char>, width: int)
    requires
        fitting(w, width),
        width >= 0,
    ensures
        fitting(w.with_chars(word, width), width),
    decreases word.len(),
{
    if word.len() > 0 {
        lemma_chars_fit(w, word.drop_last(), width);
        let v = w.with_chars(word.drop_last(), width);
        let c = word.last();
        let u = if v.columns > 0 && v.columns + part_columns(seq![c]) > width {
            v.broken()
        } else {
            v
        };
        lemma_with_part_columns(u, seq![c]);
        assert(fitting(u.with_part(seq![c]), width));
    }
}

proof fn lemma_words_fit(list: Seq<Seq<char>>, width: int)
    requires
        width > 0,
        forall|i: int| 0 <= i < list.len() ==> #[trigger] list[i] != seq![' '],
    ensures
        fitting(wrapped_words(list, width), width),
    decreases list.len(),
{
    if list.len() > 0 {
        let before = list.drop_last();
        assert forall|i: int| 0 <= i < before.len() implies #[trigger] before[i] != seq![' '] by {
            assert(before[i] == list[i]);
        }
        lemma_words_fit(before, width);
        let w = wrapped_words(list.drop_last(), width);
        let word = list.last();
        let columns = display_columns(word) as int;
        if columns > width {
            let v = if w.columns > 0 {
                w.broken()
            } else {
                w
            };
            assert(fitting(v, width));
            lemma_chars_fit(v, word, width);
        } else {
            let v = if w.columns > 0 && w.columns + 1 + columns > width {
                w.broken()
            } else {
                w
            };
            let spaced = if v.columns > 0 {
                v.with_part(seq![' '])
            } else {
                v
            };
            lemma_with_part_columns(v, seq![' ']);
            lemma_with_part_columns(spaced, word);
            assert(seq![' '].len() == 1);
        }
    }
}

/// No row is wider than asked for, the columns of its parts added up, but for one that holds a
/// single character that is wider by itself.
pub proof fn lemma_wrapped_rows_fit(text: Seq<char>, width: int)
    requires
        width > 0,
    ensures
        forall|i: int|
            0 <= i < wrapped_parts(text, width).len() ==> fits(
                #[trigger] wrapped_parts(text, width)[i],
                width,
            ),
{
    lemma_words_hold_no_space(text);
    let list = words(text);
    assert forall|i: int| 0 <= i < list.len() implies #[trigger] list[i] != seq![' '] by {
        if list[i] == seq![' '] {
            assert(!white_space(list[i][0]));
        }
    }
    lemma_words_fit(list, width);
}

/// `s` without its white space.
pub open spec fn solid(s: Seq<char>) -> Seq<char> {
    s.filter(|c: char| !white_space(c))
}

proof fn lemma_solid_add(a: Seq<char>, b: Seq<char>)
    ensures
        solid(a + b) == solid(a) + solid(b),
{
    Seq::filter_distributes_over_add(a, b, |c: char| !white_space(c));
}

proof fn lemma_solid_of_solid(s: Seq<char>)
    requires
        forall|i: int| 0 <= i < s.len() ==> !white_space(#[trigger] s[i]),
    ensures
        solid(s) == s,
    decreases s.len(),
{
    reveal(Seq::filter);
    if s.len() > 0 {
        let t = s.drop_last();
        assert forall|i: int| 0 <= i < t.len() implies !white_space(#[trigger] t[i]) by {
            assert(t[i] == s[i]);
        }
        lemma_solid_of_solid(t);
        assert(!white_space(s[s.len() - 1]));
        assert(t.push(s.last()) =~= s);
    }
}

proof fn lemma_solid_of_space(s: Seq<char>)
    requires
        forall|i: int| 0 <= i < s.len() ==> white_space(#[trigger] s[i]),
    ensures
        solid(s) == Seq::<char>::empty(),
    decreases s.len(),
{
    reveal(Seq::filter);
    if s.len() > 0 {
        let t = s.drop_last();
        assert forall|i: int| 0 <= i < t.len() implies white_space(#[trigger] t[i]) by {
            assert(t[i] == s[i]);
        }
        lemma_solid_of_space(t);
        assert(white_space(s[s.len() - 1]));
    }
}

proof fn lemma_trim_start_keeps_solid(s: Seq<char>)
    ensures
        solid(text::trim_start(s)) == solid(s),
    decreases s.len(),
{
    if s.len() > 0 && white_space(s[0]) {
        lemma_trim_start_keeps_solid(s.drop_first());
        let head = seq![s[0]];
        lemma_solid_of_space(head);
        lemma_solid_add(head, s.drop_first());
        assert(head + s.drop_first() =~= s);
        assert(solid(s) =~= solid(s.drop_first()));
    }
}

/// What comes first among the parts comes first in the text.
pub(crate) proof fn lemma_concatenated_front(first: Seq<char>, rest: Seq<Seq<char>>)
    ensures
        concatenated(seq![first] + rest) == first + concatenated(rest),
    decreases rest.len(),
{
    let all = seq![first] + rest;
    if rest.len() == 0 {
        assert(all.drop_last().len() == 0);
        assert(concatenated(all.drop_last()) =~= Seq::<char>::empty());
        assert(all.last() == first);
        assert(concatenated(all) =~= first + concatenated(rest));
    } else {
        assert(all.drop_last() =~= seq![first] + rest.drop_last());
        lemma_concatenated_front(first, rest.drop_last());
        assert(all.last() == rest.last());
        assert(concatenated(all) =~= first + concatenated(rest));
    }
}

/// The words of a text, one behind the other, are the text without its white space.
pub proof fn lemma_words_keep_text(s: Seq<char>)
    ensures
        concatenated(words(s)) == solid(s),
    decreases s.len(),
{
    let t = text::trim_start(s);
    let n = text::word_len(t);
    lemma_trim_start_keeps_solid(s);
    text::lemma_trim_start_shorter(s);
    text::lemma_word_len_bounds(t);
    if 0 < n <= t.len() && t.len() <= s.len() {
        let head = t.take(n);
        let rest = t.skip(n);
        lemma_words_keep_text(rest);
        lemma_concatenated_front(head, words(rest));
        assert(head + rest =~= t);
        lemma_solid_add(head, rest);
        assert forall|i: int| 0 <= i < head.len() implies !white_space(#[trigger] head[i]) by {
            assert(head[i] == t[i]);
        }
        lemma_solid_of_solid(head);
    } else {
        assert(t.len() == 0);
        reveal(Seq::filter);
        assert(solid(t) =~= Seq::<char>::empty());
    }
}

/// What the rows hold, one behind the other.
spec fn content(w: Wrapping) -> Seq<char> {
    concatenated(row_texts(w.rows)) + concatenated(w.row)
}

proof fn lemma_broken_keeps_content(w: Wrapping)
    ensures
        content(w.broken()) == content(w),
{
    assert(row_texts(w.rows.push(w.row)) =~= row_texts(w.rows).push(concatenated(w.row)));
    lemma_concatenated_push(row_texts(w.rows), concatenated(w.row));
    assert(content(w.broken()) =~= content(w));
}

proof fn lemma_part_adds_content(w: Wrapping, part: Seq<char>)
    ensures
        content(w.with_part(part)) == content(w) + part,
{
    lemma_concatenated_push(w.row, part);
    assert(content(w.with_part(part)) =~= content(w) + part);
}

proof fn lemma_chars_add_content(w: Wrapping, word: Seq<char>, width: int)
    ensures
        content(w.with_chars(word, width)) == content(w) + word,
    decreases word.len(),
{
    if word.len() == 0 {
        assert(content(w) + word =~= content(w));
    } else {
        let before = word.drop_last();
        lemma_chars_add_content(w, before, width);
        let v = w.with_chars(before, width);
        let c = word.last();
        lemma_broken_keeps_content(v);
        lemma_part_adds_content(v, seq![c]);
        lemma_part_adds_content(v.broken(), seq![c]);
        assert(content(w) + before + seq![c] =~= content(w) + word);
    }
}

proof fn lemma_word_adds_content(w: Wrapping, word: Seq<char>, width: int)
    ensures
        solid(content(w.with_word(word, width))) == solid(content(w)) + solid(word),
{
    lemma_broken_keeps_content(w);
    let columns = display_columns(word) as int;
    if columns > width {
        let v = if w.columns > 0 {
            w.broken()
        } else {
            w
        };
        lemma_chars_add_content(v, word, width);
        lemma_solid_add(content(v), word);
    } else {
        let v = if w.columns > 0 && w.columns + 1 + columns > width {
            w.broken()
        } else {
            w
        };
        let space = seq![' '];
        lemma_part_adds_content(v, space);
        lemma_part_adds_content(v.with_part(space), word);
        lemma_part_adds_content(v, word);
        lemma_solid_of_space(space);
        lemma_solid_add(content(v), space);
        lemma_solid_add(content(v) + space, word);
        lemma_solid_add(content(v), word);
        assert(solid(content(v)) + Seq::<char>::empty() =~= solid(content(v)));
    }
}

proof fn lemma_rows_keep_words(list: Seq<Seq<char>>, width: int)
    ensures
        solid(content(wrapped_words(list, width))) == solid(concatenated(list)),
    decreases list.len(),
{
    if list.len() == 0 {
        let w = Wrapping::start();
        assert(row_texts(w.rows) =~= Seq::empty());
        assert(content(w) =~= Seq::empty());
    } else {
        lemma_rows_keep_words(list.drop_last(), width);
        lemma_word_adds_content(wrapped_words(list.drop_last(), width), list.last(), width);
        lemma_solid_add(concatenated(list.drop_last()), list.last());
    }
}

/// Wrapping loses no character but white space, and keeps the others in order. The last row is
/// left out where it takes no columns; texts that end in such a row are not spoken of.
pub proof fn lemma_wrapped_keeps_text(text: Seq<char>, width: int)
    requires
        width > 0,
        wrapped_words(words(text), width).columns > 0 || words(text).len() == 0,
    ensures
        solid(concatenated(wrapped(text, width))) == solid(text),
{
    let w = wrapped_words(words(text), width);
    lemma_rows_keep_words(words(text), width);
    lemma_words_keep_text(text);
    lemma_words_hold_no_space(text);
    lemma_broken_keeps_content(w);
    assert(w.all() == w.rows.push(w.row));
    assert(content(w.broken()) =~= concatenated(row_texts(w.all())));
    let all = solid(text);
    assert forall|i: int| 0 <= i < all.len() implies !white_space(#[trigger] all[i]) by {
        text.lemma_filter_pred(|c: char| !white_space(c), i);
    }
    lemma_solid_of_solid(all);
}

/// How many characters of `text` fit into `budget` columns.
pub open spec fn fitting_chars(text: Seq<char>, budget: int) -> int
    decreases text.len(),
{
    if text.len() == 0 || display_columns(seq![text[0]]) > budget {
        0
    } else {
        1 + fitting_chars(text.drop_first(), budget - display_columns(seq![text[0]]))
    }
}

/// `text` cut to `columns` columns, with dots at the end where it was cut.
pub open spec fn cut_to_columns(text: Seq<char>, columns: int) -> Seq<char> {
    if display_columns(text) <= columns {
        text
    } else if columns <= 3 {
        repeated('.', columns as nat)
    } else {
        text.take(fitting_chars(text, columns - 3)) + "..."@
    }
}

/// Cuts `text` to `max_columns` columns, with dots at the end where it was cut.
pub fn truncate_display(text: &str, max_columns: usize) -> (shown: String)
    ensures
        shown@ == cut_to_columns(text@, max_columns as int),
{
    if display_width(text) <= max_columns {
        return text.to_string();
    }
    if max_columns <= 3 {
        return text::repeat_char('.', max_columns);
    }
    let budget: usize = max_columns - 3;
    let chars = text::chars_of(text);
    let n: usize = chars.len();
    let mut shown = String::new();
    let mut width: usize = 0;
    let mut i: usize = 0;
    let mut fits = true;
    assert(text@.take(0) =~= Seq::empty());
    assert(text@.skip(0) =~= text@);
    while fits && i < n
        invariant
            i <= n,
            n == chars@.len(),
            chars@ == text@,
            width <= budget,
            shown@ == text@.take(i as int),
            fits ==> fitting_chars(text@, budget as int) == i + fitting_chars(
                text@.skip(i as int),
                budget - width,
            ),
            !fits ==> fitting_chars(text@, budget as int) == i,
        decreases n - i, (if fits { 1int } else { 0int }),
    {
        let c: char = chars[i];
        let piece = text::char_text(c);
        let columns: usize = display_width(piece.as_str());
        let ghost rest = text@.skip(i as int);
        assert(rest[0] == c);
        assert(rest.drop_first() =~= text@.skip(i as int + 1));
        if columns > budget - width {
            fits = false;
        } else {
            shown.push(c);
            width = width + columns;
            i = i + 1;
            assert(text@.take(i as int) =~= text@.take(i as int - 1).push(c));
        }
    }
    assert(text@.skip(n as int).len() == 0);
    shown.append("...");
    shown
}

/// The columns of the characters of `text`, added up.
pub open spec fn char_columns(text: Seq<char>) -> int
    decreases text.len(),
{
    if text.len() == 0 {
        0
    } else {
        display_columns(seq![text[0]]) + char_columns(text.drop_first())
    }
}

/// What is kept of a cut text takes no more columns than there are, its characters added up,
/// and is a beginning of the text.
pub proof fn lemma_kept_characters_fit(text: Seq<char>, budget: int)
    requires
        budget >= 0,
    ensures
        0 <= fitting_chars(text, budget) <= text.len(),
        char_columns(text.take(fitting_chars(text, budget))) <= budget,
    decreases text.len(),
{
    if text.len() > 0 && display_columns(seq![text[0]]) <= budget {
        let rest = text.drop_first();
        let left = budget - display_columns(seq![text[0]]);
        lemma_kept_characters_fit(rest, left);
        let n = fitting_chars(rest, left);
        let kept = text.take(1 + n);
        assert(kept.drop_first() =~= rest.take(n));
        assert(kept[0] == text[0]);
    } else {
        assert(text.take(0).len() == 0);
    }
}

/// `s` cut to `max` characters, with dots at the end where it has more than that.
pub open spec fn cut_to_length(s: Seq<char>, max: int) -> Seq<char> {
    if s.len() <= max {
        s
    } else if max <= 3 {
        s.take(max)
    } else {
        s.take(max - 3) + "..."@
    }
}

/// Cuts `s` to `max_len` characters, with dots at the end where it has more than that.
pub fn truncate_str(s: &str, max_len: usize) -> (shown: String)
    ensures
        shown@ == cut_to_length(s@, max_len as int),
{
    let chars = text::chars_of(s);
    if chars.len() <= max_len {
        return s.to_string();
    }
    let end: usize = if max_len <= 3 {
        max_len
    } else {
        max_len - 3
    };
    let mut shown = text::text_of(&chars, 0, end);
    assert(s@.subrange(0, end as int) =~= s@.take(end as int));
    if max_len > 3 {
        shown.append("...");
    }
    shown
}

/// A text that was cut has no more characters than it was cut to.
pub proof fn lemma_cut_text_is_short(s: Seq<char>, max: int)
    requires
        max >= 0,
    ensures
        cut_to_length(s, max).len() <= max,
        cut_to_length(s, max).len() <= s.len(),
{
    reveal_strlit("...");
}

/// A text that fits stays whole. One that does not is cut to its first characters with three dots
/// behind them, and those characters leave three columns free; where not even the dots fit, as
/// many of them stand as there are columns.
pub proof fn lemma_cut_text_begins_as_it_did(text: Seq<char>, columns: int)
    requires
        0 <= columns,
    ensures
        ({
            let shown = cut_to_columns(text, columns);
            &&& display_columns(text) <= columns ==> shown == text
            &&& display_columns(text) > columns > 3 ==> {
                &&& shown.len() >= 3
                &&& shown.len() - 3 <= text.len()
                &&& forall|i: int| 0 <= i < shown.len() - 3 ==> #[trigger] shown[i] == text[i]
                &&& forall|i: int|
                    shown.len() - 3 <= i < shown.len() ==> #[trigger] shown[i] == '.'
            }
            &&& display_columns(text) > columns && columns <= 3 ==> shown.len() == columns && (
            forall|i: int| 0 <= i < shown.len() ==> #[trigger] shown[i] == '.')
        }),
{
    if display_columns(text) > columns && columns > 3 {
        lemma_fitting_within(text, columns - 3);
        reveal_strlit("...");
    }
}

/// No more characters fit than there are.
proof fn lemma_fitting_within(text: Seq<char>, budget: int)
    ensures
        0 <= fitting_chars(text, budget) <= text.len(),
    decreases text.len(),
{
    if text.len() > 0 {
        lemma_fitting_within(text.drop_first(), budget - display_columns(seq![text[0]]));
    }
}

} // verus!
