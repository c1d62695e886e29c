//! Assembly source: the text cut into lines, and each line into its fields.

use vstd::prelude::*;
use crate::text::{is_space, is_whitespace, texts, trim, trimmed};

verus! {

/// The pieces of `s` between line feeds, in order. A text with `n` line
/// feeds has `n + 1` pieces.
pub open spec fn split_lines(s: Seq<char>) -> Seq<Seq<char>>
    decreases s.len(),
{
    if s.len() == 0 {
        seq![Seq::<char>::empty()]
    } else {
        let before = split_lines(s.drop_last());
        if s.last() == '\n' {
            before.push(Seq::<char>::empty())
        } else {
            before.drop_last().push(before.last().push(s.last()))
        }
    }
}

/// The texts `pieces` with a line feed between each two neighbours.
pub open spec fn join_lines(pieces: Seq<Seq<char>>) -> Seq<char>
    decreases pieces.len(),
{
    if pieces.len() == 0 {
        Seq::empty()
    } else if pieces.len() == 1 {
        pieces[0]
    } else {
        join_lines(pieces.drop_last()).push('\n') + pieces.last()
    }
}

/// Cutting a text at its line feeds loses nothing but the line feeds: no
/// piece holds one, and the pieces with line feeds between them are the text.
pub proof fn lemma_split_lines(s: Seq<char>)
    ensures
        split_lines(s).len() >= 1,
        forall|i: int, j: int|
            0 <= i < split_lines(s).len() && 0 <= j < split_lines(s)[i].len() ==> split_lines(
                s,
            )[i][j] != '\n',
        join_lines(split_lines(s)) == s,
    decreases s.len(),
{
    if s.len() == 0 {
        assert(join_lines(split_lines(s)) =~= s);
    } else {
        lemma_split_lines(s.drop_last());
        let before = split_lines(s.drop_last());
        let pieces = split_lines(s);
        if s.last() == '\n' {
            assert(pieces.drop_last() =~= before);
            assert(join_lines(pieces) =~= s.drop_last().push('\n'));
        } else {
            if before.len() == 1 {
                assert(join_lines(pieces) =~= s.drop_last().push(s.last()));
            } else {
                assert(pieces.drop_last() =~= before.drop_last());
                assert(join_lines(pieces) =~= join_lines(before).push(s.last()));
            }
        }
        assert(s.drop_last().push(s.last()) =~= s);
    }
}

/// Number of characters of `s` that stand before its first `;`.
pub open spec fn code_length(s: Seq<char>) -> nat
    decreases s.len(),
{
    if s.len() == 0 || s[0] == ';' {
        0
    } else {
        1 + code_length(s.drop_first())
    }
}

/// The part of a line before its comment.
pub open spec fn code_of(s: Seq<char>) -> Seq<char> {
    s.subrange(0, code_length(s) as int)
}

/// `s` without the commas at its end.
pub open spec fn without_trailing_commas(s: Seq<char>) -> Seq<char>
    decreases s.len(),
{
    if s.len() > 0 && s.last() == ',' {
        without_trailing_commas(s.drop_last())
    } else {
        s
    }
}

/// A text read up to some point: the fields that have ended, and the
/// characters of the field that has not.
pub ghost struct Fields {
    pub done: Seq<Seq<char>>,
    pub open: Seq<char>,
}

impl Fields {
    /// The fields once the text ends here.
    pub open spec fn closed(self) -> Seq<Seq<char>> {
        if self.open.len() > 0 {
            self.done.push(without_trailing_commas(self.open))
        } else {
            self.done
        }
    }
}

/// Reads `s` character by character: white space ends a field, any other
/// character belongs to one. A field that ends loses its trailing commas.
pub open spec fn read_fields(s: Seq<char>) -> Fields
    decreases s.len(),
{
    if s.len() == 0 {
        Fields { done: Seq::empty(), open: Seq::empty() }
    } else {
        let before = read_fields(s.drop_last());
        if is_space(s.last()) {
            Fields { done: before.closed(), open: Seq::empty() }
        } else {
            Fields { done: before.done, open: before.open.push(s.last()) }
        }
    }
}

/// The fields of a piece of code: its runs of characters other than white
/// space, each without its trailing commas.
pub open spec fn fields_of(code: Seq<char>) -> Seq<Seq<char>> {
    read_fields(code).closed()
}

/// `without_trailing_commas(s)` is the longest start of `s` that does not end
/// with a comma.
pub proof fn lemma_without_trailing_commas(s: Seq<char>)
    ensures
        without_trailing_commas(s).len() <= s.len(),
        without_trailing_commas(s) == s.subrange(0, without_trailing_commas(s).len() as int),
        without_trailing_commas(s).len() > 0 ==> without_trailing_commas(s).last() != ',',
        forall|j: int| without_trailing_commas(s).len() <= j < s.len() ==> s[j] == ',',
    decreases s.len(),
{
    if s.len() > 0 && s.last() == ',' {
        lemma_without_trailing_commas(s.drop_last());
        let w = without_trailing_commas(s);
        assert(w =~= s.subrange(0, w.len() as int));
        assert forall|j: int| w.len() <= j < s.len() implies s[j] == ',' by {
            if j < s.len() - 1 {
                assert(s.drop_last()[j] == ',');
            }
        }
    } else {
        assert(s =~= s.subrange(0, s.len() as int));
    }
}

/// No character of `s` is white space.
pub open spec fn no_space(s: Seq<char>) -> bool {
    forall|j: int| 0 <= j < s.len() ==> !is_space(#[trigger] s[j])
}

proof fn lemma_read_fields(s: Seq<char>)
    ensures
        no_space(read_fields(s).open),
        forall|i: int|
            0 <= i < read_fields(s).done.len() ==> no_space(#[trigger] read_fields(s).done[i]),
        forall|i: int|
            0 <= i < read_fields(s).closed().len() ==> no_space(
                #[trigger] read_fields(s).closed()[i],
            ),
    decreases s.len(),
{
    if s.len() > 0 {
        lemma_read_fields(s.drop_last());
    }
    lemma_without_trailing_commas(read_fields(s).open);
}

/// No field holds white space: fields are what stands between white space.
pub proof fn lemma_fields_hold_no_space(code: Seq<char>)
    ensures
        forall|i: int| 0 <= i < fields_of(code).len() ==> no_space(#[trigger] fields_of(code)[i]),
{
    lemma_read_fields(code);
}

/// A line: its text without the white space around it, and the fields of its
/// code.
pub ghost struct LineModel {
    pub text: Seq<char>,
    pub fields: Seq<Seq<char>>,
}

pub open spec fn line_model(raw: Seq<char>) -> LineModel {
    LineModel { text: trimmed(raw), fields: fields_of(code_of(raw)) }
}

/// The lines among `raws` that hold code, that is at least one field, in
/// order. Blank lines and lines that hold only a comment have none.
pub open spec fn significant(raws: Seq<Seq<char>>) -> Seq<LineModel>
    decreases raws.len(),
{
    if raws.len() == 0 {
        Seq::empty()
    } else {
        let before = significant(raws.drop_last());
        if line_model(raws.last()).fields.len() > 0 {
            before.push(line_model(raws.last()))
        } else {
            before
        }
    }
}

/// A line with at least one field.
pub open spec fn holds_code(line: LineModel) -> bool {
    line.fields.len() > 0
}

/// Each of `lines` has at least one field.
pub open spec fn all_hold_code(lines: Seq<LineModel>) -> bool {
    forall|i: int| 0 <= i < lines.len() ==> holds_code(#[trigger] lines[i])
}

/// Every line that is kept holds code.
pub proof fn lemma_significant_hold_code(raws: Seq<Seq<char>>)
    ensures
        all_hold_code(significant(raws)),
    decreases raws.len(),
{
    if raws.len() > 0 {
        lemma_significant_hold_code(raws.drop_last());
    }
}

/// The lines of a program that hold code.
pub open spec fn program_lines(text: Seq<char>) -> Seq<LineModel> {
    significant(split_lines(text))
}

/// A line of code, as the assembler's passes read it.
pub struct Line {
    pub text: Vec<char>,
    pub fields: Vec<Vec<char>>,
}

impl View for Line {
    type V = LineModel;

    open spec fn view(&self) -> LineModel {
        LineModel { text: self.text@, fields: texts(self.fields@) }
    }
}

/// The views of the lines in `v`, in order.
pub open spec fn models(v: Seq<Line>) -> Seq<LineModel> {
    v.map_values(|l: Line| l@)
}

/// Cuts `text` at its line feeds.
pub fn split_text(text: &Vec<char>) -> (raws: Vec<Vec<char>>)
    ensures
        texts(raws@) == split_lines(text@),
{
    let mut raws: Vec<Vec<char>> = Vec::new();
    let mut piece: Vec<char> = Vec::new();
    let mut i: usize = 0;
    while i < text.len()
        invariant
            i <= text@.len(),
            texts(raws@).push(piece@) == split_lines(text@.subrange(0, i as int)),
        decreases text@.len() - i,
    {
        let ghost before = split_lines(text@.subrange(0, i as int));
        let ghost old_raws = texts(raws@);
        let ghost old_piece = piece@;
        assert(text@.subrange(0, i + 1).drop_last() =~= text@.subrange(0, i as int));
        assert(before.last() == old_piece);
        assert(before.drop_last() =~= old_raws);
        let c: char = text[i];
        if c == '\n' {
            raws.push(piece);
            piece = Vec::new();
            assert(texts(raws@) =~= old_raws.push(old_piece));
        } else {
            piece.push(c);
        }
        i += 1;
    }
    assert(text@.subrange(0, i as int) =~= text@);
    let ghost old_raws = texts(raws@);
    raws.push(piece);
    assert(texts(raws@) =~= old_raws.push(piece@));
    raws
}

/// A copy of `word` without the commas at its end.
pub fn strip_commas(word: &Vec<char>) -> (stripped: Vec<char>)
    ensures
        stripped@ == without_trailing_commas(word@),
{
    let mut to: usize = word.len();
    assert(word@.subrange(0, to as int) =~= word@);
    while to > 0 && word[to - 1] == ','
        invariant
            to <= word@.len(),
            without_trailing_commas(word@) == without_trailing_commas(
                word@.subrange(0, to as int),
            ),
        decreases to,
    {
        assert(word@.subrange(0, to as int).drop_last() =~= word@.subrange(0, to - 1));
        to -= 1;
    }
    let mut stripped: Vec<char> = Vec::new();
    let mut i: usize = 0;
    while i < to
        invariant
            i <= to <= word@.len(),
            stripped@ == word@.subrange(0, i as int),
        decreases to - i,
    {
        stripped.push(word[i]);
        i += 1;
        assert(stripped@ =~= word@.subrange(0, i as int));
    }
    assert(word@.subrange(0, word@.len() as int) =~= word@);
    stripped
}

proof fn lemma_code_length(s: Seq<char>, k: int)
    requires
        0 <= k <= s.len(),
        forall|j: int| 0 <= j < k ==> #[trigger] s[j] != ';',
        k == s.len() || s[k] == ';',
    ensures
        code_length(s) == k,
    decreases k,
{
    if k > 0 {
        lemma_code_length(s.drop_first(), k - 1);
    }
}

/// The fields of the code on the line `raw`.
pub fn fields(raw: &Vec<char>) -> (found: Vec<Vec<char>>)
    ensures
        texts(found@) == fields_of(code_of(raw@)),
{
    let mut done: Vec<Vec<char>> = Vec::new();
    let mut open: Vec<char> = Vec::new();
    let mut i: usize = 0;
    assert(texts(done@) =~= Seq::<Seq<char>>::empty());
    assert(raw@.subrange(0, 0) =~= Seq::<char>::empty());
    while i < raw.len() && raw[i] != ';'
        invariant
            i <= raw@.len(),
            forall|j: int| 0 <= j < i ==> #[trigger] raw@[j] != ';',
            read_fields(raw@.subrange(0, i as int)) == (Fields {
                done: texts(done@),
                open: open@,
            }),
        decreases raw@.len() - i,
    {
        assert(raw@.subrange(0, i + 1).drop_last() =~= raw@.subrange(0, i as int));
        let ghost old_done = texts(done@);
        let c: char = raw[i];
        if is_whitespace(c) {
            if open.len() > 0 {
                let field: Vec<char> = strip_commas(&open);
                done.push(field);
                assert(texts(done@) =~= old_done.push(field@));
                open = Vec::new();
            }
            assert(open@ =~= Seq::<char>::empty());
        } else {
            open.push(c);
        }
        i += 1;
    }
    proof {
        lemma_code_length(raw@, i as int);
    }
    if open.len() > 0 {
        let ghost old_done = texts(done@);
        let field: Vec<char> = strip_commas(&open);
        done.push(field);
        assert(texts(done@) =~= old_done.push(field@));
    }
    done
}

/// Reads one line.
pub fn read_line(raw: &Vec<char>) -> (line: Line)
    ensures
        line@ == line_model(raw@),
{
    Line { text: trim(raw), fields: fields(raw) }
}

/// Reads a program: its lines that hold code, in order.
pub fn read_program(text: &Vec<char>) -> (lines: Vec<Line>)
    ensures
        models(lines@) == program_lines(text@),
        all_hold_code(models(lines@)),
{
    let raws: Vec<Vec<char>> = split_text(text);
    proof {
        lemma_significant_hold_code(texts(raws@));
    }
    let mut lines: Vec<Line> = Vec::new();
    let mut i: usize = 0;
    while i < raws.len()
        invariant
            i <= raws@.len(),
            models(lines@) == significant(texts(raws@).subrange(0, i as int)),
        decreases raws@.len() - i,
    {
        assert(texts(raws@).subrange(0, i + 1).drop_last() =~= texts(raws@).subrange(
            0,
            i as int,
        ));
        assert(texts(raws@).subrange(0, i + 1).last() == raws@[i as int]@);
        let ghost old_lines = models(lines@);
        let line: Line = read_line(&raws[i]);
        if line.fields.len() > 0 {
            lines.push(line);
            assert(models(lines@) =~= old_lines.push(line_model(raws@[i as int]@)));
        }
        i += 1;
    }
    assert(texts(raws@).subrange(0, i as int) =~= texts(raws@));
    lines
}

} // verus!
