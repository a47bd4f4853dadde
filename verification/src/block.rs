//! The block reader: splitting a line stream into labelled, delimited
//! sections.
//!
//! A block opens with a line whose first four characters are `<<<<` (the
//! rest, trimmed, is the label) and closes with a line whose first four
//! characters are `>>>>`. Blank lines and comment lines (first character
//! `*`) are skipped everywhere. Reaching the end of the stream while
//! seeking a block simply ends the sequence of blocks; reaching it inside
//! an open block is an [`Error::UnclosedBlock`] failure, and no partial
//! block is ever produced.
use vstd::prelude::*;

use crate::error::Error;
use crate::text::spec_trim;
use crate::text::trim_spaces;

verus! {

/// The views of a sequence of lines.
pub open spec fn line_views(lines: Seq<String>) -> Seq<Seq<char>> {
    lines.map_values(|l: String| l@)
}

/// A line with no characters at all.
pub open spec fn is_blank(l: Seq<char>) -> bool {
    l.len() == 0
}

/// A comment line: its first character is `*`.
pub open spec fn is_comment_line(l: Seq<char>) -> bool {
    l.len() > 0 && l[0] == '*'
}

/// A line the block grammar ignores everywhere.
pub open spec fn is_skippable(l: Seq<char>) -> bool {
    is_blank(l) || is_comment_line(l)
}

/// A block-opening line: its first four characters are `<<<<`.
pub open spec fn is_open_line(l: Seq<char>) -> bool {
    l.len() >= 4 && l[0] == '<' && l[1] == '<' && l[2] == '<' && l[3] == '<'
}

/// A block-closing line: its first four characters are `>>>>`.
pub open spec fn is_close_line(l: Seq<char>) -> bool {
    l.len() >= 4 && l[0] == '>' && l[1] == '>' && l[2] == '>' && l[3] == '>'
}

/// The label of a block-opening line: everything after the marker, trimmed.
pub open spec fn block_label_of(l: Seq<char>) -> Seq<char> {
    spec_trim(l.subrange(4, l.len() as int))
}

/// The sub-sequence of lines that the grammar keeps inside a block: those
/// that are neither blank nor comments, in their original order.
pub open spec fn data_lines(s: Seq<Seq<char>>) -> Seq<Seq<char>>
    decreases s.len(),
{
    if s.len() == 0 {
        Seq::empty()
    } else if is_skippable(s[0]) {
        data_lines(s.drop_first())
    } else {
        seq![s[0]] + data_lines(s.drop_first())
    }
}

/// Scan forward from `pos` for a block-opening line: the label and the
/// position after the opening line, or nothing when the stream ends first.
pub open spec fn find_open(lines: Seq<Seq<char>>, pos: int) -> Option<(Seq<char>, int)>
    decreases lines.len() - pos,
{
    if pos < 0 || pos >= lines.len() {
        None
    } else if is_open_line(lines[pos]) {
        Some((block_label_of(lines[pos]), pos + 1))
    } else {
        find_open(lines, pos + 1)
    }
}

/// Collect the data lines of an open block from `pos` up to its closing
/// line: the contents and the position after the close, or
/// [`Error::UnclosedBlock`] when the stream ends first.
pub open spec fn collect_block(lines: Seq<Seq<char>>, pos: int) -> Result<
    (Seq<Seq<char>>, int),
    Error,
>
    decreases lines.len() - pos,
{
    if pos < 0 || pos >= lines.len() {
        Err(Error::UnclosedBlock)
    } else if is_skippable(lines[pos]) {
        collect_block(lines, pos + 1)
    } else if is_close_line(lines[pos]) {
        Ok((Seq::empty(), pos + 1))
    } else {
        match collect_block(lines, pos + 1) {
            Ok((c, p)) => Ok((seq![lines[pos]] + c, p)),
            Err(e) => Err(e),
        }
    }
}

/// The mathematical value of a [`Block`]: its view.
#[verifier::ext_equal]
pub ghost struct BlockV {
    /// The trimmed label of the opening line.
    pub label: Seq<char>,
    /// The data lines between the delimiters, in order.
    pub lines: Seq<Seq<char>>,
}

/// The mathematical reading of the next block at `pos`: the block and the
/// position after its closing line; `None` when the stream ends while
/// seeking; the exact error when it ends inside a block.
pub open spec fn next_block_spec(lines: Seq<Seq<char>>, pos: int) -> Result<
    Option<(BlockV, int)>,
    Error,
> {
    match find_open(lines, pos) {
        None => Ok(None),
        Some((label, p)) => match collect_block(lines, p) {
            Ok((c, p2)) => Ok(Some((BlockV { label, lines: c }, p2))),
            Err(e) => Err(e),
        },
    }
}

/// A successfully read block always moves the position strictly forward and
/// never past the end of the stream.
pub proof fn lemma_next_block_advances(lines: Seq<Seq<char>>, pos: int)
    requires
        0 <= pos,
    ensures
        next_block_spec(lines, pos) matches Ok(Some(bp)) ==> pos < bp.1 <= lines.len(),
{
    lemma_find_open_advances(lines, pos);
    if let Some((label, p)) = find_open(lines, pos) {
        lemma_collect_advances(lines, p);
    }
}

proof fn lemma_find_open_advances(lines: Seq<Seq<char>>, pos: int)
    requires
        0 <= pos,
    ensures
        find_open(lines, pos) matches Some(lp) ==> pos < lp.1 <= lines.len(),
    decreases lines.len() - pos,
{
    if pos < lines.len() && !is_open_line(lines[pos]) {
        lemma_find_open_advances(lines, pos + 1);
    }
}

proof fn lemma_collect_advances(lines: Seq<Seq<char>>, pos: int)
    requires
        0 <= pos,
    ensures
        collect_block(lines, pos) matches Ok(cp) ==> pos < cp.1 <= lines.len(),
    decreases lines.len() - pos,
{
    if pos < lines.len() && !is_close_line(lines[pos]) {
        lemma_collect_advances(lines, pos + 1);
    } else if pos < lines.len() && is_skippable(lines[pos]) {
        lemma_collect_advances(lines, pos + 1);
    }
}

proof fn lemma_find_open_from(lines: Seq<Seq<char>>, pos: int, k: int)
    requires
        0 <= pos <= k < lines.len(),
        forall|i: int| pos <= i < k ==> !is_open_line(#[trigger] lines[i]),
        is_open_line(lines[k]),
    ensures
        find_open(lines, pos) == Some((block_label_of(lines[k]), k + 1)),
    decreases k - pos,
{
    if pos < k {
        lemma_find_open_from(lines, pos + 1, k);
    }
}

proof fn lemma_find_open_none_after(lines: Seq<Seq<char>>, pos: int)
    requires
        0 <= pos <= lines.len(),
        forall|i: int| pos <= i < lines.len() ==> !is_open_line(#[trigger] lines[i]),
    ensures
        find_open(lines, pos) == None::<(Seq<char>, int)>,
    decreases lines.len() - pos,
{
    if pos < lines.len() {
        lemma_find_open_none_after(lines, pos + 1);
    }
}

proof fn lemma_collect_to_close(lines: Seq<Seq<char>>, pos: int, m: int)
    requires
        0 <= pos <= m < lines.len(),
        forall|i: int| pos <= i < m ==> !is_close_line(#[trigger] lines[i]),
        is_close_line(lines[m]),
    ensures
        collect_block(lines, pos) == Ok::<(Seq<Seq<char>>, int), Error>(
            (data_lines(lines.subrange(pos, m)), m + 1),
        ),
    decreases m - pos,
{
    if pos == m {
        assert(!is_skippable(lines[m]));
        assert(lines.subrange(m, m) =~= Seq::<Seq<char>>::empty());
    } else {
        lemma_collect_to_close(lines, pos + 1, m);
        let s = lines.subrange(pos, m);
        assert(s.drop_first() =~= lines.subrange(pos + 1, m));
        if is_skippable(lines[pos]) {
            assert(data_lines(s) == data_lines(lines.subrange(pos + 1, m)));
        } else {
            assert(data_lines(s) == seq![lines[pos]] + data_lines(lines.subrange(pos + 1, m)));
        }
    }
}

/// Block segmentation: in a stream holding one delimited block, preceded
/// and followed only by blank and comment lines, the reader yields exactly
/// that block - its label and its data lines in order - and then the end of
/// the sequence.
pub proof fn lemma_block_segmentation(lines: Seq<Seq<char>>, k: int, m: int)
    requires
        0 <= k < m < lines.len(),
        forall|i: int| 0 <= i < k ==> is_skippable(#[trigger] lines[i]),
        is_open_line(lines[k]),
        forall|i: int| k < i < m ==> !is_close_line(#[trigger] lines[i]),
        is_close_line(lines[m]),
        forall|i: int| m < i < lines.len() ==> is_skippable(#[trigger] lines[i]),
    ensures
        next_block_spec(lines, 0) == Ok::<Option<(BlockV, int)>, Error>(
            Some(
                (
                    BlockV {
                        label: block_label_of(lines[k]),
                        lines: data_lines(lines.subrange(k + 1, m)),
                    },
                    m + 1,
                ),
            ),
        ),
        next_block_spec(lines, m + 1) == Ok::<Option<(BlockV, int)>, Error>(None),
{
    assert forall|i: int| 0 <= i < k implies !is_open_line(#[trigger] lines[i]) by {
        assert(is_skippable(lines[i]));
    }
    lemma_find_open_from(lines, 0, k);
    lemma_collect_to_close(lines, k + 1, m);
    assert forall|i: int| m + 1 <= i < lines.len() implies !is_open_line(
        #[trigger] lines[i],
    ) by {
        assert(is_skippable(lines[i]));
    }
    lemma_find_open_none_after(lines, m + 1);
}

/// One labelled, delimited section of the stream: the label of its opening
/// line and its data lines.
pub struct Block {
    /// The trimmed label of the opening line.
    pub label: String,
    /// The data lines between the delimiters, in order.
    pub lines: Vec<String>,
}

impl View for Block {
    type V = BlockV;

    open spec fn view(&self) -> BlockV {
        BlockV { label: self.label@, lines: line_views(self.lines@) }
    }
}

/// Whether the line is a comment line (first character `*`).
pub fn is_comment(line: &String) -> (r: bool)
    ensures
        r == is_comment_line(line@),
{
    let n = line.as_str().unicode_len();
    n > 0 && line.as_str().get_char(0) == '*'
}

/// Whether the line closes a block (first four characters `>>>>`).
pub fn is_end_of_block(line: &String) -> (r: bool)
    ensures
        r == is_close_line(line@),
{
    let s = line.as_str();
    let n = s.unicode_len();
    n >= 4 && s.get_char(0) == '>' && s.get_char(1) == '>' && s.get_char(2) == '>' && s.get_char(3)
        == '>'
}

/// Whether the line opens a block (first four characters `<<<<`).
fn is_start_of_block(line: &String) -> (r: bool)
    ensures
        r == is_open_line(line@),
{
    let s = line.as_str();
    let n = s.unicode_len();
    n >= 4 && s.get_char(0) == '<' && s.get_char(1) == '<' && s.get_char(2) == '<' && s.get_char(3)
        == '<'
}

/// Scan forward for the next block-opening line and return its label,
/// leaving the cursor on the line after it; `None` when the stream ends
/// first.
fn search_start_of_block(lines: &Vec<String>, pos: &mut usize) -> (r: Option<String>)
    requires
        *old(pos) <= lines@.len(),
    ensures
        match find_open(line_views(lines@), *old(pos) as int) {
            Some(lp) => r matches Some(s) && s@ == lp.0 && *final(pos) == lp.1,
            None => r is None,
        },
        *final(pos) <= lines@.len(),
{
    loop
        invariant
            *pos <= lines@.len(),
            find_open(line_views(lines@), *old(pos) as int) == find_open(
                line_views(lines@),
                *pos as int,
            ),
        decreases lines@.len() - *pos,
    {
        let i = *pos;
        if i >= lines.len() {
            return None;
        }
        let l = &lines[i];
        *pos = i + 1;
        if is_start_of_block(l) {
            let n = l.as_str().unicode_len();
            let label = trim_spaces(l.as_str().substring_char(4, n));
            proof {
                assert(label@ =~= block_label_of(l@));
            }
            return Some(String::from_str(label));
        }
    }
}

/// Read the next block: its label and its data lines; `Ok(None)` when the
/// stream ends while seeking an opening line; [`Error::UnclosedBlock`] when
/// it ends inside a block.
fn read_block(lines: &Vec<String>, pos: &mut usize) -> (r: Result<Option<Block>, Error>)
    requires
        *old(pos) <= lines@.len(),
    ensures
        match next_block_spec(line_views(lines@), *old(pos) as int) {
            Ok(Some(bp)) => r matches Ok(Some(b)) && b@ == bp.0 && *final(pos) == bp.1,
            Ok(None) => r == Ok::<Option<Block>, Error>(None),
            Err(e) => r == Err::<Option<Block>, Error>(e),
        },
        *final(pos) <= lines@.len(),
{
    let ghost v = line_views(lines@);
    let label = match search_start_of_block(lines, pos) {
        Some(l) => l,
        None => {
            return Ok(None);
        },
    };
    let ghost start = *pos;
    let mut contents: Vec<String> = Vec::new();
    loop
        invariant
            *pos <= lines@.len(),
            v == line_views(lines@),
            next_block_spec(v, *old(pos) as int) == (match collect_block(v, *pos as int) {
                Ok((c, p)) => Ok::<Option<(BlockV, int)>, Error>(
                    Some((BlockV { label: label@, lines: line_views(contents@) + c }, p)),
                ),
                Err(e) => Err::<Option<(BlockV, int)>, Error>(e),
            }),
        decreases lines@.len() - *pos,
    {
        let i = *pos;
        if i >= lines.len() {
            return Err(Error::UnclosedBlock);
        }
        let l = &lines[i];
        *pos = i + 1;
        if is_comment(l) || l.as_str().unicode_len() == 0 {
            // skipped everywhere
        } else if is_end_of_block(l) {
            proof {
                assert(line_views(contents@) + Seq::<Seq<char>>::empty() =~= line_views(
                    contents@,
                ));
            }
            return Ok(Some(Block { label, lines: contents }));
        } else {
            let ghost before = contents@;
            contents.push(l.clone());
            proof {
                assert(line_views(contents@) =~= line_views(before).push(l@));
                assert forall|c: Seq<Seq<char>>|
                    line_views(before).push(l@) + c =~= line_views(before) + (seq![l@] + c) by {
                }
            }
        }
    }
}

/// The blocks of a buffered line stream, read one at a time, front to back.
pub struct Blocks {
    /// The buffered lines of the stream.
    pub lines: Vec<String>,
    /// The position of the next unread line.
    pub pos: usize,
}

impl Blocks {
    /// A block reader at the start of the stream.
    pub fn new(lines: Vec<String>) -> (r: Blocks)
        ensures
            r.lines == lines,
            r.pos == 0,
    {
        Blocks { lines, pos: 0 }
    }

    /// Read the next block, consuming its lines; `Ok(None)` at the end of
    /// the stream, [`Error::UnclosedBlock`] when the stream ends inside a
    /// block.
    pub fn next_block(&mut self) -> (r: Result<Option<Block>, Error>)
        requires
            old(self).pos <= old(self).lines@.len(),
        ensures
            final(self).lines == old(self).lines,
            final(self).pos <= final(self).lines@.len(),
            match next_block_spec(line_views(old(self).lines@), old(self).pos as int) {
                Ok(Some(bp)) => r matches Ok(Some(b)) && b@ == bp.0 && final(self).pos == bp.1,
                Ok(None) => r == Ok::<Option<Block>, Error>(None),
                Err(e) => r == Err::<Option<Block>, Error>(e),
            },
    {
        let mut pos = self.pos;
        let r = read_block(&self.lines, &mut pos);
        self.pos = pos;
        r
    }
}

} // verus!
