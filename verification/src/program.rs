//! The assembler as a whole: from source text to the bytes of the program.
//!
//! The stages run in order, each on the complete result of the one before:
//! the lines are parsed, the constants are folded in, the labels get their
//! addresses, and the lines are encoded. The first error ends the run.

use crate::encoder::{
    build_symbol_table, encoding, program_fits, program_size, symbol_table, EncodeError,
    EncodeErrorView, SymbolTable,
};
use crate::parser::{line_of, parse_line, ParseError, ParseErrorView};
use crate::resolver::{folded, replace_constants};
use crate::text::{chars_of, find_char, lemma_position, position, trim, trimmed};
use crate::types::{outcome, views, Line, LineView};
use vstd::prelude::*;
use vstd::slice::slice_subrange;

verus! {

/// The lines of a source text: what stands between its line feeds.
pub open spec fn source_lines(source: Seq<char>) -> Seq<Seq<char>>
    decreases source.len(),
    via source_lines_decreases
{
    let p = position(source, '\n');
    if p < source.len() {
        seq![source.take(p)] + source_lines(source.skip(p + 1))
    } else {
        seq![source]
    }
}

#[via_fn]
proof fn source_lines_decreases(source: Seq<char>) {
    lemma_position(source, '\n');
}

/// Whether a line of source text holds nothing but whitespace.
pub open spec fn is_blank(text: Seq<char>) -> bool {
    trim(text).len() == 0
}

/// What the given lines of source text hold. Blank lines are passed over and
/// are not counted: the lines that are left are numbered from 1. The first
/// line that cannot be parsed ends the parse with its error.
pub open spec fn parse_lines(texts: Seq<Seq<char>>) -> Result<Seq<LineView>, ParseErrorView>
    decreases texts.len(),
{
    if texts.len() == 0 {
        Ok(Seq::empty())
    } else {
        match parse_lines(texts.drop_last()) {
            Err(e) => Err(e),
            Ok(lines) => if is_blank(texts.last()) {
                Ok(lines)
            } else {
                match parse_line(texts.last(), (lines.len() + 1) as usize) {
                    Ok(line) => Ok(lines.push(line)),
                    Err(e) => Err(e),
                }
            },
        }
    }
}

/// What a source text holds, line by line.
pub open spec fn parse_program(source: Seq<char>) -> Result<Seq<LineView>, ParseErrorView> {
    parse_lines(source_lines(source))
}

/// The bytes of one line: those of its instruction, and none without one.
pub open spec fn line_encoding(line: LineView, symbols: Map<Seq<char>, usize>) -> Result<
    Seq<u8>,
    EncodeErrorView,
> {
    match line.instruction {
        Some(instr) => encoding(instr, line.index, symbols),
        None => Ok(Seq::empty()),
    }
}

/// The bytes of each line of a program, in order. The first line that cannot
/// be encoded ends the encoding with its error.
pub open spec fn encoded_lines(lines: Seq<LineView>, symbols: Map<Seq<char>, usize>) -> Result<
    Seq<Seq<u8>>,
    EncodeErrorView,
>
    decreases lines.len(),
{
    if lines.len() == 0 {
        Ok(Seq::empty())
    } else {
        match encoded_lines(lines.drop_last(), symbols) {
            Err(e) => Err(e),
            Ok(chunks) => match line_encoding(lines.last(), symbols) {
                Ok(bytes) => Ok(chunks.push(bytes)),
                Err(e) => Err(e),
            },
        }
    }
}

/// Why a source text could not be assembled.
#[derive(Debug, PartialEq, Eq)]
pub enum AssembleError {
    /// A line could not be parsed, or the constants form a cycle.
    Parse(ParseError),
    /// An instruction could not be encoded.
    Encode(EncodeError),
}

/// The view of an [`AssembleError`].
pub ghost enum AssembleErrorView {
    Parse(ParseErrorView),
    Encode(EncodeErrorView),
}

impl View for AssembleError {
    type V = AssembleErrorView;

    open spec fn view(&self) -> AssembleErrorView {
        match self {
            AssembleError::Parse(e) => AssembleErrorView::Parse(e@),
            AssembleError::Encode(e) => AssembleErrorView::Encode(e@),
        }
    }
}

/// The views of lines that stand beside their bytes.
pub open spec fn pair_views(pairs: Seq<(Line, Vec<u8>)>) -> Seq<(LineView, Seq<u8>)> {
    Seq::new(pairs.len(), |i: int| (pairs[i].0@, pairs[i].1@))
}

/// Each line beside its bytes.
pub open spec fn paired(lines: Seq<LineView>, chunks: Seq<Seq<u8>>) -> Seq<(LineView, Seq<u8>)>
    recommends
        lines.len() == chunks.len(),
{
    Seq::new(lines.len(), |i: int| (lines[i], chunks[i]))
}

/// The bytes that stand beside the lines, in order.
pub open spec fn bytes_of(pairs: Seq<(LineView, Seq<u8>)>) -> Seq<Seq<u8>> {
    Seq::new(pairs.len(), |i: int| pairs[i].1)
}

/// The lines of a source text with the constants folded in, each beside its
/// bytes with the labels of the whole program.
pub open spec fn compiled(source: Seq<char>) -> Result<Seq<(LineView, Seq<u8>)>, AssembleErrorView> {
    match parse_program(source) {
        Err(e) => Err(AssembleErrorView::Parse(e)),
        Ok(parsed) => match folded(parsed) {
            Err(e) => Err(AssembleErrorView::Parse(e)),
            Ok(lines) => match encoded_lines(lines, symbol_table(lines)) {
                Err(e) => Err(AssembleErrorView::Encode(e)),
                Ok(chunks) => Ok(paired(lines, chunks)),
            },
        },
    }
}

/// The bytes of the program that a source text denotes: those of its lines,
/// one after the other.
pub open spec fn assembled(source: Seq<char>) -> Result<Seq<u8>, AssembleErrorView> {
    match compiled(source) {
        Ok(pairs) => Ok(bytes_of(pairs).flatten()),
        Err(e) => Err(e),
    }
}

/// Whether the addresses of the program that a source text denotes can be
/// held in a `usize`. A text that does not parse, or whose constants form a
/// cycle, has no addresses to hold.
pub open spec fn addressable(source: Seq<char>) -> bool {
    parse_program(source) matches Ok(parsed) ==> (folded(parsed) matches Ok(lines)
        ==> program_size(lines) <= usize::MAX)
}

/// An error among the first lines of a text is the error of the whole text.
pub proof fn lemma_parse_lines_prefix(texts: Seq<Seq<char>>, k: int)
    requires
        0 <= k <= texts.len(),
        parse_lines(texts.take(k)) is Err,
    ensures
        parse_lines(texts) == parse_lines(texts.take(k)),
    decreases texts.len(),
{
    if k == texts.len() {
        assert(texts.take(k) =~= texts);
    } else {
        assert(texts.drop_last().take(k) =~= texts.take(k));
        lemma_parse_lines_prefix(texts.drop_last(), k);
    }
}

/// An error among the first lines of a program is the error of the whole program.
pub proof fn lemma_encoded_lines_prefix(
    lines: Seq<LineView>,
    symbols: Map<Seq<char>, usize>,
    k: int,
)
    requires
        0 <= k <= lines.len(),
        encoded_lines(lines.take(k), symbols) is Err,
    ensures
        encoded_lines(lines, symbols) == encoded_lines(lines.take(k), symbols),
    decreases lines.len(),
{
    if k == lines.len() {
        assert(lines.take(k) =~= lines);
    } else {
        assert(lines.drop_last().take(k) =~= lines.take(k));
        lemma_encoded_lines_prefix(lines.drop_last(), symbols, k);
    }
}

/// The line of source text that begins at `start`, and where the next one
/// begins, if there is one.
fn next_text(all: &[char], start: usize) -> (out: (&[char], Option<usize>))
    requires
        start <= all.len(),
    ensures
        out.0@.len() <= all.len() - start,
        match out.1 {
            Some(next) => next == start + out.0@.len() + 1 && next <= all.len() && source_lines(
                all@.skip(start as int),
            ) == seq![out.0@] + source_lines(all@.skip(next as int)),
            None => source_lines(all@.skip(start as int)) == seq![out.0@],
        },
{
    let rest = slice_subrange(all, start, all.len());
    assert(rest@ =~= all@.skip(start as int));
    let p = find_char(rest, '\n');
    let text = slice_subrange(rest, 0, p);
    assert(text@ =~= rest@.take(p as int));
    if p < rest.len() {
        assert(rest@.skip(p + 1) =~= all@.skip(start + p + 1));
        (text, Some(start + p + 1))
    } else {
        assert(text@ =~= rest@);
        (text, None)
    }
}

/// Parses a source text, line by line.
pub fn parse_source(source: &str) -> (out: Result<Vec<Line>, ParseError>)
    ensures
        match out {
            Ok(lines) => parse_program(source@) == Ok::<Seq<LineView>, ParseErrorView>(
                views(lines@),
            ),
            Err(e) => parse_program(source@) == Err::<Seq<LineView>, ParseErrorView>(e@),
        },
{
    let chars = chars_of(source);
    let all = chars.as_slice();
    let mut lines: Vec<Line> = Vec::new();
    let mut start: usize = 0;
    let ghost mut texts: Seq<Seq<char>> = Seq::empty();
    let ghost whole = source_lines(all@);
    assert(all@.skip(0) =~= all@);
    assert(texts + source_lines(all@.skip(0)) =~= whole);
    assert(views(lines@) =~= Seq::<LineView>::empty());
    loop
        invariant_except_break
            texts + source_lines(all@.skip(start as int)) == whole,
            texts.len() <= start,
        invariant
            all@ == source@,
            whole == source_lines(all@),
            start <= all.len(),
            parse_lines(texts) == Ok::<Seq<LineView>, ParseErrorView>(views(lines@)),
            lines.len() <= texts.len(),
        ensures
            parse_lines(whole) == Ok::<Seq<LineView>, ParseErrorView>(views(lines@)),
        decreases all.len() - start,
    {
        let (text, next) = next_text(all, start);
        let ghost before = texts;
        let ghost parsed = views(lines@);
        proof {
            texts = texts.push(text@);
            assert(texts.drop_last() =~= before);
            assert(whole.take(texts.len() as int) =~= texts);
        }
        if trimmed(text).len() > 0 {
            let index = lines.len() + 1;
            match line_of(text, index) {
                Ok(line) => {
                    lines.push(line);
                    assert(views(lines@) =~= parsed.push(line@));
                },
                Err(e) => {
                    proof {
                        lemma_parse_lines_prefix(whole, texts.len() as int);
                    }
                    return Err(e);
                },
            }
        }
        match next {
            Some(n) => {
                assert(texts + source_lines(all@.skip(n as int)) =~= whole);
                start = n;
            },
            None => {
                assert(texts =~= whole);
                break;
            },
        }
    }
    Ok(lines)
}

/// The encoding of a program has as many entries as the program has lines.
pub proof fn lemma_encoded_lines_len(lines: Seq<LineView>, symbols: Map<Seq<char>, usize>)
    ensures
        encoded_lines(lines, symbols) matches Ok(chunks) ==> chunks.len() == lines.len(),
    decreases lines.len(),
{
    if lines.len() > 0 {
        lemma_encoded_lines_len(lines.drop_last(), symbols);
    }
}

/// Encodes the lines of a program, each with the labels in `symbols`, and
/// puts each line beside its bytes.
pub fn encode_lines(lines: &[Line], symbols: &SymbolTable) -> (out: Result<
    Vec<(Line, Vec<u8>)>,
    EncodeError,
>)
    ensures
        match out {
            Ok(pairs) => encoded_lines(views(lines@), symbols@) matches Ok(chunks) && pair_views(
                pairs@,
            ) == paired(views(lines@), chunks),
            Err(e) => encoded_lines(views(lines@), symbols@) == Err::<
                Seq<Seq<u8>>,
                EncodeErrorView,
            >(e@),
        },
{
    let mut pairs: Vec<(Line, Vec<u8>)> = Vec::new();
    let ghost all = views(lines@);
    let mut i: usize = 0;
    while i < lines.len()
        invariant
            i <= lines.len(),
            all == views(lines@),
            pairs@.len() == i,
            encoded_lines(all.take(i as int), symbols@) is Ok,
            forall|k: int|
                0 <= k < i ==> (#[trigger] pairs@[k]).0@ == all[k] && pairs@[k].1@ == encoded_lines(
                    all.take(i as int),
                    symbols@,
                )->Ok_0[k],
        decreases lines.len() - i,
    {
        let line = &lines[i];
        let ghost before = encoded_lines(all.take(i as int), symbols@)->Ok_0;
        proof {
            assert(all.take(i + 1).drop_last() =~= all.take(i as int));
            assert(all.take(i + 1).last() == line@);
            lemma_encoded_lines_len(all.take(i as int), symbols@);
        }
        let bytes = match &line.instruction {
            Some(instr) => match instr.encode(line.index, symbols) {
                Ok(bytes) => bytes,
                Err(e) => {
                    proof {
                        lemma_encoded_lines_prefix(all, symbols@, i + 1);
                    }
                    return Err(e);
                },
            },
            None => Vec::new(),
        };
        assert(encoded_lines(all.take(i + 1), symbols@)->Ok_0 =~= before.push(bytes@));
        pairs.push((line.clone(), bytes));
        i += 1;
    }
    proof {
        assert(all.take(lines.len() as int) =~= all);
        lemma_encoded_lines_len(all, symbols@);
        assert(pair_views(pairs@) =~= paired(all, encoded_lines(all, symbols@)->Ok_0));
    }
    Ok(pairs)
}

/// The bytes of the lines, one line after the other.
pub fn join_bytes(pairs: &[(Line, Vec<u8>)]) -> (out: Vec<u8>)
    ensures
        out@ == bytes_of(pair_views(pairs@)).flatten(),
{
    let mut out: Vec<u8> = Vec::new();
    let ghost all = bytes_of(pair_views(pairs@));
    let mut i: usize = 0;
    assert(all.take(0).flatten() =~= Seq::<u8>::empty());
    while i < pairs.len()
        invariant
            i <= pairs.len(),
            all == bytes_of(pair_views(pairs@)),
            out@ == all.take(i as int).flatten(),
        decreases pairs.len() - i,
    {
        let chunk = &pairs[i].1;
        let ghost before = out@;
        let mut k: usize = 0;
        while k < chunk.len()
            invariant
                k <= chunk.len(),
                out@ == before + chunk@.take(k as int),
            decreases chunk.len() - k,
        {
            out.push(chunk[k]);
            k += 1;
            assert(chunk@.take(k as int) =~= chunk@.take(k - 1).push(chunk@[k - 1]));
        }
        proof {
            assert(chunk@.take(chunk.len() as int) =~= chunk@);
            assert(all.take(i + 1) =~= all.take(i as int).push(chunk@));
            all.take(i as int).lemma_flatten_push(chunk@);
        }
        i += 1;
    }
    assert(all.take(pairs.len() as int) =~= all);
    out
}

/// The result with its lines and bytes replaced by their views.
pub open spec fn compile_outcome(r: Result<Vec<(Line, Vec<u8>)>, AssembleError>) -> Result<
    Seq<(LineView, Seq<u8>)>,
    AssembleErrorView,
> {
    match r {
        Ok(pairs) => Ok(pair_views(pairs@)),
        Err(e) => Err(e@),
    }
}

/// Parses a source text and folds its constants in.
fn fold_source(source: &str) -> (out: Result<Vec<Line>, AssembleError>)
    ensures
        match out {
            Ok(lines) => parse_program(source@) matches Ok(parsed) && folded(parsed) == Ok::<
                Seq<LineView>,
                ParseErrorView,
            >(views(lines@)),
            Err(e) => compiled(source@) == Err::<Seq<(LineView, Seq<u8>)>, AssembleErrorView>(e@)
                && addressable(source@),
        },
{
    let parsed = match parse_source(source) {
        Ok(parsed) => parsed,
        Err(e) => {
            return Err(AssembleError::Parse(e));
        },
    };
    match replace_constants(parsed.as_slice()) {
        Ok(lines) => Ok(lines),
        Err(e) => Err(AssembleError::Parse(e)),
    }
}

/// Gives the labels their addresses and encodes the lines.
fn encode_folded(lines: &[Line]) -> (out: Result<Vec<(Line, Vec<u8>)>, EncodeError>)
    requires
        program_size(views(lines@)) <= usize::MAX,
    ensures
        match out {
            Ok(pairs) => encoded_lines(views(lines@), symbol_table(views(lines@))) matches Ok(
                chunks,
            ) && pair_views(pairs@) == paired(views(lines@), chunks),
            Err(e) => encoded_lines(views(lines@), symbol_table(views(lines@))) == Err::<
                Seq<Seq<u8>>,
                EncodeErrorView,
            >(e@),
        },
{
    let symbols = build_symbol_table(lines);
    encode_lines(lines, &symbols)
}

/// Assembles a source text and keeps each line beside its bytes. The
/// addresses of the program must fit in a `usize`.
pub fn compile(source: &str) -> (out: Result<Vec<(Line, Vec<u8>)>, AssembleError>)
    requires
        addressable(source@),
    ensures
        compile_outcome(out) == compiled(source@),
{
    let lines = match fold_source(source) {
        Ok(lines) => lines,
        Err(e) => {
            return Err(e);
        },
    };
    match encode_folded(lines.as_slice()) {
        Ok(pairs) => Ok(pairs),
        Err(e) => Err(AssembleError::Encode(e)),
    }
}

/// Assembles any source text and keeps each line beside its bytes. There is
/// no result where the addresses of the program do not fit in a `usize`.
pub fn try_compile(source: &str) -> (out: Option<Result<Vec<(Line, Vec<u8>)>, AssembleError>>)
    ensures
        match out {
            Some(r) => addressable(source@) && compile_outcome(r) == compiled(source@),
            None => !addressable(source@),
        },
{
    let lines = match fold_source(source) {
        Ok(lines) => lines,
        Err(e) => {
            return Some(Err(e));
        },
    };
    if !program_fits(lines.as_slice()) {
        return None;
    }
    match encode_folded(lines.as_slice()) {
        Ok(pairs) => Some(Ok(pairs)),
        Err(e) => Some(Err(AssembleError::Encode(e))),
    }
}

/// Assembles a source text into the bytes of its program. The addresses of
/// the program must fit in a `usize`.
pub fn assemble(source: &str) -> (out: Result<Vec<u8>, AssembleError>)
    requires
        addressable(source@),
    ensures
        outcome(out) == assembled(source@),
{
    match compile(source) {
        Ok(pairs) => Ok(join_bytes(pairs.as_slice())),
        Err(e) => Err(e),
    }
}

/// Assembling is a function of the source text alone: two runs on the same
/// text end alike, with the same bytes or with the same error.
pub proof fn lemma_assembling_is_deterministic(
    source: Seq<char>,
    first: Result<Vec<u8>, AssembleError>,
    second: Result<Vec<u8>, AssembleError>,
)
    requires
        outcome(first) == assembled(source),
        outcome(second) == assembled(source),
    ensures
        first matches Ok(a) ==> second matches Ok(b) && a@ == b@,
        first matches Err(e) ==> second matches Err(f) && e@ == f@,
{
}

} // verus!
