//! Reads the answer to a prompt: finds the one `prolog` code block in a
//! markdown text and takes the lines in it that describe output objects.

use crate::text::{
    chars_contain, chars_equal, chars_start_with, contains_text, decimal_digits, decimal_string,
    slice_chars, split_line_ranges, split_lines, starts_with, to_chars, trim, trim_chars,
};
use vstd::prelude::*;
use vstd::string::{StrSliceExecFns, StringExecFns};

verus! {

/// Why a text was refused.
#[derive(Clone, Copy, Debug, PartialEq, Eq, Structural)]
pub enum ParseError {
    /// No line opens a `prolog` code block.
    NoCodeBlock,
    /// More than one line opens a `prolog` code block.
    MultipleCodeBlocks,
    /// The code block holds this many lines of no known kind.
    UnrecognizedLines(usize),
}

/// What the fault says in words.
pub open spec fn parse_error_text(error: ParseError) -> Seq<char> {
    match error {
        ParseError::NoCodeBlock => "No code block found"@,
        ParseError::MultipleCodeBlocks => "Multiple code blocks found"@,
        ParseError::UnrecognizedLines(count) => decimal_digits(count as nat)
            + " unrecognized lines inside the code block"@,
    }
}

impl ParseError {
    /// The fault in words.
    pub fn to_string(&self) -> (r: String)
        ensures
            r@ == parse_error_text(*self),
    {
        match self {
            ParseError::NoCodeBlock => String::from_str("No code block found"),
            ParseError::MultipleCodeBlocks => String::from_str("Multiple code blocks found"),
            ParseError::UnrecognizedLines(count) => {
                let number = decimal_string(*count as u64);
                number.concat(" unrecognized lines inside the code block")
            },
        }
    }
}

/// What a line inside the code block is taken for.
#[derive(Clone, Copy, Debug, PartialEq, Eq, Structural)]
pub enum LineKind {
    /// An empty line, a comment, or the description of an input object.
    Skipped,
    /// The description of an output object.
    Output,
    /// Anything else.
    Unrecognized,
}

/// True when the line opens a `prolog` code block.
pub open spec fn opens_block(line: Seq<char>) -> bool {
    contains_text(trim(line), "```prolog"@)
}

/// True when the line closes a code block.
pub open spec fn closes_block(line: Seq<char>) -> bool {
    trim(line) == "```"@
}

/// The kind of a line inside the code block.
pub open spec fn line_kind(line: Seq<char>) -> LineKind {
    let trimmed = trim(line);
    if trimmed.len() == 0 || starts_with(trimmed, "%"@) || starts_with(trimmed, "object(input"@) {
        LineKind::Skipped
    } else if starts_with(trimmed, "object(output"@) {
        LineKind::Output
    } else {
        LineKind::Unrecognized
    }
}

/// How many of the lines open a code block.
pub open spec fn count_openers(lines: Seq<Seq<char>>) -> nat
    decreases lines.len(),
{
    if lines.len() == 0 {
        0
    } else if opens_block(lines.last()) {
        count_openers(lines.drop_last()) + 1
    } else {
        count_openers(lines.drop_last())
    }
}

/// Position of the first line at or behind `from` that opens a code block,
/// or the number of lines.
pub open spec fn first_opener(lines: Seq<Seq<char>>, from: int) -> int
    decreases lines.len() - from,
{
    if from < 0 || from >= lines.len() {
        lines.len() as int
    } else if opens_block(lines[from]) {
        from
    } else {
        first_opener(lines, from + 1)
    }
}

/// Position of the first line at or behind `from` that closes the code block,
/// or the number of lines.
pub open spec fn block_end(lines: Seq<Seq<char>>, from: int) -> int
    decreases lines.len() - from,
{
    if from < 0 || from >= lines.len() {
        lines.len() as int
    } else if closes_block(lines[from]) {
        from
    } else {
        block_end(lines, from + 1)
    }
}

/// The lines of kind `kind` among the lines from `from` up to `to`, in order.
pub open spec fn lines_of_kind(lines: Seq<Seq<char>>, from: int, to: int, kind: LineKind) -> Seq<
    Seq<char>,
>
    decreases to - from,
{
    if from >= to {
        Seq::empty()
    } else if line_kind(lines[to - 1]) == kind {
        lines_of_kind(lines, from, to - 1, kind).push(lines[to - 1])
    } else {
        lines_of_kind(lines, from, to - 1, kind)
    }
}

/// What reading `text` gives.
///
/// The text must hold exactly one line that opens a `prolog` code block. The
/// block runs from behind that line up to the next closing line, or to the
/// end of the text. A line of no known kind in the block refuses the text;
/// otherwise the result is the output lines of the block, untrimmed.
pub open spec fn parse_outcome(text: Seq<char>) -> Result<Seq<Seq<char>>, ParseError> {
    let lines = split_lines(text);
    let start = first_opener(lines, 0) + 1;
    let end = block_end(lines, start);
    let unrecognized = lines_of_kind(lines, start, end, LineKind::Unrecognized).len();
    if count_openers(lines) == 0 {
        Err(ParseError::NoCodeBlock)
    } else if count_openers(lines) >= 2 {
        Err(ParseError::MultipleCodeBlocks)
    } else if unrecognized > 0 {
        Err(ParseError::UnrecognizedLines(unrecognized as usize))
    } else {
        Ok(lines_of_kind(lines, start, end, LineKind::Output))
    }
}

/// The output lines of a prompt answer.
#[derive(Clone, Debug)]
pub struct ParseNaturalLanguage {
    pub lines: Vec<String>,
}

impl ParseNaturalLanguage {
    /// The lines as texts.
    pub open spec fn line_texts(&self) -> Seq<Seq<char>> {
        Seq::new(self.lines@.len(), |i: int| self.lines@[i]@)
    }

    /// Extract the interesting parts from the prompt response.
    ///
    /// The response is supposed to contain a markdown formatted text
    /// with three backticks to mark the beginning and end of a code block.
    /// The code block of interest starts with `prolog`.
    ///
    /// Within the `prolog` code block, there is supposed to be
    /// a list of `object(input...` and `object(output...` lines.
    ///
    /// It's the `object(output...` lines that are of interest,
    /// that gets extracted.
    pub fn parse(multiline_text: &str) -> (r: Result<Self, ParseError>)
        ensures
            match r {
                Ok(parsed) => parse_outcome(multiline_text@) == Ok::<Seq<Seq<char>>, ParseError>(
                    parsed.line_texts(),
                ),
                Err(error) => parse_outcome(multiline_text@) == Err::<
                    Seq<Seq<char>>,
                    ParseError,
                >(error),
            },
    {
        let chars = to_chars(multiline_text);
        let ranges = split_line_ranges(&chars);
        let opener = to_chars("```prolog");
        let closer = to_chars("```");
        let comment = to_chars("%");
        let input = to_chars("object(input");
        let output = to_chars("object(output");
        let ghost lines = split_lines(multiline_text@);

        let mut count_code_block: usize = 0;
        let mut first: usize = 0;
        let mut i: usize = 0;
        while i < ranges.len()
            invariant
                chars@ == multiline_text@,
                lines == split_lines(chars@),
                opener@ == "```prolog"@,
                ranges@.len() == lines.len(),
                forall|k: int|
                    0 <= k < ranges@.len() ==> (#[trigger] ranges@[k]).0 <= ranges@[k].1
                        <= chars@.len() && chars@.subrange(
                        ranges@[k].0 as int,
                        ranges@[k].1 as int,
                    ) == lines[k],
                i <= ranges@.len(),
                count_code_block <= i,
                count_code_block == count_openers(lines.take(i as int)),
                count_code_block == 0 ==> first_opener(lines, 0) == first_opener(lines, i as int),
                count_code_block > 0 ==> first == first_opener(lines, 0) && first < i,
            decreases ranges@.len() - i,
        {
            let line = slice_chars(&chars, ranges[i].0, ranges[i].1);
            let trimmed = trim_chars(&line);
            assert(lines.take(i + 1).drop_last() =~= lines.take(i as int));
            assert(lines.take(i + 1).last() == lines[i as int]);
            if chars_contain(&trimmed, &opener) {
                if count_code_block == 0 {
                    first = i;
                }
                count_code_block += 1;
            }
            i += 1;
        }
        assert(lines.take(i as int) =~= lines);
        if count_code_block == 0 {
            return Err(ParseError::NoCodeBlock);
        }
        if count_code_block >= 2 {
            return Err(ParseError::MultipleCodeBlocks);
        }
        let ghost start = first + 1;
        let mut lines_with_prefix: Vec<String> = Vec::new();
        let mut count_unrecognized: usize = 0;
        let mut j: usize = first + 1;
        while j < ranges.len()
            invariant_except_break
                block_end(lines, start as int) == block_end(lines, j as int),
            invariant
                chars@ == multiline_text@,
                lines == split_lines(chars@),
                closer@ == "```"@,
                comment@ == "%"@,
                input@ == "object(input"@,
                output@ == "object(output"@,
                ranges@.len() == lines.len(),
                forall|k: int|
                    0 <= k < ranges@.len() ==> (#[trigger] ranges@[k]).0 <= ranges@[k].1
                        <= chars@.len() && chars@.subrange(
                        ranges@[k].0 as int,
                        ranges@[k].1 as int,
                    ) == lines[k],
                start == first + 1,
                start <= j <= ranges@.len(),
                count_unrecognized == lines_of_kind(
                    lines,
                    start as int,
                    j as int,
                    LineKind::Unrecognized,
                ).len(),
                count_unrecognized <= j - start,
                Seq::new(lines_with_prefix@.len(), |k: int| lines_with_prefix@[k]@)
                    == lines_of_kind(lines, start as int, j as int, LineKind::Output),
            ensures
                block_end(lines, start as int) == j,
            decreases ranges@.len() - j,
        {
            let line = slice_chars(&chars, ranges[j].0, ranges[j].1);
            let trimmed = trim_chars(&line);
            if chars_equal(&trimmed, &closer) {
                break ;
            }
            let ghost texts_before = Seq::new(
                lines_with_prefix@.len(),
                |k: int| lines_with_prefix@[k]@,
            );
            if trimmed.len() == 0 || chars_start_with(&trimmed, &comment) || chars_start_with(
                &trimmed,
                &input,
            ) {
            } else if chars_start_with(&trimmed, &output) {
                let text = String::from_str(
                    multiline_text.substring_char(ranges[j].0, ranges[j].1),
                );
                lines_with_prefix.push(text);
                assert(Seq::new(lines_with_prefix@.len(), |k: int| lines_with_prefix@[k]@)
                    =~= texts_before.push(lines[j as int]));
            } else {
                count_unrecognized += 1;
            }
            j += 1;
        }
        let instance = Self { lines: lines_with_prefix };
        if count_unrecognized > 0 {
            return Err(ParseError::UnrecognizedLines(count_unrecognized));
        }
        Ok(instance)
    }
}

} // verus!
