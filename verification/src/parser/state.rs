//! What the parser is told, and what it keeps track of.
use vstd::prelude::*;
use crate::error::syntax::{
    ErrorInfo, ErrorKind, Note, SourcePos, SyntaxError, SyntaxErrorView,
};
use crate::lexer::grammar::{Parameters, Token};
use crate::text::Span;

verus! {

/// What the parser is told about the source.
#[derive(Debug)]
pub struct ParserOptions {
    /// The name of the file that the source comes from.
    pub file_name: String,
    /// The line of the file at which the source starts; the first line is line zero.
    pub line_offset: usize,
    /// The byte of the file at which the source starts.
    pub byte_offset: usize,
}

impl ParserOptions {
    pub fn new(file_name: String, line_offset: usize, byte_offset: usize) -> (r: Self)
        ensures
            r.file_name == file_name,
            r.line_offset == line_offset,
            r.byte_offset == byte_offset,
    {
        ParserOptions { file_name, line_offset, byte_offset }
    }
}

impl Default for ParserOptions {
    /// A source without a file: its name is `unknown`.
    fn default() -> (r: Self)
        ensures
            r.file_name@ == "unknown"@,
            r.line_offset == 0,
            r.byte_offset == 0,
    {
        ParserOptions { file_name: "unknown".to_owned(), line_offset: 0, byte_offset: 0 }
    }
}

/// Where the parser is.
#[derive(Debug)]
pub struct ParseState {
    pub file_name: String,
    pub line: usize,
    pub byte: usize,
}

/// The line after `line`; the last line that can be counted is its own successor.
pub open spec fn succ(line: usize) -> usize {
    if line < usize::MAX {
        (line + 1) as usize
    } else {
        line
    }
}

/// The line after `line`.
pub fn next_line(line: usize) -> (r: usize)
    ensures
        r == succ(line),
{
    if line < usize::MAX {
        line + 1
    } else {
        line
    }
}

/// The error of that kind found in that file, on that line, at that byte.
pub open spec fn fail(kind: ErrorKind, file: Seq<char>, line: usize, byte: usize) -> SyntaxErrorView {
    SyntaxErrorView { kind, file_name: file, pos: SourcePos(line, byte), note: None }
}

/// The error of that kind with a note.
pub open spec fn fail_note(
    kind: ErrorKind,
    file: Seq<char>,
    line: usize,
    byte: usize,
    note: Option<Note>,
) -> SyntaxErrorView {
    SyntaxErrorView { kind, file_name: file, pos: SourcePos(line, byte), note }
}

/// The error of that kind found in that file, on that line, at that byte.
pub fn syntax_error(kind: ErrorKind, file: &String, line: usize, byte: usize) -> (r: SyntaxError)
    ensures
        r@ == fail(kind, file@, line, byte),
{
    SyntaxError::new(kind, ErrorInfo { file_name: file.clone(), pos: SourcePos(line, byte), note: None })
}

impl ParseState {
    pub fn new() -> (r: Self)
        ensures
            r.line == 0,
            r.byte == 0,
            r.file_name@ == "unknown"@,
    {
        ParseState { file_name: "unknown".to_owned(), line: 0, byte: 0 }
    }

    pub fn file_name(&self) -> (r: &str)
        ensures
            r@ == self.file_name@,
    {
        self.file_name.as_str()
    }

    pub fn line(&self) -> (r: &usize)
        ensures
            *r == self.line,
    {
        &self.line
    }

    pub fn line_mut(&mut self) -> (r: &mut usize)
        ensures
            *r == old(self).line,
            final(self).line == *final(r),
            final(self).byte == old(self).byte,
            final(self).file_name == old(self).file_name,
    {
        &mut self.line
    }

    pub fn byte(&self) -> (r: &usize)
        ensures
            *r == self.byte,
    {
        &self.byte
    }

    pub fn byte_mut(&mut self) -> (r: &mut usize)
        ensures
            *r == old(self).byte,
            final(self).byte == *final(r),
            final(self).line == old(self).line,
            final(self).file_name == old(self).file_name,
    {
        &mut self.byte
    }

    /// The state at the start of a source.
    pub fn from(opts: &ParserOptions) -> (r: Self)
        ensures
            r.file_name == opts.file_name,
            r.line == opts.line_offset,
            r.byte == opts.byte_offset,
    {
        ParseState {
            file_name: opts.file_name.clone(),
            line: opts.line_offset,
            byte: opts.byte_offset,
        }
    }

    /// The error of that kind on the current line, at that byte.
    pub fn error(&self, kind: ErrorKind, byte: usize) -> (r: SyntaxError)
        ensures
            r@ == fail(kind, self.file_name@, self.line, byte),
    {
        SyntaxError::new(
            kind,
            ErrorInfo { file_name: self.file_name.clone(), pos: SourcePos(self.line, byte), note: None },
        )
    }

    /// The error of that kind on that line, at that byte, with a note.
    pub fn error_at(&self, kind: ErrorKind, line: usize, byte: usize, note: Option<Note>) -> (r:
        SyntaxError)
        ensures
            r@ == fail_note(kind, self.file_name@, line, byte, note),
    {
        SyntaxError::new(
            kind,
            ErrorInfo { file_name: self.file_name.clone(), pos: SourcePos(line, byte), note },
        )
    }
}

/// The token at index `i` if it is a token of a tag's parameters.
pub open spec fn param_at(toks: Seq<Token>, i: int) -> Option<(Parameters, Span)> {
    if 0 <= i < toks.len() {
        match toks[i] {
            Token::Parameters(k, s) => Some((k, s)),
            _ => None,
        }
    } else {
        None
    }
}

/// The token at index `i` if it is a token of a tag's parameters.
pub fn param(toks: &Vec<Token>, i: usize) -> (r: Option<(Parameters, Span)>)
    ensures
        r == param_at(toks@, i as int),
{
    if i < toks.len() {
        match toks[i] {
            Token::Parameters(k, s) => Some((k, s)),
            _ => None,
        }
    } else {
        None
    }
}

} // verus!
