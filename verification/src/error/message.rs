//! What a syntax error says to the user.
use vstd::prelude::*;
use crate::error::syntax::{ErrorKind, Note, SyntaxError, SyntaxErrorView};
use crate::text::{append, bytes_of, decimal, str_bytes, to_decimal};

verus! {

/// What is wrong, in words.
pub open spec fn description(kind: ErrorKind) -> Seq<char> {
    match kind {
        ErrorKind::EmptyStatement => "Syntax error, statement is empty"@,
        ErrorKind::OpenStatement => "Syntax error, statement was not terminated"@,
        ErrorKind::StringLiteralNewline => "Syntax error, new lines in string literals must be escaped (\\n)"@,
        ErrorKind::ExpectedIdentifier => "Syntax error, expecting identifier"@,
        ErrorKind::BlockName => "Syntax error, block name must be an identifier"@,
        ErrorKind::UnexpectedPathExplicitThis => "Syntax error, explicit this reference must be at the start of a path"@,
        ErrorKind::UnexpectedPathParent => "Syntax error, parent scopes must be at the start of a path"@,
        ErrorKind::UnexpectedPathLocal => "Syntax error, local scope identifiers must be at the start of a path"@,
        ErrorKind::UnexpectedPathDelimiter => "Syntax error, expected identifier but got path delimiter"@,
        ErrorKind::UnexpectedPathParentWithLocal => "Syntax error, parent scopes and local identifiers are mutually exclusive"@,
        ErrorKind::UnexpectedPathParentWithExplicit => "Syntax error, parent scopes and explicit this are mutually exclusive"@,
        ErrorKind::ExpectedPathDelimiter => "Syntax error, expected path delimiter (.)"@,
        ErrorKind::EmptyPath => "Syntax error, path is empty"@,
        ErrorKind::OpenSubExpression => "Syntax error, sub-expression not terminated"@,
        ErrorKind::TagNameMismatch => "Syntax error, closing name does not match"@,
        ErrorKind::BlockNotOpen => "Syntax error, got a closing tag but no block is open"@,
        ErrorKind::BlockNotTerminated => "Syntax error, block was not terminated"@,
        ErrorKind::RawBlockOpenNotTerminated => "Syntax error, raw block open tag was not terminated"@,
        ErrorKind::RawBlockNotTerminated => "Syntax error, raw block was not terminated"@,
        ErrorKind::RawCommentNotTerminated => "Syntax error, raw comment was not terminated"@,
        ErrorKind::RawStatementNotTerminated => "Syntax error, raw statement was not terminated"@,
        ErrorKind::CommentNotTerminated => "Syntax error, comment was not terminated"@,
        ErrorKind::BlockTargetSubExpr => "Syntax error, block target sub expressions are only supported for partials"@,
        ErrorKind::TokenJsonLiteral => "Syntax error, expecting JSON literal token"@,
        ErrorKind::TokenDoubleQuoteLiteral => "Syntax error, unexpected token parsing quoted literal (\"\")"@,
        ErrorKind::TokenSingleQuoteLiteral => "Syntax error, unexpected token parsing quoted literal ('')"@,
        ErrorKind::TokenParameterPath => "Syntax error, unexpected token parsing path"@,
        ErrorKind::DuplicateHashKey => "Syntax error, hash parameter is given twice"@,
        ErrorKind::HashValueMissing => "Syntax error, hash parameter has no value"@,
        ErrorKind::ArgumentAfterHash => "Syntax error, argument after hash parameter"@,
    }
}

/// What a note says about a source: for a block that is not closed, the
/// closing tag that is expected, written out with the name of the block.
pub open spec fn note_text(note: Note, src: Seq<u8>) -> Seq<u8> {
    match note {
        Note::StringLiteralNotClosed => bytes_of("string literal was not closed"@),
        Note::MissingClose(name) => bytes_of("expected closing tag {{/"@) + name.of(src)
            + bytes_of("}}"@),
        Note::MissingRawClose(name) => bytes_of("expected closing tag {{{{/"@) + name.of(src)
            + bytes_of("}}}}"@),
    }
}

/// Where the line starts that holds the byte at `at`: after the last line
/// feed before `at`, or at the start of the source.
pub open spec fn line_start(src: Seq<u8>, at: int) -> int
    decreases at,
{
    if at <= 0 {
        0
    } else if at > src.len() {
        line_start(src, src.len() as int)
    } else if src[at - 1] == 0x0a {
        at
    } else {
        line_start(src, at - 1)
    }
}

/// Where the line ends that holds the byte at `from`: at the next line
/// feed, or at the end of the source.
pub open spec fn line_end(src: Seq<u8>, from: int) -> int
    decreases src.len() - from,
{
    if from < 0 || from >= src.len() || src[from] == 0x0a {
        from
    } else {
        line_end(src, from + 1)
    }
}

/// That many spaces.
pub open spec fn spaces(n: int) -> Seq<u8> {
    Seq::new(
        if n > 0 {
            n as nat
        } else {
            0
        },
        |i: int| 0x20u8,
    )
}

/// The line of a note, if there is a note.
pub open spec fn note_line(note: Option<Note>, src: Seq<u8>) -> Seq<u8> {
    match note {
        Some(n) => bytes_of(" = note: "@) + note_text(n, src) + seq![0x0au8],
        None => Seq::empty(),
    }
}

/// The message for an error in a source: what is wrong; the file, the line
/// counted from one, and the byte; the line of the source with a caret
/// under the byte; and the note, if there is one. For a block that is not
/// closed the note names the closing tag that is missing.
pub open spec fn message_of(e: SyntaxErrorView, src: Seq<u8>) -> Seq<u8> {
    let at = if e.pos.1 <= src.len() {
        e.pos.1 as int
    } else {
        src.len() as int
    };
    let start = line_start(src, at);
    let end = line_end(src, at);
    bytes_of(description(e.kind)) + seq![0x0au8] + bytes_of(" --> "@) + bytes_of(e.file_name)
        + seq![0x3au8] + bytes_of(decimal(crate::parser::state::succ(e.pos.0) as nat)) + seq![0x3au8]
        + bytes_of(decimal(e.pos.1 as nat)) + seq![0x0au8] + src.subrange(start, end) + seq![0x0au8]
        + spaces(at - start) + seq![0x5eu8, 0x0au8] + note_line(e.note, src)
}

/// What is wrong, in words.
pub fn describe(kind: ErrorKind) -> (r: &'static str)
    ensures
        r@ == description(kind),
{
    match kind {
        ErrorKind::EmptyStatement => "Syntax error, statement is empty",
        ErrorKind::OpenStatement => "Syntax error, statement was not terminated",
        ErrorKind::StringLiteralNewline => "Syntax error, new lines in string literals must be escaped (\\n)",
        ErrorKind::ExpectedIdentifier => "Syntax error, expecting identifier",
        ErrorKind::BlockName => "Syntax error, block name must be an identifier",
        ErrorKind::UnexpectedPathExplicitThis => "Syntax error, explicit this reference must be at the start of a path",
        ErrorKind::UnexpectedPathParent => "Syntax error, parent scopes must be at the start of a path",
        ErrorKind::UnexpectedPathLocal => "Syntax error, local scope identifiers must be at the start of a path",
        ErrorKind::UnexpectedPathDelimiter => "Syntax error, expected identifier but got path delimiter",
        ErrorKind::UnexpectedPathParentWithLocal => "Syntax error, parent scopes and local identifiers are mutually exclusive",
        ErrorKind::UnexpectedPathParentWithExplicit => "Syntax error, parent scopes and explicit this are mutually exclusive",
        ErrorKind::ExpectedPathDelimiter => "Syntax error, expected path delimiter (.)",
        ErrorKind::EmptyPath => "Syntax error, path is empty",
        ErrorKind::OpenSubExpression => "Syntax error, sub-expression not terminated",
        ErrorKind::TagNameMismatch => "Syntax error, closing name does not match",
        ErrorKind::BlockNotOpen => "Syntax error, got a closing tag but no block is open",
        ErrorKind::BlockNotTerminated => "Syntax error, block was not terminated",
        ErrorKind::RawBlockOpenNotTerminated => "Syntax error, raw block open tag was not terminated",
        ErrorKind::RawBlockNotTerminated => "Syntax error, raw block was not terminated",
        ErrorKind::RawCommentNotTerminated => "Syntax error, raw comment was not terminated",
        ErrorKind::RawStatementNotTerminated => "Syntax error, raw statement was not terminated",
        ErrorKind::CommentNotTerminated => "Syntax error, comment was not terminated",
        ErrorKind::BlockTargetSubExpr => "Syntax error, block target sub expressions are only supported for partials",
        ErrorKind::TokenJsonLiteral => "Syntax error, expecting JSON literal token",
        ErrorKind::TokenDoubleQuoteLiteral => "Syntax error, unexpected token parsing quoted literal (\"\")",
        ErrorKind::TokenSingleQuoteLiteral => "Syntax error, unexpected token parsing quoted literal ('')",
        ErrorKind::TokenParameterPath => "Syntax error, unexpected token parsing path",
        ErrorKind::DuplicateHashKey => "Syntax error, hash parameter is given twice",
        ErrorKind::HashValueMissing => "Syntax error, hash parameter has no value",
        ErrorKind::ArgumentAfterHash => "Syntax error, argument after hash parameter",
    }
}

/// Where the line starts that holds the byte at `at`.
pub(crate) fn find_line_start(src: &[u8], at: usize) -> (r: usize)
    requires
        at <= src@.len(),
    ensures
        r == line_start(src@, at as int),
        r <= at,
{
    let mut i: usize = at;
    while i > 0 && src[i - 1] != 0x0a
        invariant
            i <= at <= src@.len(),
            line_start(src@, at as int) == line_start(src@, i as int),
        decreases i,
    {
        proof {
            reveal_with_fuel(line_start, 2);
        }
        i -= 1;
    }
    proof {
        reveal_with_fuel(line_start, 2);
    }
    i
}

/// Where the line ends that holds the byte at `from`.
pub(crate) fn find_line_end(src: &[u8], from: usize) -> (r: usize)
    requires
        from <= src@.len(),
    ensures
        r == line_end(src@, from as int),
        from <= r <= src@.len(),
{
    let mut i: usize = from;
    while i < src.len() && src[i] != 0x0a
        invariant
            from <= i <= src@.len(),
            line_end(src@, from as int) == line_end(src@, i as int),
        decreases src@.len() - i,
    {
        proof {
            reveal_with_fuel(line_end, 2);
        }
        i += 1;
    }
    proof {
        reveal_with_fuel(line_end, 2);
    }
    i
}

/// Appends the line of a note to `out`, if there is a note.
pub fn write_note(out: &mut Vec<u8>, note: Option<Note>, src: &[u8])
    ensures
        final(out)@ == old(out)@ + note_line(note, src@),
{
    match note {
        Some(n) => {
            append(out, str_bytes(" = note: "));
            match n {
                Note::StringLiteralNotClosed => {
                    append(out, str_bytes("string literal was not closed"));
                },
                Note::MissingClose(name) => {
                    append(out, str_bytes("expected closing tag {{/"));
                    append(out, name.slice(src));
                    append(out, str_bytes("}}"));
                },
                Note::MissingRawClose(name) => {
                    append(out, str_bytes("expected closing tag {{{{/"));
                    append(out, name.slice(src));
                    append(out, str_bytes("}}}}"));
                },
            }
            out.push(0x0a);
            assert(out@ =~= old(out)@ + note_line(note, src@));
        },
        None => {
            assert(out@ =~= old(out)@ + note_line(note, src@));
        },
    }
}

impl SyntaxError {
    /// What is wrong, in words.
    pub fn description(&self) -> (r: &'static str)
        ensures
            r@ == description(self.spec_kind()),
    {
        describe(self.kind())
    }

    /// The message for the error in the source that it was found in.
    pub fn message(&self, src: &[u8]) -> (r: Vec<u8>)
        ensures
            r@ == message_of(self@, src@),
    {
        let info = self.info();
        let at = if info.pos.1 <= src.len() {
            info.pos.1
        } else {
            src.len()
        };
        let start = find_line_start(src, at);
        let end = find_line_end(src, at);
        let mut out: Vec<u8> = Vec::new();
        append(&mut out, str_bytes(self.description()));
        out.push(0x0a);
        append(&mut out, str_bytes(" --> "));
        append(&mut out, str_bytes(info.file_name.as_str()));
        out.push(0x3a);
        let line = to_decimal(crate::parser::state::next_line(info.pos.0));
        append(&mut out, str_bytes(line.as_str()));
        out.push(0x3a);
        let byte = to_decimal(info.pos.1);
        append(&mut out, str_bytes(byte.as_str()));
        out.push(0x0a);
        append(&mut out, vstd::slice::slice_subrange(src, start, end));
        out.push(0x0a);
        let ghost before = out@;
        let mut i: usize = start;
        while i < at
            invariant
                start <= i <= at,
                out@ == before + spaces(i - start),
            decreases at - i,
        {
            out.push(0x20);
            assert(out@ =~= before + spaces(i + 1 - start));
            i += 1;
        }
        out.push(0x5e);
        out.push(0x0a);
        write_note(&mut out, info.note, src);
        assert(out@ =~= message_of(self@, src@));
        out
    }
}

} // verus!
