//! Errors found while compiling a template.
use vstd::prelude::*;
use crate::text::Span;

verus! {

/// A place in a source: a line, counted from zero, and a byte offset.
#[derive(Clone, Copy, Debug, PartialEq, Eq, Structural)]
pub struct SourcePos(pub usize, pub usize);

/// What may be added to an error message.
#[derive(Clone, Copy, Debug, PartialEq, Eq, Structural)]
pub enum Note {
    /// "string literal was not closed"
    StringLiteralNotClosed,
    /// The closing tag `{{/name}}` that is missing: the span is that of the
    /// name in the opening tag of the block.
    MissingClose(Span),
    /// The closing tag `{{{{/name}}}}` that is missing: the span is that of
    /// the name in the opening tag of the raw block.
    MissingRawClose(Span),
}

/// Where an error was found.
#[derive(Debug, PartialEq, Eq)]
pub struct ErrorInfo {
    pub file_name: String,
    pub pos: SourcePos,
    pub note: Option<Note>,
}

/// The kinds of syntax error.
#[derive(Clone, Copy, Debug, PartialEq, Eq, Structural)]
pub enum ErrorKind {
    EmptyStatement,
    OpenStatement,
    StringLiteralNewline,
    ExpectedIdentifier,
    BlockName,
    UnexpectedPathExplicitThis,
    UnexpectedPathParent,
    UnexpectedPathLocal,
    UnexpectedPathDelimiter,
    UnexpectedPathParentWithLocal,
    UnexpectedPathParentWithExplicit,
    ExpectedPathDelimiter,
    EmptyPath,
    OpenSubExpression,
    TagNameMismatch,
    BlockNotOpen,
    BlockNotTerminated,
    RawBlockOpenNotTerminated,
    RawBlockNotTerminated,
    RawCommentNotTerminated,
    RawStatementNotTerminated,
    CommentNotTerminated,
    BlockTargetSubExpr,
    TokenJsonLiteral,
    TokenDoubleQuoteLiteral,
    TokenSingleQuoteLiteral,
    TokenParameterPath,
    DuplicateHashKey,
    HashValueMissing,
    ArgumentAfterHash,
}

/// A syntax error, with the place where it was found. There is no variant
/// for an array literal nor for a partial mixed with a conditional: the
/// grammar has neither form.
#[derive(Debug, PartialEq, Eq)]
pub enum SyntaxError {
    /// A tag without a call, such as `{{}}`.
    EmptyStatement(ErrorInfo),
    /// A tag that is not closed before the source ends.
    OpenStatement(ErrorInfo),
    /// A line feed inside a string literal.
    StringLiteralNewline(ErrorInfo),
    /// A literal where a call needs a path or a sub-expression.
    ExpectedIdentifier(ErrorInfo),
    /// A block whose name is a path of more than one identifier.
    BlockName(ErrorInfo),
    /// `this` or `./` after the start of a path.
    UnexpectedPathExplicitThis(ErrorInfo),
    /// `../` after the start of a path.
    UnexpectedPathParent(ErrorInfo),
    /// `@name` after the start of a path.
    UnexpectedPathLocal(ErrorInfo),
    /// A delimiter where a path component is expected.
    UnexpectedPathDelimiter(ErrorInfo),
    /// `@name` after `../`.
    UnexpectedPathParentWithLocal(ErrorInfo),
    /// `this` or `./` after `../`.
    UnexpectedPathParentWithExplicit(ErrorInfo),
    /// Two path components without a delimiter between them.
    ExpectedPathDelimiter(ErrorInfo),
    /// A path without a component, such as `../` alone.
    EmptyPath(ErrorInfo),
    /// A tag that ends inside a sub-expression.
    OpenSubExpression(ErrorInfo),
    /// A closing tag whose name is not that of the open block.
    TagNameMismatch(ErrorInfo),
    /// A closing tag where no block is open.
    BlockNotOpen(ErrorInfo),
    /// A block that is still open where the source ends.
    BlockNotTerminated(ErrorInfo),
    /// A source that ends inside the opening tag of a raw block.
    RawBlockOpenNotTerminated(ErrorInfo),
    /// A raw block that is still open where the source ends.
    RawBlockNotTerminated(ErrorInfo),
    /// A raw comment that is still open where the source ends.
    RawCommentNotTerminated(ErrorInfo),
    /// An escaped statement that is still open where the source ends.
    RawStatementNotTerminated(ErrorInfo),
    /// A comment that is still open where the source ends.
    CommentNotTerminated(ErrorInfo),
    /// A block whose target is a sub-expression though it is no partial.
    BlockTargetSubExpr(ErrorInfo),
    /// A number that is no JSON number.
    TokenJsonLiteral(ErrorInfo),
    /// An escape or a byte sequence that a `"..."` literal may not hold.
    TokenDoubleQuoteLiteral(ErrorInfo),
    /// An escape or a byte sequence that a `'...'` literal may not hold.
    TokenSingleQuoteLiteral(ErrorInfo),
    /// A token that no parameter can start with or hold.
    TokenParameterPath(ErrorInfo),
    /// A named parameter that is given twice.
    DuplicateHashKey(ErrorInfo),
    /// A `name=` without a value.
    HashValueMissing(ErrorInfo),
    /// A positional argument after a named parameter.
    ArgumentAfterHash(ErrorInfo),
}

/// The value of a [`SyntaxError`]: its kind, and where it was found.
pub ghost struct SyntaxErrorView {
    pub kind: ErrorKind,
    pub file_name: Seq<char>,
    pub pos: SourcePos,
    pub note: Option<Note>,
}

impl View for SyntaxError {
    type V = SyntaxErrorView;

    open spec fn view(&self) -> SyntaxErrorView {
        SyntaxErrorView {
            kind: self.spec_kind(),
            file_name: self.spec_info().file_name@,
            pos: self.spec_info().pos,
            note: self.spec_info().note,
        }
    }
}

impl ErrorInfo {
    pub fn new(file_name: &str, pos: SourcePos) -> (r: ErrorInfo)
        ensures
            r.file_name@ == file_name@,
            r.pos == pos,
            r.note is None,
    {
        ErrorInfo { file_name: file_name.to_owned(), pos, note: None }
    }

    pub fn new_notes(file_name: &str, pos: SourcePos, note: Option<Note>) -> (r: ErrorInfo)
        ensures
            r.file_name@ == file_name@,
            r.pos == pos,
            r.note == note,
    {
        ErrorInfo { file_name: file_name.to_owned(), pos, note }
    }
}

impl SyntaxError {
    /// The error of the given kind at the given place.
    pub open spec fn of(kind: ErrorKind, info: ErrorInfo) -> SyntaxError {
        match kind {
            ErrorKind::EmptyStatement => SyntaxError::EmptyStatement(info),
            ErrorKind::OpenStatement => SyntaxError::OpenStatement(info),
            ErrorKind::StringLiteralNewline => SyntaxError::StringLiteralNewline(info),
            ErrorKind::ExpectedIdentifier => SyntaxError::ExpectedIdentifier(info),
            ErrorKind::BlockName => SyntaxError::BlockName(info),
            ErrorKind::UnexpectedPathExplicitThis => SyntaxError::UnexpectedPathExplicitThis(info),
            ErrorKind::UnexpectedPathParent => SyntaxError::UnexpectedPathParent(info),
            ErrorKind::UnexpectedPathLocal => SyntaxError::UnexpectedPathLocal(info),
            ErrorKind::UnexpectedPathDelimiter => SyntaxError::UnexpectedPathDelimiter(info),
            ErrorKind::UnexpectedPathParentWithLocal => SyntaxError::UnexpectedPathParentWithLocal(
                info,
            ),
            ErrorKind::UnexpectedPathParentWithExplicit => SyntaxError::UnexpectedPathParentWithExplicit(
                info,
            ),
            ErrorKind::ExpectedPathDelimiter => SyntaxError::ExpectedPathDelimiter(info),
            ErrorKind::EmptyPath => SyntaxError::EmptyPath(info),
            ErrorKind::OpenSubExpression => SyntaxError::OpenSubExpression(info),
            ErrorKind::TagNameMismatch => SyntaxError::TagNameMismatch(info),
            ErrorKind::BlockNotOpen => SyntaxError::BlockNotOpen(info),
            ErrorKind::BlockNotTerminated => SyntaxError::BlockNotTerminated(info),
            ErrorKind::RawBlockOpenNotTerminated => SyntaxError::RawBlockOpenNotTerminated(info),
            ErrorKind::RawBlockNotTerminated => SyntaxError::RawBlockNotTerminated(info),
            ErrorKind::RawCommentNotTerminated => SyntaxError::RawCommentNotTerminated(info),
            ErrorKind::RawStatementNotTerminated => SyntaxError::RawStatementNotTerminated(info),
            ErrorKind::CommentNotTerminated => SyntaxError::CommentNotTerminated(info),
            ErrorKind::BlockTargetSubExpr => SyntaxError::BlockTargetSubExpr(info),
            ErrorKind::TokenJsonLiteral => SyntaxError::TokenJsonLiteral(info),
            ErrorKind::TokenDoubleQuoteLiteral => SyntaxError::TokenDoubleQuoteLiteral(info),
            ErrorKind::TokenSingleQuoteLiteral => SyntaxError::TokenSingleQuoteLiteral(info),
            ErrorKind::TokenParameterPath => SyntaxError::TokenParameterPath(info),
            ErrorKind::DuplicateHashKey => SyntaxError::DuplicateHashKey(info),
            ErrorKind::HashValueMissing => SyntaxError::HashValueMissing(info),
            ErrorKind::ArgumentAfterHash => SyntaxError::ArgumentAfterHash(info),
        }
    }

    /// The error of the given kind at the given place.
    pub fn new(kind: ErrorKind, info: ErrorInfo) -> (r: SyntaxError)
        ensures
            r == SyntaxError::of(kind, info),
    {
        match kind {
            ErrorKind::EmptyStatement => SyntaxError::EmptyStatement(info),
            ErrorKind::OpenStatement => SyntaxError::OpenStatement(info),
            ErrorKind::StringLiteralNewline => SyntaxError::StringLiteralNewline(info),
            ErrorKind::ExpectedIdentifier => SyntaxError::ExpectedIdentifier(info),
            ErrorKind::BlockName => SyntaxError::BlockName(info),
            ErrorKind::UnexpectedPathExplicitThis => SyntaxError::UnexpectedPathExplicitThis(info),
            ErrorKind::UnexpectedPathParent => SyntaxError::UnexpectedPathParent(info),
            ErrorKind::UnexpectedPathLocal => SyntaxError::UnexpectedPathLocal(info),
            ErrorKind::UnexpectedPathDelimiter => SyntaxError::UnexpectedPathDelimiter(info),
            ErrorKind::UnexpectedPathParentWithLocal => SyntaxError::UnexpectedPathParentWithLocal(
                info,
            ),
            ErrorKind::UnexpectedPathParentWithExplicit => SyntaxError::UnexpectedPathParentWithExplicit(
                info,
            ),
            ErrorKind::ExpectedPathDelimiter => SyntaxError::ExpectedPathDelimiter(info),
            ErrorKind::EmptyPath => SyntaxError::EmptyPath(info),
            ErrorKind::OpenSubExpression => SyntaxError::OpenSubExpression(info),
            ErrorKind::TagNameMismatch => SyntaxError::TagNameMismatch(info),
            ErrorKind::BlockNotOpen => SyntaxError::BlockNotOpen(info),
            ErrorKind::BlockNotTerminated => SyntaxError::BlockNotTerminated(info),
            ErrorKind::RawBlockOpenNotTerminated => SyntaxError::RawBlockOpenNotTerminated(info),
            ErrorKind::RawBlockNotTerminated => SyntaxError::RawBlockNotTerminated(info),
            ErrorKind::RawCommentNotTerminated => SyntaxError::RawCommentNotTerminated(info),
            ErrorKind::RawStatementNotTerminated => SyntaxError::RawStatementNotTerminated(info),
            ErrorKind::CommentNotTerminated => SyntaxError::CommentNotTerminated(info),
            ErrorKind::BlockTargetSubExpr => SyntaxError::BlockTargetSubExpr(info),
            ErrorKind::TokenJsonLiteral => SyntaxError::TokenJsonLiteral(info),
            ErrorKind::TokenDoubleQuoteLiteral => SyntaxError::TokenDoubleQuoteLiteral(info),
            ErrorKind::TokenSingleQuoteLiteral => SyntaxError::TokenSingleQuoteLiteral(info),
            ErrorKind::TokenParameterPath => SyntaxError::TokenParameterPath(info),
            ErrorKind::DuplicateHashKey => SyntaxError::DuplicateHashKey(info),
            ErrorKind::HashValueMissing => SyntaxError::HashValueMissing(info),
            ErrorKind::ArgumentAfterHash => SyntaxError::ArgumentAfterHash(info),
        }
    }

    /// The kind of the error.
    pub open spec fn spec_kind(&self) -> ErrorKind {
        match *self {
            SyntaxError::EmptyStatement(_) => ErrorKind::EmptyStatement,
            SyntaxError::OpenStatement(_) => ErrorKind::OpenStatement,
            SyntaxError::StringLiteralNewline(_) => ErrorKind::StringLiteralNewline,
            SyntaxError::ExpectedIdentifier(_) => ErrorKind::ExpectedIdentifier,
            SyntaxError::BlockName(_) => ErrorKind::BlockName,
            SyntaxError::UnexpectedPathExplicitThis(_) => ErrorKind::UnexpectedPathExplicitThis,
            SyntaxError::UnexpectedPathParent(_) => ErrorKind::UnexpectedPathParent,
            SyntaxError::UnexpectedPathLocal(_) => ErrorKind::UnexpectedPathLocal,
            SyntaxError::UnexpectedPathDelimiter(_) => ErrorKind::UnexpectedPathDelimiter,
            SyntaxError::UnexpectedPathParentWithLocal(_) => ErrorKind::UnexpectedPathParentWithLocal,
            SyntaxError::UnexpectedPathParentWithExplicit(_) => ErrorKind::UnexpectedPathParentWithExplicit,
            SyntaxError::ExpectedPathDelimiter(_) => ErrorKind::ExpectedPathDelimiter,
            SyntaxError::EmptyPath(_) => ErrorKind::EmptyPath,
            SyntaxError::OpenSubExpression(_) => ErrorKind::OpenSubExpression,
            SyntaxError::TagNameMismatch(_) => ErrorKind::TagNameMismatch,
            SyntaxError::BlockNotOpen(_) => ErrorKind::BlockNotOpen,
            SyntaxError::BlockNotTerminated(_) => ErrorKind::BlockNotTerminated,
            SyntaxError::RawBlockOpenNotTerminated(_) => ErrorKind::RawBlockOpenNotTerminated,
            SyntaxError::RawBlockNotTerminated(_) => ErrorKind::RawBlockNotTerminated,
            SyntaxError::RawCommentNotTerminated(_) => ErrorKind::RawCommentNotTerminated,
            SyntaxError::RawStatementNotTerminated(_) => ErrorKind::RawStatementNotTerminated,
            SyntaxError::CommentNotTerminated(_) => ErrorKind::CommentNotTerminated,
            SyntaxError::BlockTargetSubExpr(_) => ErrorKind::BlockTargetSubExpr,
            SyntaxError::TokenJsonLiteral(_) => ErrorKind::TokenJsonLiteral,
            SyntaxError::TokenDoubleQuoteLiteral(_) => ErrorKind::TokenDoubleQuoteLiteral,
            SyntaxError::TokenSingleQuoteLiteral(_) => ErrorKind::TokenSingleQuoteLiteral,
            SyntaxError::TokenParameterPath(_) => ErrorKind::TokenParameterPath,
            SyntaxError::DuplicateHashKey(_) => ErrorKind::DuplicateHashKey,
            SyntaxError::HashValueMissing(_) => ErrorKind::HashValueMissing,
            SyntaxError::ArgumentAfterHash(_) => ErrorKind::ArgumentAfterHash,
        }
    }

    /// The place of the error.
    pub open spec fn spec_info(&self) -> ErrorInfo {
        match *self {
            SyntaxError::EmptyStatement(i) => i,
            SyntaxError::OpenStatement(i) => i,
            SyntaxError::StringLiteralNewline(i) => i,
            SyntaxError::ExpectedIdentifier(i) => i,
            SyntaxError::BlockName(i) => i,
            SyntaxError::UnexpectedPathExplicitThis(i) => i,
            SyntaxError::UnexpectedPathParent(i) => i,
            SyntaxError::UnexpectedPathLocal(i) => i,
            SyntaxError::UnexpectedPathDelimiter(i) => i,
            SyntaxError::UnexpectedPathParentWithLocal(i) => i,
            SyntaxError::UnexpectedPathParentWithExplicit(i) => i,
            SyntaxError::ExpectedPathDelimiter(i) => i,
            SyntaxError::EmptyPath(i) => i,
            SyntaxError::OpenSubExpression(i) => i,
            SyntaxError::TagNameMismatch(i) => i,
            SyntaxError::BlockNotOpen(i) => i,
            SyntaxError::BlockNotTerminated(i) => i,
            SyntaxError::RawBlockOpenNotTerminated(i) => i,
            SyntaxError::RawBlockNotTerminated(i) => i,
            SyntaxError::RawCommentNotTerminated(i) => i,
            SyntaxError::RawStatementNotTerminated(i) => i,
            SyntaxError::CommentNotTerminated(i) => i,
            SyntaxError::BlockTargetSubExpr(i) => i,
            SyntaxError::TokenJsonLiteral(i) => i,
            SyntaxError::TokenDoubleQuoteLiteral(i) => i,
            SyntaxError::TokenSingleQuoteLiteral(i) => i,
            SyntaxError::TokenParameterPath(i) => i,
            SyntaxError::DuplicateHashKey(i) => i,
            SyntaxError::HashValueMissing(i) => i,
            SyntaxError::ArgumentAfterHash(i) => i,
        }
    }

    #[verifier::when_used_as_spec(spec_kind)]
    pub fn kind(&self) -> (r: ErrorKind)
        ensures
            r == self.spec_kind(),
    {
        match self {
            SyntaxError::EmptyStatement(_) => ErrorKind::EmptyStatement,
            SyntaxError::OpenStatement(_) => ErrorKind::OpenStatement,
            SyntaxError::StringLiteralNewline(_) => ErrorKind::StringLiteralNewline,
            SyntaxError::ExpectedIdentifier(_) => ErrorKind::ExpectedIdentifier,
            SyntaxError::BlockName(_) => ErrorKind::BlockName,
            SyntaxError::UnexpectedPathExplicitThis(_) => ErrorKind::UnexpectedPathExplicitThis,
            SyntaxError::UnexpectedPathParent(_) => ErrorKind::UnexpectedPathParent,
            SyntaxError::UnexpectedPathLocal(_) => ErrorKind::UnexpectedPathLocal,
            SyntaxError::UnexpectedPathDelimiter(_) => ErrorKind::UnexpectedPathDelimiter,
            SyntaxError::UnexpectedPathParentWithLocal(_) => ErrorKind::UnexpectedPathParentWithLocal,
            SyntaxError::UnexpectedPathParentWithExplicit(_) => ErrorKind::UnexpectedPathParentWithExplicit,
            SyntaxError::ExpectedPathDelimiter(_) => ErrorKind::ExpectedPathDelimiter,
            SyntaxError::EmptyPath(_) => ErrorKind::EmptyPath,
            SyntaxError::OpenSubExpression(_) => ErrorKind::OpenSubExpression,
            SyntaxError::TagNameMismatch(_) => ErrorKind::TagNameMismatch,
            SyntaxError::BlockNotOpen(_) => ErrorKind::BlockNotOpen,
            SyntaxError::BlockNotTerminated(_) => ErrorKind::BlockNotTerminated,
            SyntaxError::RawBlockOpenNotTerminated(_) => ErrorKind::RawBlockOpenNotTerminated,
            SyntaxError::RawBlockNotTerminated(_) => ErrorKind::RawBlockNotTerminated,
            SyntaxError::RawCommentNotTerminated(_) => ErrorKind::RawCommentNotTerminated,
            SyntaxError::RawStatementNotTerminated(_) => ErrorKind::RawStatementNotTerminated,
            SyntaxError::CommentNotTerminated(_) => ErrorKind::CommentNotTerminated,
            SyntaxError::BlockTargetSubExpr(_) => ErrorKind::BlockTargetSubExpr,
            SyntaxError::TokenJsonLiteral(_) => ErrorKind::TokenJsonLiteral,
            SyntaxError::TokenDoubleQuoteLiteral(_) => ErrorKind::TokenDoubleQuoteLiteral,
            SyntaxError::TokenSingleQuoteLiteral(_) => ErrorKind::TokenSingleQuoteLiteral,
            SyntaxError::TokenParameterPath(_) => ErrorKind::TokenParameterPath,
            SyntaxError::DuplicateHashKey(_) => ErrorKind::DuplicateHashKey,
            SyntaxError::HashValueMissing(_) => ErrorKind::HashValueMissing,
            SyntaxError::ArgumentAfterHash(_) => ErrorKind::ArgumentAfterHash,
        }
    }

    pub fn info(&self) -> (r: &ErrorInfo)
        ensures
            *r == self.spec_info(),
    {
        match self {
            SyntaxError::EmptyStatement(i) => i,
            SyntaxError::OpenStatement(i) => i,
            SyntaxError::StringLiteralNewline(i) => i,
            SyntaxError::ExpectedIdentifier(i) => i,
            SyntaxError::BlockName(i) => i,
            SyntaxError::UnexpectedPathExplicitThis(i) => i,
            SyntaxError::UnexpectedPathParent(i) => i,
            SyntaxError::UnexpectedPathLocal(i) => i,
            SyntaxError::UnexpectedPathDelimiter(i) => i,
            SyntaxError::UnexpectedPathParentWithLocal(i) => i,
            SyntaxError::UnexpectedPathParentWithExplicit(i) => i,
            SyntaxError::ExpectedPathDelimiter(i) => i,
            SyntaxError::EmptyPath(i) => i,
            SyntaxError::OpenSubExpression(i) => i,
            SyntaxError::TagNameMismatch(i) => i,
            SyntaxError::BlockNotOpen(i) => i,
            SyntaxError::BlockNotTerminated(i) => i,
            SyntaxError::RawBlockOpenNotTerminated(i) => i,
            SyntaxError::RawBlockNotTerminated(i) => i,
            SyntaxError::RawCommentNotTerminated(i) => i,
            SyntaxError::RawStatementNotTerminated(i) => i,
            SyntaxError::CommentNotTerminated(i) => i,
            SyntaxError::BlockTargetSubExpr(i) => i,
            SyntaxError::TokenJsonLiteral(i) => i,
            SyntaxError::TokenDoubleQuoteLiteral(i) => i,
            SyntaxError::TokenSingleQuoteLiteral(i) => i,
            SyntaxError::TokenParameterPath(i) => i,
            SyntaxError::DuplicateHashKey(i) => i,
            SyntaxError::HashValueMissing(i) => i,
            SyntaxError::ArgumentAfterHash(i) => i,
        }
    }
}

} // verus!
