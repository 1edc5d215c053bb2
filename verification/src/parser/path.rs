//! Paths: `foo.bar`, `../foo`, `this.foo`, `./foo`, `@index`, `foo.[0]`.
use vstd::prelude::*;
use crate::error::syntax::{ErrorKind, SyntaxError, SyntaxErrorView};
use crate::lexer::grammar::{Parameters, Token};
use crate::parser::ast::{Component, ComponentType, Path, PathView};
use crate::parser::state::{fail, next_line, param, param_at, succ, syntax_error};
use crate::text::Span;

verus! {

/// Whether a token of that kind can be part of a path.
pub open spec fn spec_is_path_component(lex: &Parameters) -> bool {
    match *lex {
        Parameters::ExplicitThisKeyword
        | Parameters::ExplicitThisDotSlash
        | Parameters::ParentRef
        | Parameters::Identifier
        | Parameters::LocalIdentifier
        | Parameters::PathDelimiter
        | Parameters::ArrayAccess => true,
        _ => false,
    }
}

/// The kind of component that a token of that kind stands for.
pub open spec fn spec_component_type(lex: &Parameters) -> ComponentType {
    match *lex {
        Parameters::ExplicitThisKeyword => ComponentType::ThisKeyword,
        Parameters::ExplicitThisDotSlash => ComponentType::ThisDotSlash,
        Parameters::ParentRef => ComponentType::Parent,
        Parameters::LocalIdentifier => ComponentType::LocalIdentifier,
        Parameters::PathDelimiter => ComponentType::Delimiter,
        Parameters::ArrayAccess => ComponentType::ArrayAccess,
        _ => ComponentType::Identifier,
    }
}

#[verifier::when_used_as_spec(spec_is_path_component)]
pub fn is_path_component(lex: &Parameters) -> (r: bool)
    ensures
        r == spec_is_path_component(lex),
{
    match lex {
        Parameters::ExplicitThisKeyword
        | Parameters::ExplicitThisDotSlash
        | Parameters::ParentRef
        | Parameters::Identifier
        | Parameters::LocalIdentifier
        | Parameters::PathDelimiter
        | Parameters::ArrayAccess => true,
        _ => false,
    }
}

#[verifier::when_used_as_spec(spec_component_type)]
pub fn component_type(lex: &Parameters) -> (r: ComponentType)
    requires
        spec_is_path_component(lex),
    ensures
        r == spec_component_type(lex),
{
    match lex {
        Parameters::ExplicitThisKeyword => ComponentType::ThisKeyword,
        Parameters::ExplicitThisDotSlash => ComponentType::ThisDotSlash,
        Parameters::ParentRef => ComponentType::Parent,
        Parameters::LocalIdentifier => ComponentType::LocalIdentifier,
        Parameters::PathDelimiter => ComponentType::Delimiter,
        Parameters::ArrayAccess => ComponentType::ArrayAccess,
        _ => ComponentType::Identifier,
    }
}

/// The token at `i` if it can be part of a path.
pub open spec fn component_at(toks: Seq<Token>, i: int) -> Option<(Parameters, Span)> {
    match param_at(toks, i) {
        Some((lex, span)) => if spec_is_path_component(&lex) {
            Some((lex, span))
        } else {
            None
        },
        None => None,
    }
}

/// The index after the run of `../` that starts at `i`.
pub open spec fn parents_end(toks: Seq<Token>, i: int) -> int
    decreases toks.len() - i,
{
    match param_at(toks, i) {
        Some((Parameters::ParentRef, _)) => parents_end(toks, i + 1),
        _ => i,
    }
}

/// `@root`
pub open spec fn root_name() -> Seq<u8> {
    seq![0x40u8, 0x72, 0x6f, 0x6f, 0x74]
}

/// The lines of something that is all on one line.
pub open spec fn one_line(line: usize) -> Span {
    Span { start: line, end: succ(line) }
}

/// The components of a path from the token at `i` on, after the path `acc`
/// that has been read so far: components and delimiters alternate, and
/// what may only start a path is refused. Gives the path and the index of
/// the first token after it.
pub open spec fn components_from(
    file: Seq<char>,
    line: usize,
    toks: Seq<Token>,
    i: int,
    acc: PathView,
    wants_delimiter: bool,
) -> Result<(PathView, int), SyntaxErrorView>
    decreases toks.len() - i,
{
    match component_at(toks, i) {
        None => Ok((acc, i)),
        Some((lex, span)) => {
            if lex == Parameters::ExplicitThisKeyword || lex == Parameters::ExplicitThisDotSlash {
                Err(fail(ErrorKind::UnexpectedPathExplicitThis, file, line, span.start))
            } else if lex == Parameters::ParentRef {
                Err(fail(ErrorKind::UnexpectedPathParent, file, line, span.start))
            } else if lex == Parameters::LocalIdentifier {
                Err(fail(ErrorKind::UnexpectedPathLocal, file, line, span.start))
            } else if wants_delimiter {
                if lex == Parameters::PathDelimiter {
                    components_from(file, line, toks, i + 1, acc, false)
                } else {
                    Err(fail(ErrorKind::ExpectedPathDelimiter, file, line, span.start))
                }
            } else if lex == Parameters::PathDelimiter {
                Err(fail(ErrorKind::UnexpectedPathDelimiter, file, line, span.start))
            } else {
                components_from(
                    file,
                    line,
                    toks,
                    i + 1,
                    PathView {
                        components: acc.components.push(
                            Component(spec_component_type(&lex), span, one_line(line)),
                        ),
                        ..acc
                    },
                    true,
                )
            }
        },
    }
}

/// The byte at which the token at `i` starts; 0 where there is none.
pub open spec fn start_at(toks: Seq<Token>, i: int) -> usize {
    match param_at(toks, i) {
        Some((_, span)) => span.start,
        None => 0,
    }
}

/// The path that starts with the token at `i`, and the index of the first
/// token after it. The path starts with any number of `../`; its first
/// component may be `this`, `./` or `@name`, though not after `../`. A
/// path has a component: `../` and nothing after it is an empty path,
/// which is an error at its first `../`.
pub open spec fn path_from(file: Seq<char>, line: usize, src: Seq<u8>, toks: Seq<Token>, i: int) -> Result<
    (PathView, int),
    SyntaxErrorView,
> {
    let j = parents_end(toks, i);
    let start = PathView {
        components: Seq::empty(),
        parents: (j - i) as nat,
        explicit: false,
        root: false,
        lines: one_line(line),
    };
    match component_at(toks, j) {
        None => Err(fail(ErrorKind::EmptyPath, file, line, start_at(toks, i))),
        Some((lex, span)) => {
            let explicit = lex == Parameters::ExplicitThisKeyword || lex
                == Parameters::ExplicitThisDotSlash;
            let local = lex == Parameters::LocalIdentifier;
            if lex == Parameters::PathDelimiter {
                Err(fail(ErrorKind::UnexpectedPathDelimiter, file, line, span.start))
            } else if local && j > i {
                Err(fail(ErrorKind::UnexpectedPathParentWithLocal, file, line, span.start))
            } else if explicit && j > i {
                Err(fail(ErrorKind::UnexpectedPathParentWithExplicit, file, line, span.start))
            } else {
                components_from(
                    file,
                    line,
                    toks,
                    j + 1,
                    PathView {
                        components: seq![Component(spec_component_type(&lex), span, one_line(line))],
                        explicit,
                        root: local && span.of(src) == root_name(),
                        ..start
                    },
                    lex != Parameters::ExplicitThisDotSlash,
                )
            }
        },
    }
}

/// The path with its lines: it ends on the line it is on, or on the next
/// one if a line feed follows it at once.
pub open spec fn path_of(file: Seq<char>, line: usize, src: Seq<u8>, toks: Seq<Token>, i: int) -> Result<
    (PathView, int),
    SyntaxErrorView,
> {
    match path_from(file, line, src, toks, i) {
        Err(e) => Err(e),
        Ok((p, k)) => {
            let end = match param_at(toks, k) {
                Some((Parameters::Newline, _)) => succ(succ(line)),
                _ => succ(line),
            };
            Ok((PathView { lines: Span { start: line, end }, ..p }, k))
        },
    }
}

pub proof fn lemma_parents_end_bounds(toks: Seq<Token>, i: int)
    requires
        0 <= i <= toks.len(),
    ensures
        i <= parents_end(toks, i) <= toks.len(),
    decreases toks.len() - i,
{
    match param_at(toks, i) {
        Some((Parameters::ParentRef, _)) => {
            lemma_parents_end_bounds(toks, i + 1);
            assert(parents_end(toks, i) == parents_end(toks, i + 1));
        },
        _ => {
            assert(parents_end(toks, i) == i);
        },
    }
}

/// A path ends after where it starts, within the tokens.
pub proof fn lemma_components_bounds(
    file: Seq<char>,
    line: usize,
    toks: Seq<Token>,
    i: int,
    acc: PathView,
    wants: bool,
)
    requires
        0 <= i <= toks.len(),
    ensures
        components_from(file, line, toks, i, acc, wants) matches Ok((_, k)) ==> i <= k
            <= toks.len(),
    decreases toks.len() - i,
{
    match component_at(toks, i) {
        None => {},
        Some((lex, span)) => {
            if lex == Parameters::ExplicitThisKeyword || lex == Parameters::ExplicitThisDotSlash {
            } else if lex == Parameters::ParentRef {
            } else if lex == Parameters::LocalIdentifier {
            } else if wants {
                if lex == Parameters::PathDelimiter {
                    lemma_components_bounds(file, line, toks, i + 1, acc, false);
                }
            } else if lex == Parameters::PathDelimiter {
            } else {
                lemma_components_bounds(
                    file,
                    line,
                    toks,
                    i + 1,
                    PathView {
                        components: acc.components.push(
                            Component(spec_component_type(&lex), span, one_line(line)),
                        ),
                        ..acc
                    },
                    true,
                );
            }
        },
    }
}

/// A path that starts with a token that can be part of one takes at least
/// that token.
pub proof fn lemma_path_advances(file: Seq<char>, line: usize, src: Seq<u8>, toks: Seq<Token>, i: int)
    requires
        0 <= i < toks.len(),
        component_at(toks, i) is Some,
    ensures
        path_of(file, line, src, toks, i) matches Ok((_, k)) ==> i < k <= toks.len(),
{
    lemma_parents_end_bounds(toks, i);
    let j = parents_end(toks, i);
    if j == i {
        assert(component_at(toks, j) is Some);
    } else {
        assert(i < j);
    }
    match component_at(toks, j) {
        None => {},
        Some((lex, span)) => {
            let start = PathView {
                components: Seq::empty(),
                parents: (j - i) as nat,
                explicit: false,
                root: false,
                lines: one_line(line),
            };
            let explicit = lex == Parameters::ExplicitThisKeyword || lex
                == Parameters::ExplicitThisDotSlash;
            let local = lex == Parameters::LocalIdentifier;
            lemma_components_bounds(
                file,
                line,
                toks,
                j + 1,
                PathView {
                    components: seq![Component(spec_component_type(&lex), span, one_line(line))],
                    explicit,
                    root: local && span.of(src) == root_name(),
                    ..start
                },
                lex != Parameters::ExplicitThisDotSlash,
            );
        },
    }
}

fn component(toks: &Vec<Token>, i: usize) -> (r: Option<(Parameters, Span)>)
    ensures
        r == component_at(toks@, i as int),
{
    match param(toks, i) {
        Some((lex, span)) => if is_path_component(&lex) {
            Some((lex, span))
        } else {
            None
        },
        None => None,
    }
}

/// The index after the run of `../` that starts at `i`.
pub fn parents(toks: &Vec<Token>, i: usize) -> (r: usize)
    requires
        i <= toks.len(),
    ensures
        r == parents_end(toks@, i as int),
        i <= r <= toks.len(),
{
    let mut j: usize = i;
    loop
        invariant
            i <= j <= toks.len(),
            parents_end(toks@, i as int) == parents_end(toks@, j as int),
        decreases toks.len() - j,
    {
        match param(toks, j) {
            Some((Parameters::ParentRef, _)) => {
                assert(parents_end(toks@, j as int) == parents_end(toks@, j + 1));
                j += 1;
            },
            _ => {
                assert(parents_end(toks@, j as int) == j);
                return j;
            },
        }
    }
}

/// Reads the rest of a path into `path`.
pub fn components(
    file: &String,
    line: usize,
    toks: &Vec<Token>,
    start: usize,
    path: Path,
    wants_delimiter: bool,
) -> (r: Result<(Path, usize), SyntaxError>)
    requires
        start <= toks.len(),
    ensures
        match components_from(
            file@,
            line,
            toks@,
            start as int,
            path@,
            wants_delimiter,
        ) {
            Ok((p, k)) => r matches Ok((q, j)) && q@ == p && j == k && start <= j <= toks.len(),
            Err(e) => r matches Err(x) && x@ == e,
        },
{
    let ghost goal = components_from(
        file@,
        line,
        toks@,
        start as int,
        path@,
        wants_delimiter,
    );
    let mut acc = path;
    let mut wants = wants_delimiter;
    let mut i: usize = start;
    loop
        invariant
            start <= i <= toks.len(),
            goal == components_from(
                file@,
                line,
                toks@,
                start as int,
                path@,
                wants_delimiter,
            ),
            goal == components_from(file@, line, toks@, i as int, acc@, wants),
        decreases toks.len() - i,
    {
        proof {
            reveal_with_fuel(components_from, 2);
        }
        match component(toks, i) {
            None => {
                return Ok((acc, i));
            },
            Some((lex, span)) => {
                if lex == Parameters::ExplicitThisKeyword || lex
                    == Parameters::ExplicitThisDotSlash {
                    return Err(syntax_error(ErrorKind::UnexpectedPathExplicitThis, file, line, span.start));
                } else if lex == Parameters::ParentRef {
                    return Err(syntax_error(ErrorKind::UnexpectedPathParent, file, line, span.start));
                } else if lex == Parameters::LocalIdentifier {
                    return Err(syntax_error(ErrorKind::UnexpectedPathLocal, file, line, span.start));
                } else if wants {
                    if lex == Parameters::PathDelimiter {
                        wants = false;
                    } else {
                        return Err(syntax_error(ErrorKind::ExpectedPathDelimiter, file, line, span.start));
                    }
                } else if lex == Parameters::PathDelimiter {
                    return Err(syntax_error(ErrorKind::UnexpectedPathDelimiter, file, line, span.start));
                } else {
                    acc.components.push(
                        Component(component_type(&lex), span, Span::new(line, next_line(line))),
                    );
                    wants = true;
                }
                i += 1;
            },
        }
    }
}

/// Reads the path that starts with the token at `i`.
pub fn parse(src: &[u8], file: &String, line: usize, toks: &Vec<Token>, i: usize) -> (r: Result<
    (Path, usize),
    SyntaxError,
>)
    requires
        i < toks.len(),
        component_at(toks@, i as int) is Some,
        forall|k: int| 0 <= k < toks.len() ==> (#[trigger] toks[k]).spec_span().within(src@.len() as int),
    ensures
        match path_of(file@, line, src@, toks@, i as int) {
            Ok((p, k)) => r matches Ok((q, j)) && q@ == p && j == k && i < j <= toks.len()
                && well_formed(q@) && q.parents == parents_end(toks@, i as int) - i,
            Err(e) => r matches Err(x) && x@ == e,
        },
{
    proof {
        lemma_path_advances(file@, line, src@, toks@, i as int);
        lemma_path_well_formed(file@, line, src@, toks@, i as int);
    }
    let j = parents(toks, i);
    let mut path = Path {
        components: Vec::new(),
        parents: j - i,
        explicit: false,
        root: false,
        lines: Span::new(line, next_line(line)),
    };
    let read = match component(toks, j) {
        None => {
            let at = match param(toks, i) {
                Some((_, span)) => span.start,
                None => 0,
            };
            return Err(syntax_error(ErrorKind::EmptyPath, file, line, at));
        },
        Some((lex, span)) => {
            let explicit = lex == Parameters::ExplicitThisKeyword || lex
                == Parameters::ExplicitThisDotSlash;
            let local = lex == Parameters::LocalIdentifier;
            if lex == Parameters::PathDelimiter {
                return Err(syntax_error(ErrorKind::UnexpectedPathDelimiter, file, line, span.start));
            } else if local && j > i {
                return Err(syntax_error(ErrorKind::UnexpectedPathParentWithLocal, file, line, span.start));
            } else if explicit && j > i {
                return Err(syntax_error(ErrorKind::UnexpectedPathParentWithExplicit, file, line, span.start));
            }
            path.components.push(
                Component(component_type(&lex), span, Span::new(line, next_line(line))),
            );
            path.explicit = explicit;
            path.root = local && is_root(span.slice(src));
            assert(path.components@ =~= seq![
                Component(spec_component_type(&lex), span, one_line(line)),
            ]);
            match components(file, line, toks, j + 1, path, lex != Parameters::ExplicitThisDotSlash) {
                Ok(done) => done,
                Err(e) => {
                    return Err(e);
                },
            }
        },
    };
    let mut path = read.0;
    let k = read.1;
    let end = match param(toks, k) {
        Some((Parameters::Newline, _)) => next_line(next_line(line)),
        _ => next_line(line),
    };
    path.lines = Span::new(line, end);
    Ok((path, k))
}

/// Whether a name is `@root`.
pub fn is_root(name: &[u8]) -> (r: bool)
    ensures
        r == (name@ == root_name()),
{
    let r = name.len() == 5 && name[0] == 0x40 && name[1] == 0x72 && name[2] == 0x6f && name[3]
        == 0x6f && name[4] == 0x74;
    proof {
        let w = root_name();
        assert(w.len() == 5 && w[0] == 0x40 && w[1] == 0x72 && w[2] == 0x6f && w[3] == 0x6f && w[4]
            == 0x74);
        if r {
            assert(name@ =~= w);
        }
    }
    r
}

/// The path that a text spells, if the text starts with one: the text is
/// read as the parameters of a tag are.
pub fn from_str(source: &[u8]) -> (r: Result<Option<Path>, SyntaxError>)
    ensures
        ({
            let toks = crate::lexer::grammar::tokens_from(
                source@,
                0,
                crate::lexer::grammar::Mode::Parameters(2),
            );
            match component_at(toks, 0) {
                None => r matches Ok(None),
                Some(_) => match path_of("unknown"@, 0, source@, toks, 0) {
                    Ok((p, _)) => r matches Ok(Some(q)) && q@ == p && well_formed(q@),
                    Err(e) => r matches Err(x) && x@ == e,
                },
            }
        }),
{
    let toks = crate::lexer::scan::lex_in(source, crate::lexer::grammar::Mode::Parameters(2));
    let file = "unknown".to_owned();
    match component(&toks, 0) {
        None => Ok(None),
        Some(_) => {
            proof {
                assert forall|k: int| 0 <= k < toks.len() implies (
                #[trigger] toks[k]).spec_span().within(source@.len() as int) by {
                    crate::parser::lemma_tiled_within(toks@, source@.len() as int, k);
                }
            }
            match parse(source, &file, 0, &toks, 0) {
                Ok((p, _)) => Ok(Some(p)),
                Err(e) => Err(e),
            }
        },
    }
}

/// Whether a path is formed as paths are: it has a component; `this`,
/// `./` and `@name` stand first or nowhere, and not after `../`; every other component is an
/// identifier or `[...]`; the path counts as explicit exactly if it starts
/// with `this` or `./`, and as rooted only if it starts with `@name`.
pub open spec fn well_formed(p: PathView) -> bool {
    &&& p.components.len() > 0
    &&& forall|i: int|
        0 < i < p.components.len() ==> (#[trigger] p.components[i]).0 == ComponentType::Identifier
            || p.components[i].0 == ComponentType::ArrayAccess
    &&& p.components.len() > 0 ==> p.components[0].0 != ComponentType::Delimiter && p.components[0].0
        != ComponentType::Parent
    &&& p.explicit <==> p.components.len() > 0 && (p.components[0].0 == ComponentType::ThisKeyword
        || p.components[0].0 == ComponentType::ThisDotSlash)
    &&& p.root ==> p.components.len() > 0 && p.components[0].0 == ComponentType::LocalIdentifier
    &&& p.parents > 0 ==> !p.explicit && !p.root && forall|i: int|
        0 <= i < p.components.len() ==> (#[trigger] p.components[i]).0
            != ComponentType::LocalIdentifier
}

/// Reading further components keeps a path well formed.
pub proof fn lemma_components_well_formed(
    file: Seq<char>,
    line: usize,
    toks: Seq<Token>,
    i: int,
    acc: PathView,
    wants: bool,
)
    requires
        0 <= i,
        well_formed(acc),
        acc.components.len() > 0,
    ensures
        components_from(file, line, toks, i, acc, wants) matches Ok((p, _)) ==> well_formed(p)
            && p.parents == acc.parents,
    decreases toks.len() - i,
{
    reveal_with_fuel(components_from, 2);
    match component_at(toks, i) {
        None => {},
        Some((lex, span)) => {
            if lex == Parameters::ExplicitThisKeyword || lex == Parameters::ExplicitThisDotSlash {
            } else if lex == Parameters::ParentRef {
            } else if lex == Parameters::LocalIdentifier {
            } else if wants {
                if lex == Parameters::PathDelimiter {
                    lemma_components_well_formed(file, line, toks, i + 1, acc, false);
                }
            } else if lex == Parameters::PathDelimiter {
            } else {
                let c = Component(spec_component_type(&lex), span, one_line(line));
                let next = PathView { components: acc.components.push(c), ..acc };
                assert forall|k: int| 0 < k < next.components.len() implies (
                #[trigger] next.components[k]).0 == ComponentType::Identifier
                    || next.components[k].0 == ComponentType::ArrayAccess by {
                    if k < acc.components.len() {
                        assert(next.components[k] == acc.components[k]);
                    }
                }
                assert(next.components[0] == acc.components[0]);
                if acc.parents > 0 {
                    assert forall|k: int| 0 <= k < next.components.len() implies (
                    #[trigger] next.components[k]).0 != ComponentType::LocalIdentifier by {
                        if k < acc.components.len() {
                            assert(next.components[k] == acc.components[k]);
                        }
                    }
                }
                lemma_components_well_formed(file, line, toks, i + 1, next, true);
            }
        },
    }
}

/// The run of `../` ends at a token that is no `../`.
pub proof fn lemma_parents_end_stops(toks: Seq<Token>, i: int)
    ensures
        !(param_at(toks, parents_end(toks, i)) matches Some((Parameters::ParentRef, _))),
    decreases toks.len() - i,
{
    reveal_with_fuel(parents_end, 2);
    match param_at(toks, i) {
        Some((Parameters::ParentRef, _)) => {
            lemma_parents_end_stops(toks, i + 1);
        },
        _ => {},
    }
}

/// Every path that is read from tokens is well formed, and counts the
/// `../` that it starts with.
pub proof fn lemma_path_well_formed(
    file: Seq<char>,
    line: usize,
    src: Seq<u8>,
    toks: Seq<Token>,
    i: int,
)
    requires
        0 <= i,
    ensures
        path_of(file, line, src, toks, i) matches Ok((p, _)) ==> well_formed(p) && p.parents
            == parents_end(toks, i) - i,
{
    let j = parents_end(toks, i);
    if 0 <= i <= toks.len() {
        lemma_parents_end_bounds(toks, i);
    } else {
        reveal_with_fuel(parents_end, 2);
    }
    match component_at(toks, j) {
        None => {},
        Some((lex, span)) => {
            let start = PathView {
                components: Seq::empty(),
                parents: (j - i) as nat,
                explicit: false,
                root: false,
                lines: one_line(line),
            };
            let explicit = lex == Parameters::ExplicitThisKeyword || lex
                == Parameters::ExplicitThisDotSlash;
            let local = lex == Parameters::LocalIdentifier;
            if lex != Parameters::PathDelimiter && !(local && j > i) && !(explicit && j > i) {
                let first = PathView {
                    components: seq![Component(spec_component_type(&lex), span, one_line(line))],
                    explicit,
                    root: local && span.of(src) == root_name(),
                    ..start
                };
                lemma_parents_end_stops(toks, i);
                assert(lex != Parameters::ParentRef);
                assert(well_formed(first));
                lemma_components_well_formed(
                    file,
                    line,
                    toks,
                    j + 1,
                    first,
                    lex != Parameters::ExplicitThisDotSlash,
                );
            }
        },
    }
}

} // verus!
