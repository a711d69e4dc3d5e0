//! Structured parse failures: the offending text, the named step, and an
//! optional cause.
use vstd::prelude::*;
use vstd::string::*;
use crate::number::IntErrorKind;

verus! {

/// A token was there but did not follow its grammar.
#[derive(Clone, Debug, PartialEq, Eq)]
pub struct ParseError {
    pub string: String,
    pub parsing_step: String,
    pub problem: Option<String>,
}

/// A group or line did not have the shape (number of lines or tokens) that
/// its parser requires.
#[derive(Clone, Debug, PartialEq, Eq)]
pub struct OutOfBoundsError {
    pub array: Vec<String>,
    pub index: u32,
    pub parsing_step: String,
}

/// Every failure of the parsers.
#[derive(Clone, Debug, PartialEq, Eq)]
pub enum Error {
    OutOfBounds(OutOfBoundsError),
    Parse(ParseError),
}

impl ParseError {
    /// A grammar violation without a stated cause.
    pub fn new(string: &str, parsing_step: &str) -> (r: ParseError)
        ensures
            r.string@ == string@,
            r.parsing_step@ == parsing_step@,
            r.problem is None,
    {
        ParseError { string: string.to_owned(), parsing_step: parsing_step.to_owned(), problem: None }
    }

    /// A grammar violation with its cause.
    pub fn new_with_problem(string: &str, parsing_step: &str, problem: &str) -> (r: ParseError)
        ensures
            r.string@ == string@,
            r.parsing_step@ == parsing_step@,
            r.problem matches Some(p) && p@ == problem@,
    {
        ParseError {
            string: string.to_owned(),
            parsing_step: parsing_step.to_owned(),
            problem: Some(problem.to_owned()),
        }
    }

    /// The error for a number that did not parse, with the reason as its
    /// cause.
    pub fn from_intparse_error(string: String, parsing_step: String, error: IntErrorKind) -> (r:
        ParseError)
        ensures
            r.string == string,
            r.parsing_step == parsing_step,
            r.problem matches Some(p) && p@ == error.spec_message(),
    {
        ParseError { string, parsing_step, problem: Some(error.message()) }
    }
}

impl OutOfBoundsError {
    pub fn new(array: Vec<String>, index: u32, parsing_step: &str) -> (r: OutOfBoundsError)
        ensures
            r.array == array,
            r.index == index,
            r.parsing_step@ == parsing_step@,
    {
        OutOfBoundsError { array, index, parsing_step: parsing_step.to_owned() }
    }
}

impl From<ParseError> for Error {
    fn from(value: ParseError) -> (r: Error) {
        Error::Parse(value)
    }
}

impl vstd::std_specs::convert::FromSpecImpl<ParseError> for Error {
    open spec fn obeys_from_spec() -> bool {
        true
    }

    open spec fn from_spec(v: ParseError) -> Error {
        Error::Parse(v)
    }
}

impl From<OutOfBoundsError> for Error {
    fn from(value: OutOfBoundsError) -> (r: Error) {
        Error::OutOfBounds(value)
    }
}

impl vstd::std_specs::convert::FromSpecImpl<OutOfBoundsError> for Error {
    open spec fn obeys_from_spec() -> bool {
        true
    }

    open spec fn from_spec(v: OutOfBoundsError) -> Error {
        Error::OutOfBounds(v)
    }
}

/// What a failure holds, over views: the offending text (or lines), the
/// named step, and the cause or the index where the shape broke.
pub enum Failure {
    Parse { string: Seq<char>, step: Seq<char>, problem: Option<Seq<char>> },
    OutOfBounds { array: Seq<Seq<char>>, index: int, step: Seq<char> },
}

pub open spec fn parse_failure(string: Seq<char>, step: Seq<char>) -> Failure {
    Failure::Parse { string, step, problem: None }
}

pub open spec fn parse_failure_with(string: Seq<char>, step: Seq<char>, problem: Seq<char>) -> Failure {
    Failure::Parse { string, step, problem: Some(problem) }
}

pub open spec fn bounds_failure(array: Seq<Seq<char>>, index: int, step: Seq<char>) -> Failure {
    Failure::OutOfBounds { array, index, step }
}

pub open spec fn opt_view(o: Option<String>) -> Option<Seq<char>> {
    match o {
        Some(s) => Some(s@),
        None => None,
    }
}

impl ParseError {
    pub open spec fn failure(self) -> Failure {
        Failure::Parse { string: self.string@, step: self.parsing_step@, problem: opt_view(self.problem) }
    }
}

impl Error {
    pub open spec fn failure(self) -> Failure {
        match self {
            Error::Parse(p) => p.failure(),
            Error::OutOfBounds(o) => Failure::OutOfBounds {
                array: crate::text::views(o.array@),
                index: o.index as int,
                step: o.parsing_step@,
            },
        }
    }
}

/// The outcome of a parser whose value needs no view.
pub open spec fn outcome<T>(r: Result<T, Error>) -> Result<T, Failure> {
    match r {
        Ok(v) => Ok(v),
        Err(e) => Err(e.failure()),
    }
}

/// The outcome of a parser, its value seen through `f`.
pub open spec fn outcome_by<T, V>(r: Result<T, Error>, f: spec_fn(T) -> V) -> Result<V, Failure> {
    match r {
        Ok(v) => Ok(f(v)),
        Err(e) => Err(e.failure()),
    }
}

/// A lookup in a closed vocabulary: the entry, or a grammar violation on
/// the word at `step`.
pub open spec fn lexicon_outcome<T>(found: Option<T>, w: Seq<char>, step: Seq<char>) -> Result<T, Failure> {
    match found {
        Some(v) => Ok(v),
        None => Err(parse_failure(w, step)),
    }
}

/// Each part parsed by `f`, in order; the first failure is the outcome.
pub open spec fn collect_all<T>(parts: Seq<Seq<char>>, f: spec_fn(Seq<char>) -> Result<T, Failure>) -> Result<Seq<T>, Failure>
    decreases parts.len(),
{
    if parts.len() == 0 {
        Ok(Seq::empty())
    } else {
        match collect_all(parts.drop_last(), f) {
            Err(e) => Err(e),
            Ok(p) => match f(parts.last()) {
                Err(e) => Err(e),
                Ok(v) => Ok(p.push(v)),
            },
        }
    }
}

/// A failure on the first `n` parts is the failure on all of them.
pub proof fn lemma_collect_err<T>(parts: Seq<Seq<char>>, f: spec_fn(Seq<char>) -> Result<T, Failure>, n: nat)
    requires
        n <= parts.len(),
        collect_all(parts.take(n as int), f) is Err,
    ensures
        collect_all(parts, f) == collect_all(parts.take(n as int), f),
    decreases parts.len() - n,
{
    if n < parts.len() {
        assert(parts.take(n + 1 as int).drop_last() =~= parts.take(n as int));
        lemma_collect_err(parts, f, n + 1);
    } else {
        assert(parts.take(n as int) =~= parts);
    }
}

/// One more part parsed.
pub proof fn lemma_collect_step<T>(parts: Seq<Seq<char>>, f: spec_fn(Seq<char>) -> Result<T, Failure>, i: nat)
    requires
        i < parts.len(),
    ensures
        collect_all(parts.take(i + 1 as int), f) == match collect_all(parts.take(i as int), f) {
            Err(e) => Err(e),
            Ok(p) => match f(parts[i as int]) {
                Err(e) => Err(e),
                Ok(v) => Ok(p.push(v)),
            },
        },
{
    assert(parts.take(i + 1 as int).drop_last() =~= parts.take(i as int));
}

/// The outcome of a parser that fails with a bare `ParseError`.
pub open spec fn parse_outcome<T>(r: Result<T, ParseError>) -> Result<T, Failure> {
    match r {
        Ok(v) => Ok(v),
        Err(e) => Err(e.failure()),
    }
}

} // verus!
