//! Parsers of log lines, built from small combinators.
//!
//! Every parser reads a text from a position and either fails with a
//! [ParsingError] or gives back where it stopped and what it read. Its
//! behaviour is stated by `spec_parse` over the characters of the text.
use vstd::prelude::*;
use crate::error::ParsingError;
use crate::text::Input;

pub mod combinators;
pub mod grammar;
pub mod locality;
pub mod quoting;
pub mod stdp;

verus! {

/// The outcome of parsing, as the specification states it: the position where
/// the parser stopped and the value it read, or the error.
pub type SpecResult<V> = Result<(int, V), ParsingError>;

/// The run of a parser agrees with its specification.
pub open spec fn agrees<D: DeepView>(
    spec: SpecResult<D::V>,
    res: Result<(usize, D), ParsingError>,
) -> bool {
    match res {
        Ok((e, d)) => spec matches Ok((e2, v)) && e2 == e && v == d.deep_view(),
        Err(err) => spec matches Err(err2) && err2 == err,
    }
}

/// A parser: reads a value from the text at a position and tells where it stopped.
pub trait Parser<'a> {
    type Dest: DeepView;

    /// What parsing `s` from `pos` gives.
    spec fn spec_parse(&self, s: Seq<char>, pos: int) -> SpecResult<<Self::Dest as DeepView>::V>;

    /// Parses the text of `input` from the character position `pos`.
    fn parse_at(&self, input: &Input<'a>, pos: usize) -> (res: Result<(usize, Self::Dest), ParsingError>)
        requires
            input.wf(),
            pos <= input.chars@.len(),
        ensures
            agrees(self.spec_parse(input.chars@, pos as int), res),
            res matches Ok((e, _)) ==> pos <= e <= input.chars@.len(),
    ;

    /// Parses `input` from its start and gives back the rest of it with the value read.
    fn parse(&self, input: &'a str) -> (res: Result<(&'a str, Self::Dest), ParsingError>)
        ensures
            match self.spec_parse(input@, 0) {
                Ok((e, v)) => res matches Ok((rest, d)) && 0 <= e <= input@.len() && rest@
                    == input@.skip(e) && d.deep_view() == v,
                Err(err) => res == Err::<(&'a str, Self::Dest), ParsingError>(err),
            },
    {
        let inp = Input::new(input);
        match self.parse_at(&inp, 0) {
            Ok((e, d)) => {
                let rest = inp.slice(e, inp.chars.len());
                Ok((rest, d))
            },
            Err(err) => Err(err),
        }
    }
}

/// A conversion of parsed values, with its specification.
pub trait Mapping<In: DeepView> {
    type Out: DeepView;

    spec fn spec_apply(&self, v: In::V) -> <Self::Out as DeepView>::V;

    fn apply(&self, v: In) -> (o: Self::Out)
        ensures
            o.deep_view() == self.spec_apply(v.deep_view()),
    ;
}

/// A check on parsed values: `None` where a value is accepted, else the error.
pub trait Validation<D: DeepView> {
    spec fn spec_check(&self, v: D::V) -> Option<ParsingError>;

    fn check(&self, v: &D) -> (r: Option<ParsingError>)
        ensures
            r == self.spec_check(v.deep_view()),
    ;
}

/// A type with a parser of its own (a distant relative of `serde::Deserialize`).
pub trait Parsable<'a>: Sized + DeepView {
    type Parser: Parser<'a, Dest = Self>;

    /// The parser that [Parsable::parser] builds.
    spec fn spec_parser() -> Self::Parser;

    fn parser() -> (p: Self::Parser)
        ensures
            p == Self::spec_parser(),
    ;
}

/// Parses a `T` from the start of `input`.
pub fn just_parse<'a, T: Parsable<'a>>(input: &'a str) -> (res: Result<(&'a str, T), ParsingError>)
    ensures
        match T::spec_parser().spec_parse(input@, 0) {
            Ok((e, v)) => res matches Ok((rest, d)) && 0 <= e <= input@.len() && rest@ == input@.skip(
                e,
            ) && d.deep_view() == v,
            Err(err) => res == Err::<(&'a str, T), ParsingError>(err),
        },
{
    T::parser().parse(input)
}

} // verus!
