//! Combinators: parsers built from other parsers.
use vstd::prelude::*;
use crate::error::ParsingError;
use crate::parse::quoting::{QuotedTag, Tag, quoted_tag, tag};
use crate::parse::{Mapping, Parser, SpecResult, Validation};
use crate::text::{Input, skip_ws};

verus! {

/// Skips whitespace before and after the inner parser.
#[derive(Debug, Clone, Copy)]
pub struct StripWhitespace<T> {
    pub parser: T,
}

impl<'a, T: Parser<'a>> Parser<'a> for StripWhitespace<T> {
    type Dest = T::Dest;

    open spec fn spec_parse(&self, s: Seq<char>, pos: int) -> SpecResult<<T::Dest as DeepView>::V> {
        match self.parser.spec_parse(s, skip_ws(s, pos)) {
            Ok((e, v)) => Ok((skip_ws(s, e), v)),
            Err(err) => Err(err),
        }
    }

    fn parse_at(&self, input: &Input<'a>, pos: usize) -> (res: Result<(usize, T::Dest), ParsingError>) {
        let p = input.skip_ws(pos);
        match self.parser.parse_at(input, p) {
            Ok((e, v)) => Ok((input.skip_ws(e), v)),
            Err(err) => Err(err),
        }
    }
}

/// Constructor of [StripWhitespace].
pub fn strip_whitespace<T>(parser: T) -> (r: StripWhitespace<T>)
    ensures
        r == (StripWhitespace { parser }),
{
    StripWhitespace { parser }
}

/// Reads a prefix, the value, then a suffix; gives the value (like `nom`'s `delimited`).
#[derive(Debug, Clone, Copy)]
pub struct Delimited<Prefix, T, Suffix> {
    pub prefix_to_ignore: Prefix,
    pub dest_parser: T,
    pub suffix_to_ignore: Suffix,
}

impl<'a, Prefix: Parser<'a>, T: Parser<'a>, Suffix: Parser<'a>> Parser<'a> for Delimited<
    Prefix,
    T,
    Suffix,
> {
    type Dest = T::Dest;

    open spec fn spec_parse(&self, s: Seq<char>, pos: int) -> SpecResult<<T::Dest as DeepView>::V> {
        match self.prefix_to_ignore.spec_parse(s, pos) {
            Ok((p1, _)) => match self.dest_parser.spec_parse(s, p1) {
                Ok((p2, v)) => match self.suffix_to_ignore.spec_parse(s, p2) {
                    Ok((p3, _)) => Ok((p3, v)),
                    Err(err) => Err(err),
                },
                Err(err) => Err(err),
            },
            Err(err) => Err(err),
        }
    }

    fn parse_at(&self, input: &Input<'a>, pos: usize) -> (res: Result<(usize, T::Dest), ParsingError>) {
        let p1 = match self.prefix_to_ignore.parse_at(input, pos) {
            Ok((p1, _)) => p1,
            Err(err) => return Err(err),
        };
        let (p2, v) = match self.dest_parser.parse_at(input, p1) {
            Ok(r) => r,
            Err(err) => return Err(err),
        };
        match self.suffix_to_ignore.parse_at(input, p2) {
            Ok((p3, _)) => Ok((p3, v)),
            Err(err) => Err(err),
        }
    }
}

/// Constructor of [Delimited].
pub fn delimited<Prefix, T, Suffix>(
    prefix_to_ignore: Prefix,
    dest_parser: T,
    suffix_to_ignore: Suffix,
) -> (r: Delimited<Prefix, T, Suffix>)
    ensures
        r == (Delimited { prefix_to_ignore, dest_parser, suffix_to_ignore }),
{
    Delimited { prefix_to_ignore, dest_parser, suffix_to_ignore }
}

/// Reads with the inner parser and converts the value.
#[derive(Debug, Clone, Copy)]
pub struct Mapped<T, M> {
    pub parser: T,
    pub map: M,
}

impl<'a, T: Parser<'a>, M: Mapping<T::Dest>> Parser<'a> for Mapped<T, M> {
    type Dest = M::Out;

    open spec fn spec_parse(&self, s: Seq<char>, pos: int) -> SpecResult<<M::Out as DeepView>::V> {
        match self.parser.spec_parse(s, pos) {
            Ok((e, v)) => Ok((e, self.map.spec_apply(v))),
            Err(err) => Err(err),
        }
    }

    fn parse_at(&self, input: &Input<'a>, pos: usize) -> (res: Result<(usize, M::Out), ParsingError>) {
        match self.parser.parse_at(input, pos) {
            Ok((e, v)) => Ok((e, self.map.apply(v))),
            Err(err) => Err(err),
        }
    }
}

/// Constructor of [Mapped].
pub fn map<T, M>(parser: T, mapping: M) -> (r: Mapped<T, M>)
    ensures
        r == (Mapped { parser, map: mapping }),
{
    Mapped { parser, map: mapping }
}

/// Reads with the inner parser, then refuses a value that the check refuses,
/// with the check's error.
#[derive(Debug, Clone, Copy)]
pub struct Refined<T, C> {
    pub parser: T,
    pub check: C,
}

impl<'a, T: Parser<'a>, C: Validation<T::Dest>> Parser<'a> for Refined<T, C> {
    type Dest = T::Dest;

    open spec fn spec_parse(&self, s: Seq<char>, pos: int) -> SpecResult<<T::Dest as DeepView>::V> {
        match self.parser.spec_parse(s, pos) {
            Ok((e, v)) => match self.check.spec_check(v) {
                Some(err) => Err(err),
                None => Ok((e, v)),
            },
            Err(err) => Err(err),
        }
    }

    fn parse_at(&self, input: &Input<'a>, pos: usize) -> (res: Result<(usize, T::Dest), ParsingError>) {
        match self.parser.parse_at(input, pos) {
            Ok((e, v)) => match self.check.check(&v) {
                Some(err) => Err(err),
                None => Ok((e, v)),
            },
            Err(err) => Err(err),
        }
    }
}

/// Constructor of [Refined].
pub fn refined<T, C>(parser: T, check: C) -> (r: Refined<T, C>)
    ensures
        r == (Refined { parser, check }),
{
    Refined { parser, check }
}

/// Reads a prefix, then the value (like `nom`'s `preceded`).
#[derive(Debug, Clone, Copy)]
pub struct Preceded<Prefix, T> {
    pub prefix_to_ignore: Prefix,
    pub dest_parser: T,
}

impl<'a, Prefix: Parser<'a>, T: Parser<'a>> Parser<'a> for Preceded<Prefix, T> {
    type Dest = T::Dest;

    open spec fn spec_parse(&self, s: Seq<char>, pos: int) -> SpecResult<<T::Dest as DeepView>::V> {
        match self.prefix_to_ignore.spec_parse(s, pos) {
            Ok((p1, _)) => self.dest_parser.spec_parse(s, p1),
            Err(err) => Err(err),
        }
    }

    fn parse_at(&self, input: &Input<'a>, pos: usize) -> (res: Result<(usize, T::Dest), ParsingError>) {
        match self.prefix_to_ignore.parse_at(input, pos) {
            Ok((p1, _)) => self.dest_parser.parse_at(input, p1),
            Err(err) => Err(err),
        }
    }
}

/// Constructor of [Preceded].
pub fn preceded<Prefix, T>(prefix_to_ignore: Prefix, dest_parser: T) -> (r: Preceded<Prefix, T>)
    ensures
        r == (Preceded { prefix_to_ignore, dest_parser }),
{
    Preceded { prefix_to_ignore, dest_parser }
}

/// Reads with each inner parser in turn; gives all their values.
#[derive(Debug, Clone, Copy)]
pub struct All<T> {
    pub parser: T,
}

impl<'a, A0: Parser<'a>, A1: Parser<'a>> Parser<'a> for All<(A0, A1)> {
    type Dest = (A0::Dest, A1::Dest);

    open spec fn spec_parse(&self, s: Seq<char>, pos: int) -> SpecResult<
        (<A0::Dest as DeepView>::V, <A1::Dest as DeepView>::V),
    > {
        match self.parser.0.spec_parse(s, pos) {
            Ok((p1, v0)) => match self.parser.1.spec_parse(s, p1) {
                Ok((p2, v1)) => Ok((p2, (v0, v1))),
                Err(err) => Err(err),
            },
            Err(err) => Err(err),
        }
    }

    fn parse_at(&self, input: &Input<'a>, pos: usize) -> (res: Result<(usize, (A0::Dest, A1::Dest)), ParsingError>) {
        let (p1, v0) = match self.parser.0.parse_at(input, pos) {
            Ok(r) => r,
            Err(err) => return Err(err),
        };
        match self.parser.1.parse_at(input, p1) {
            Ok((p2, v1)) => {
                let r = (v0, v1);
                assert(r.deep_view() == (r.0.deep_view(), r.1.deep_view()));
                Ok((p2, r))
            },
            Err(err) => Err(err),
        }
    }
}

/// Constructor of [All] for two parsers.
pub fn all2<A0, A1>(a0: A0, a1: A1) -> (r: All<(A0, A1)>)
    ensures
        r == (All { parser: (a0, a1) }),
{
    All { parser: (a0, a1) }
}

impl<'a, A0: Parser<'a>, A1: Parser<'a>, A2: Parser<'a>> Parser<'a> for All<(A0, A1, A2)> {
    type Dest = (A0::Dest, A1::Dest, A2::Dest);

    open spec fn spec_parse(&self, s: Seq<char>, pos: int) -> SpecResult<
        (<A0::Dest as DeepView>::V, <A1::Dest as DeepView>::V, <A2::Dest as DeepView>::V),
    > {
        match self.parser.0.spec_parse(s, pos) {
            Ok((p1, v0)) => match self.parser.1.spec_parse(s, p1) {
                Ok((p2, v1)) => match self.parser.2.spec_parse(s, p2) {
                    Ok((p3, v2)) => Ok((p3, (v0, v1, v2))),
                    Err(err) => Err(err),
                },
                Err(err) => Err(err),
            },
            Err(err) => Err(err),
        }
    }

    fn parse_at(&self, input: &Input<'a>, pos: usize) -> (res: Result<
        (usize, (A0::Dest, A1::Dest, A2::Dest)),
        ParsingError,
    >) {
        let (p1, v0) = match self.parser.0.parse_at(input, pos) {
            Ok(r) => r,
            Err(err) => return Err(err),
        };
        let (p2, v1) = match self.parser.1.parse_at(input, p1) {
            Ok(r) => r,
            Err(err) => return Err(err),
        };
        match self.parser.2.parse_at(input, p2) {
            Ok((p3, v2)) => {
                let r = (v0, v1, v2);
                assert(r.deep_view() == (r.0.deep_view(), r.1.deep_view(), r.2.deep_view()));
                Ok((p3, r))
            },
            Err(err) => Err(err),
        }
    }
}

/// Constructor of [All] for three parsers.
pub fn all3<A0, A1, A2>(a0: A0, a1: A1, a2: A2) -> (r: All<(A0, A1, A2)>)
    ensures
        r == (All { parser: (a0, a1, a2) }),
{
    All { parser: (a0, a1, a2) }
}

impl<'a, A0: Parser<'a>, A1: Parser<'a>, A2: Parser<'a>, A3: Parser<'a>> Parser<'a> for All<
    (A0, A1, A2, A3),
> {
    type Dest = (A0::Dest, A1::Dest, A2::Dest, A3::Dest);

    open spec fn spec_parse(&self, s: Seq<char>, pos: int) -> SpecResult<
        (
            <A0::Dest as DeepView>::V,
            <A1::Dest as DeepView>::V,
            <A2::Dest as DeepView>::V,
            <A3::Dest as DeepView>::V,
        ),
    > {
        match self.parser.0.spec_parse(s, pos) {
            Ok((p1, v0)) => match self.parser.1.spec_parse(s, p1) {
                Ok((p2, v1)) => match self.parser.2.spec_parse(s, p2) {
                    Ok((p3, v2)) => match self.parser.3.spec_parse(s, p3) {
                        Ok((p4, v3)) => Ok((p4, (v0, v1, v2, v3))),
                        Err(err) => Err(err),
                    },
                    Err(err) => Err(err),
                },
                Err(err) => Err(err),
            },
            Err(err) => Err(err),
        }
    }

    fn parse_at(&self, input: &Input<'a>, pos: usize) -> (res: Result<
        (usize, (A0::Dest, A1::Dest, A2::Dest, A3::Dest)),
        ParsingError,
    >) {
        let (p1, v0) = match self.parser.0.parse_at(input, pos) {
            Ok(r) => r,
            Err(err) => return Err(err),
        };
        let (p2, v1) = match self.parser.1.parse_at(input, p1) {
            Ok(r) => r,
            Err(err) => return Err(err),
        };
        let (p3, v2) = match self.parser.2.parse_at(input, p2) {
            Ok(r) => r,
            Err(err) => return Err(err),
        };
        match self.parser.3.parse_at(input, p3) {
            Ok((p4, v3)) => {
                let r = (v0, v1, v2, v3);
                assert(r.deep_view() == (
                    r.0.deep_view(),
                    r.1.deep_view(),
                    r.2.deep_view(),
                    r.3.deep_view(),
                ));
                Ok((p4, r))
            },
            Err(err) => Err(err),
        }
    }
}

/// Constructor of [All] for four parsers.
pub fn all4<A0, A1, A2, A3>(a0: A0, a1: A1, a2: A2, a3: A3) -> (r: All<(A0, A1, A2, A3)>)
    ensures
        r == (All { parser: (a0, a1, a2, a3) }),
{
    All { parser: (a0, a1, a2, a3) }
}


/// The parser inside [KeyValue].
pub type KeyValueParser<T> = Delimited<
    All<(StripWhitespace<QuotedTag>, StripWhitespace<Tag>)>,
    StripWhitespace<T>,
    StripWhitespace<Tag>,
>;

/// Reads the value of a pair `"key": value,`. The comma is always needed, even
/// after the last pair.
#[derive(Debug, Clone, Copy)]
pub struct KeyValue<T> {
    pub parser: KeyValueParser<T>,
}

impl<'a, T: Parser<'a>> Parser<'a> for KeyValue<T> {
    type Dest = T::Dest;

    open spec fn spec_parse(&self, s: Seq<char>, pos: int) -> SpecResult<<T::Dest as DeepView>::V> {
        self.parser.spec_parse(s, pos)
    }

    fn parse_at(&self, input: &Input<'a>, pos: usize) -> (res: Result<(usize, T::Dest), ParsingError>) {
        self.parser.parse_at(input, pos)
    }
}

/// The parser that [key_value] builds.
pub open spec fn spec_key_value<T>(key: &'static str, value_parser: T) -> KeyValue<T> {
    KeyValue {
        parser: Delimited {
            prefix_to_ignore: All {
                parser: (
                    StripWhitespace { parser: QuotedTag(Tag(key)) },
                    StripWhitespace { parser: Tag(":") },
                ),
            },
            dest_parser: StripWhitespace { parser: value_parser },
            suffix_to_ignore: StripWhitespace { parser: Tag(",") },
        },
    }
}

/// Constructor of [KeyValue].
pub fn key_value<T>(key: &'static str, value_parser: T) -> (r: KeyValue<T>)
    ensures
        r == spec_key_value(key, value_parser),
{
    KeyValue {
        parser: delimited(
            all2(strip_whitespace(quoted_tag(key)), strip_whitespace(tag(":"))),
            strip_whitespace(value_parser),
            strip_whitespace(tag(",")),
        ),
    }
}

/// Reads with all inner parsers, one after the other in any order; gives their values
/// in the order the parsers were given (like `nom`'s `permutation`). The first parser
/// that succeeds at a place is taken.
///
/// What it reads, said directly: it succeeds only by reading its parts one after the
/// other in some order ([lemma_permutation2_reads_some_order],
/// [lemma_permutation3_reads_some_order]), and parts that never both read at the same
/// place are read in every order ([lemma_permutation2_any_order],
/// [lemma_permutation3_any_order]).
#[derive(Debug, Clone, Copy)]
pub struct Permutation<T> {
    pub parsers: T,
}

impl<'a, A0: Parser<'a>, A1: Parser<'a>> Parser<'a> for Permutation<(A0, A1)> {
    type Dest = (A0::Dest, A1::Dest);

    open spec fn spec_parse(&self, s: Seq<char>, pos: int) -> SpecResult<
        (<A0::Dest as DeepView>::V, <A1::Dest as DeepView>::V),
    > {
        match self.parsers.0.spec_parse(s, pos) {
            Ok((p1, v0)) => match self.parsers.1.spec_parse(s, p1) {
                Ok((p2, v1)) => Ok((p2, (v0, v1))),
                Err(err) => Err(err),
            },
            Err(_) => match self.parsers.1.spec_parse(s, pos) {
                Ok((p1, v1)) => match self.parsers.0.spec_parse(s, p1) {
                    Ok((p2, v0)) => Ok((p2, (v0, v1))),
                    Err(err) => Err(err),
                },
                Err(err) => Err(err),
            },
        }
    }

    fn parse_at(&self, input: &Input<'a>, pos: usize) -> (res: Result<(usize, (A0::Dest, A1::Dest)), ParsingError>) {
        match self.parsers.0.parse_at(input, pos) {
            Ok((p1, v0)) => match self.parsers.1.parse_at(input, p1) {
                Ok((p2, v1)) => Ok((p2, pair(v0, v1))),
                Err(err) => Err(err),
            },
            Err(_) => match self.parsers.1.parse_at(input, pos) {
                Ok((p1, v1)) => match self.parsers.0.parse_at(input, p1) {
                    Ok((p2, v0)) => Ok((p2, pair(v0, v1))),
                    Err(err) => Err(err),
                },
                Err(err) => Err(err),
            },
        }
    }
}

fn pair<A: DeepView, B: DeepView>(a: A, b: B) -> (r: (A, B))
    ensures
        r == (a, b),
        r.deep_view() == (a.deep_view(), b.deep_view()),
{
    (a, b)
}

fn triple<A: DeepView, B: DeepView, C: DeepView>(a: A, b: B, c: C) -> (r: (A, B, C))
    ensures
        r == (a, b, c),
        r.deep_view() == (a.deep_view(), b.deep_view(), c.deep_view()),
{
    (a, b, c)
}

/// Constructor of [Permutation] for two parsers.
pub fn permutation2<A0, A1>(a0: A0, a1: A1) -> (r: Permutation<(A0, A1)>)
    ensures
        r == (Permutation { parsers: (a0, a1) }),
{
    Permutation { parsers: (a0, a1) }
}

impl<'a, A0: Parser<'a>, A1: Parser<'a>, A2: Parser<'a>> Parser<'a> for Permutation<
    (A0, A1, A2),
> {
    type Dest = (A0::Dest, A1::Dest, A2::Dest);

    open spec fn spec_parse(&self, s: Seq<char>, pos: int) -> SpecResult<
        (<A0::Dest as DeepView>::V, <A1::Dest as DeepView>::V, <A2::Dest as DeepView>::V),
    > {
        let (p0, p1, p2) = (&self.parsers.0, &self.parsers.1, &self.parsers.2);
        match p0.spec_parse(s, pos) {
            Ok((r, v0)) => match p1.spec_parse(s, r) {
                Ok((r2, v1)) => match p2.spec_parse(s, r2) {
                    Ok((r3, v2)) => Ok((r3, (v0, v1, v2))),
                    Err(err) => Err(err),
                },
                Err(_) => match p2.spec_parse(s, r) {
                    Ok((r2, v2)) => match p1.spec_parse(s, r2) {
                        Ok((r3, v1)) => Ok((r3, (v0, v1, v2))),
                        Err(err) => Err(err),
                    },
                    Err(err) => Err(err),
                },
            },
            Err(_) => match p1.spec_parse(s, pos) {
                Ok((r, v1)) => match p0.spec_parse(s, r) {
                    Ok((r2, v0)) => match p2.spec_parse(s, r2) {
                        Ok((r3, v2)) => Ok((r3, (v0, v1, v2))),
                        Err(err) => Err(err),
                    },
                    Err(_) => match p2.spec_parse(s, r) {
                        Ok((r2, v2)) => match p0.spec_parse(s, r2) {
                            Ok((r3, v0)) => Ok((r3, (v0, v1, v2))),
                            Err(err) => Err(err),
                        },
                        Err(err) => Err(err),
                    },
                },
                Err(_) => match p2.spec_parse(s, pos) {
                    Ok((r, v2)) => match p0.spec_parse(s, r) {
                        Ok((r2, v0)) => match p1.spec_parse(s, r2) {
                            Ok((r3, v1)) => Ok((r3, (v0, v1, v2))),
                            Err(err) => Err(err),
                        },
                        Err(_) => match p1.spec_parse(s, r) {
                            Ok((r2, v1)) => match p0.spec_parse(s, r2) {
                                Ok((r3, v0)) => Ok((r3, (v0, v1, v2))),
                                Err(err) => Err(err),
                            },
                            Err(err) => Err(err),
                        },
                    },
                    Err(err) => Err(err),
                },
            },
        }
    }

    fn parse_at(&self, input: &Input<'a>, pos: usize) -> (res: Result<
        (usize, (A0::Dest, A1::Dest, A2::Dest)),
        ParsingError,
    >) {
        let (p0, p1, p2) = (&self.parsers.0, &self.parsers.1, &self.parsers.2);
        match p0.parse_at(input, pos) {
            Ok((r, v0)) => match p1.parse_at(input, r) {
                Ok((r2, v1)) => match p2.parse_at(input, r2) {
                    Ok((r3, v2)) => Ok((r3, triple(v0, v1, v2))),
                    Err(err) => Err(err),
                },
                Err(_) => match p2.parse_at(input, r) {
                    Ok((r2, v2)) => match p1.parse_at(input, r2) {
                        Ok((r3, v1)) => Ok((r3, triple(v0, v1, v2))),
                        Err(err) => Err(err),
                    },
                    Err(err) => Err(err),
                },
            },
            Err(_) => match p1.parse_at(input, pos) {
                Ok((r, v1)) => match p0.parse_at(input, r) {
                    Ok((r2, v0)) => match p2.parse_at(input, r2) {
                        Ok((r3, v2)) => Ok((r3, triple(v0, v1, v2))),
                        Err(err) => Err(err),
                    },
                    Err(_) => match p2.parse_at(input, r) {
                        Ok((r2, v2)) => match p0.parse_at(input, r2) {
                            Ok((r3, v0)) => Ok((r3, triple(v0, v1, v2))),
                            Err(err) => Err(err),
                        },
                        Err(err) => Err(err),
                    },
                },
                Err(_) => match p2.parse_at(input, pos) {
                    Ok((r, v2)) => match p0.parse_at(input, r) {
                        Ok((r2, v0)) => match p1.parse_at(input, r2) {
                            Ok((r3, v1)) => Ok((r3, triple(v0, v1, v2))),
                            Err(err) => Err(err),
                        },
                        Err(_) => match p1.parse_at(input, r) {
                            Ok((r2, v1)) => match p0.parse_at(input, r2) {
                                Ok((r3, v0)) => Ok((r3, triple(v0, v1, v2))),
                                Err(err) => Err(err),
                            },
                            Err(err) => Err(err),
                        },
                    },
                    Err(err) => Err(err),
                },
            },
        }
    }
}

/// Constructor of [Permutation] for three parsers.
pub fn permutation3<A0, A1, A2>(a0: A0, a1: A1, a2: A2) -> (r: Permutation<(A0, A1, A2)>)
    ensures
        r == (Permutation { parsers: (a0, a1, a2) }),
{
    Permutation { parsers: (a0, a1, a2) }
}

/// Reads a list `[item, item, ..., ]` of any length: every item is followed by a comma,
/// and whitespace may stand around brackets and commas.
#[derive(Debug, Clone, Copy)]
pub struct List<T> {
    pub parser: T,
}

/// Reads the items of a list from `pos` (after the opening bracket) up to the closing
/// bracket, adding them to `acc`.
pub open spec fn list_items<'a, T: Parser<'a>>(
    p: &T,
    s: Seq<char>,
    pos: int,
    acc: Seq<<T::Dest as DeepView>::V>,
) -> SpecResult<Seq<<T::Dest as DeepView>::V>>
    decreases s.len() - pos,
{
    if pos < 0 || pos >= s.len() {
        Err(ParsingError::ParseListError)
    } else if s[pos] == ']' {
        Ok((skip_ws(s, pos + 1), acc))
    } else {
        match p.spec_parse(s, pos) {
            Ok((e, v)) => {
                let q = skip_ws(s, e);
                if 0 <= q < s.len() && s[q] == ',' {
                    let r = skip_ws(s, q + 1);
                    if pos < r <= s.len() {
                        list_items(p, s, r, acc.push(v))
                    } else {
                        Err(ParsingError::ParseListError)
                    }
                } else {
                    Err(ParsingError::ParseListError)
                }
            },
            Err(err) => Err(err),
        }
    }
}

impl<'a, T: Parser<'a>> Parser<'a> for List<T> {
    type Dest = Vec<T::Dest>;

    open spec fn spec_parse(&self, s: Seq<char>, pos: int) -> SpecResult<
        Seq<<T::Dest as DeepView>::V>,
    > {
        let p = skip_ws(s, pos);
        if 0 <= p < s.len() && s[p] == '[' {
            list_items(&self.parser, s, skip_ws(s, p + 1), Seq::empty())
        } else {
            Err(ParsingError::ParseListError)
        }
    }

    fn parse_at(&self, input: &Input<'a>, pos: usize) -> (res: Result<(usize, Vec<T::Dest>), ParsingError>) {
        let n = input.chars.len();
        let ghost s = input.chars@;
        let p = input.skip_ws(pos);
        if p >= n || input.chars[p] != '[' {
            return Err(ParsingError::ParseListError);
        }
        let start = input.skip_ws(p + 1);
        let mut cur = start;
        let mut result: Vec<T::Dest> = Vec::new();
        assert(result.deep_view() =~= Seq::<<T::Dest as DeepView>::V>::empty());
        while cur < n
            invariant
                input.wf(),
                pos <= cur <= n,
                n == s.len(),
                s == input.chars@,
                list_items(&self.parser, s, start as int, Seq::empty()) == list_items(
                    &self.parser,
                    s,
                    cur as int,
                    result.deep_view(),
                ),
                self.spec_parse(s, pos as int) == list_items(
                    &self.parser,
                    s,
                    start as int,
                    Seq::empty(),
                ),
            decreases n - cur,
        {
            if input.chars[cur] == ']' {
                let e = input.skip_ws(cur + 1);
                return Ok((e, result));
            }
            match self.parser.parse_at(input, cur) {
                Ok((e, item)) => {
                    let q = input.skip_ws(e);
                    if q >= n || input.chars[q] != ',' {
                        return Err(ParsingError::ParseListError);
                    }
                    let r = input.skip_ws(q + 1);
                    let ghost before = result.deep_view();
                    result.push(item);
                    assert(result.deep_view() =~= before.push(item.deep_view()));
                    cur = r;
                },
                Err(err) => {
                    return Err(err);
                },
            }
        }
        Err(ParsingError::ParseListError)
    }
}

/// Constructor of [List].
pub fn list<T>(parser: T) -> (r: List<T>)
    ensures
        r == (List { parser }),
{
    List { parser }
}

/// Gives the result of the first inner parser that succeeds, or the error of the
/// last one (like `nom`'s `alt`).
#[derive(Debug, Clone, Copy)]
pub struct Alt<T> {
    pub parser: T,
}

impl<'a, A0, A1, Dest: DeepView> Parser<'a> for Alt<(A0, A1)> where
    A0: Parser<'a, Dest = Dest>,
    A1: Parser<'a, Dest = Dest>,
 {
    type Dest = Dest;

    open spec fn spec_parse(&self, s: Seq<char>, pos: int) -> SpecResult<Dest::V> {
        match self.parser.0.spec_parse(s, pos) {
            Ok(r) => Ok(r),
            Err(_) => self.parser.1.spec_parse(s, pos),
        }
    }

    fn parse_at(&self, input: &Input<'a>, pos: usize) -> (res: Result<(usize, Dest), ParsingError>) {
        if let Ok(ok) = self.parser.0.parse_at(input, pos) {
            return Ok(ok);
        }
        self.parser.1.parse_at(input, pos)
    }
}

/// Constructor of [Alt] for two parsers.
pub fn alt2<A0, A1>(a0: A0, a1: A1) -> (r: Alt<(A0, A1)>)
    ensures
        r == (Alt { parser: (a0, a1) }),
{
    Alt { parser: (a0, a1) }
}

impl<'a, A0, A1, A2, Dest: DeepView> Parser<'a> for Alt<(A0, A1, A2)> where
    A0: Parser<'a, Dest = Dest>,
    A1: Parser<'a, Dest = Dest>,
    A2: Parser<'a, Dest = Dest>,
 {
    type Dest = Dest;

    open spec fn spec_parse(&self, s: Seq<char>, pos: int) -> SpecResult<Dest::V> {
        match self.parser.0.spec_parse(s, pos) {
            Ok(r) => Ok(r),
            Err(_) => match self.parser.1.spec_parse(s, pos) {
                Ok(r) => Ok(r),
                Err(_) => self.parser.2.spec_parse(s, pos),
            },
        }
    }

    fn parse_at(&self, input: &Input<'a>, pos: usize) -> (res: Result<(usize, Dest), ParsingError>) {
        if let Ok(ok) = self.parser.0.parse_at(input, pos) {
            return Ok(ok);
        }
        if let Ok(ok) = self.parser.1.parse_at(input, pos) {
            return Ok(ok);
        }
        self.parser.2.parse_at(input, pos)
    }
}

/// Constructor of [Alt] for three parsers.
pub fn alt3<A0, A1, A2>(a0: A0, a1: A1, a2: A2) -> (r: Alt<(A0, A1, A2)>)
    ensures
        r == (Alt { parser: (a0, a1, a2) }),
{
    Alt { parser: (a0, a1, a2) }
}

impl<'a, A0, A1, A2, A3, Dest: DeepView> Parser<'a> for Alt<(A0, A1, A2, A3)> where
    A0: Parser<'a, Dest = Dest>,
    A1: Parser<'a, Dest = Dest>,
    A2: Parser<'a, Dest = Dest>,
    A3: Parser<'a, Dest = Dest>,
 {
    type Dest = Dest;

    open spec fn spec_parse(&self, s: Seq<char>, pos: int) -> SpecResult<Dest::V> {
        match self.parser.0.spec_parse(s, pos) {
            Ok(r) => Ok(r),
            Err(_) => match self.parser.1.spec_parse(s, pos) {
                Ok(r) => Ok(r),
                Err(_) => match self.parser.2.spec_parse(s, pos) {
                    Ok(r) => Ok(r),
                    Err(_) => self.parser.3.spec_parse(s, pos),
                },
            },
        }
    }

    fn parse_at(&self, input: &Input<'a>, pos: usize) -> (res: Result<(usize, Dest), ParsingError>) {
        if let Ok(ok) = self.parser.0.parse_at(input, pos) {
            return Ok(ok);
        }
        if let Ok(ok) = self.parser.1.parse_at(input, pos) {
            return Ok(ok);
        }
        if let Ok(ok) = self.parser.2.parse_at(input, pos) {
            return Ok(ok);
        }
        self.parser.3.parse_at(input, pos)
    }
}

/// Constructor of [Alt] for four parsers.
pub fn alt4<A0, A1, A2, A3>(a0: A0, a1: A1, a2: A2, a3: A3) -> (r: Alt<(A0, A1, A2, A3)>)
    ensures
        r == (Alt { parser: (a0, a1, a2, a3) }),
{
    Alt { parser: (a0, a1, a2, a3) }
}

impl<'a, A0, A1, A2, A3, A4, A5, A6, A7, Dest: DeepView> Parser<'a> for Alt<
    (A0, A1, A2, A3, A4, A5, A6, A7),
> where
    A0: Parser<'a, Dest = Dest>,
    A1: Parser<'a, Dest = Dest>,
    A2: Parser<'a, Dest = Dest>,
    A3: Parser<'a, Dest = Dest>,
    A4: Parser<'a, Dest = Dest>,
    A5: Parser<'a, Dest = Dest>,
    A6: Parser<'a, Dest = Dest>,
    A7: Parser<'a, Dest = Dest>,
 {
    type Dest = Dest;

    open spec fn spec_parse(&self, s: Seq<char>, pos: int) -> SpecResult<Dest::V> {
        match self.parser.0.spec_parse(s, pos) {
            Ok(r) => Ok(r),
            Err(_) => match self.parser.1.spec_parse(s, pos) {
                Ok(r) => Ok(r),
                Err(_) => match self.parser.2.spec_parse(s, pos) {
                    Ok(r) => Ok(r),
                    Err(_) => match self.parser.3.spec_parse(s, pos) {
                        Ok(r) => Ok(r),
                        Err(_) => match self.parser.4.spec_parse(s, pos) {
                            Ok(r) => Ok(r),
                            Err(_) => match self.parser.5.spec_parse(s, pos) {
                                Ok(r) => Ok(r),
                                Err(_) => match self.parser.6.spec_parse(s, pos) {
                                    Ok(r) => Ok(r),
                                    Err(_) => self.parser.7.spec_parse(s, pos),
                                },
                            },
                        },
                    },
                },
            },
        }
    }

    fn parse_at(&self, input: &Input<'a>, pos: usize) -> (res: Result<(usize, Dest), ParsingError>) {
        if let Ok(ok) = self.parser.0.parse_at(input, pos) {
            return Ok(ok);
        }
        if let Ok(ok) = self.parser.1.parse_at(input, pos) {
            return Ok(ok);
        }
        if let Ok(ok) = self.parser.2.parse_at(input, pos) {
            return Ok(ok);
        }
        if let Ok(ok) = self.parser.3.parse_at(input, pos) {
            return Ok(ok);
        }
        if let Ok(ok) = self.parser.4.parse_at(input, pos) {
            return Ok(ok);
        }
        if let Ok(ok) = self.parser.5.parse_at(input, pos) {
            return Ok(ok);
        }
        if let Ok(ok) = self.parser.6.parse_at(input, pos) {
            return Ok(ok);
        }
        self.parser.7.parse_at(input, pos)
    }
}

/// Constructor of [Alt] for eight parsers.
pub fn alt8<A0, A1, A2, A3, A4, A5, A6, A7>(
    a0: A0,
    a1: A1,
    a2: A2,
    a3: A3,
    a4: A4,
    a5: A5,
    a6: A6,
    a7: A7,
) -> (r: Alt<(A0, A1, A2, A3, A4, A5, A6, A7)>)
    ensures
        r == (Alt { parser: (a0, a1, a2, a3, a4, a5, a6, a7) }),
{
    Alt { parser: (a0, a1, a2, a3, a4, a5, a6, a7) }
}

/// Reads with the inner parser `count` times in a row (like `nom`'s `take`).
pub struct Take<T> {
    pub count: usize,
    pub parser: T,
}

/// Reads `n` items from `pos`, adding them to `acc`.
pub open spec fn take_items<'a, T: Parser<'a>>(
    p: &T,
    s: Seq<char>,
    pos: int,
    n: nat,
    acc: Seq<<T::Dest as DeepView>::V>,
) -> SpecResult<Seq<<T::Dest as DeepView>::V>>
    decreases n,
{
    if n == 0 {
        Ok((pos, acc))
    } else {
        match p.spec_parse(s, pos) {
            Ok((e, v)) => take_items(p, s, e, (n - 1) as nat, acc.push(v)),
            Err(err) => Err(err),
        }
    }
}

impl<'a, T: Parser<'a>> Parser<'a> for Take<T> {
    type Dest = Vec<T::Dest>;

    open spec fn spec_parse(&self, s: Seq<char>, pos: int) -> SpecResult<
        Seq<<T::Dest as DeepView>::V>,
    > {
        take_items(&self.parser, s, pos, self.count as nat, Seq::empty())
    }

    fn parse_at(&self, input: &Input<'a>, pos: usize) -> (res: Result<(usize, Vec<T::Dest>), ParsingError>) {
        let mut cur = pos;
        let mut result: Vec<T::Dest> = Vec::new();
        assert(result.deep_view() =~= Seq::<<T::Dest as DeepView>::V>::empty());
        let mut i: usize = 0;
        while i < self.count
            invariant
                input.wf(),
                i <= self.count,
                pos <= cur <= input.chars@.len(),
                self.spec_parse(input.chars@, pos as int) == take_items(
                    &self.parser,
                    input.chars@,
                    cur as int,
                    (self.count - i) as nat,
                    result.deep_view(),
                ),
            decreases self.count - i,
        {
            match self.parser.parse_at(input, cur) {
                Ok((e, item)) => {
                    let ghost before = result.deep_view();
                    result.push(item);
                    assert(result.deep_view() =~= before.push(item.deep_view()));
                    cur = e;
                },
                Err(err) => {
                    return Err(err);
                },
            }
            i = i + 1;
        }
        Ok((cur, result))
    }
}

/// Constructor of [Take].
pub fn take<T>(count: usize, parser: T) -> (r: Take<T>)
    ensures
        r == (Take { count, parser }),
{
    Take { count, parser }
}


// ----- Laws -----

/// Two parsers never both succeed at the same place.
pub open spec fn exclusive<'a, P: Parser<'a>, Q: Parser<'a>>(p: &P, q: &Q) -> bool {
    forall|s: Seq<char>, pos: int|
        #![trigger p.spec_parse(s, pos), q.spec_parse(s, pos)]
        !(p.spec_parse(s, pos) is Ok && q.spec_parse(s, pos) is Ok)
}

/// Pairs `"key": value,` with different keys are exclusive: the quoted key decides
/// which of them reads.
pub proof fn lemma_key_values_exclusive<'a, A: Parser<'a>, B: Parser<'a>>(
    k0: &'static str,
    a: A,
    k1: &'static str,
    b: B,
)
    requires
        k0@ != k1@,
    ensures
        exclusive(&spec_key_value(k0, a), &spec_key_value(k1, b)),
{
    let kv0 = spec_key_value(k0, a);
    let kv1 = spec_key_value(k1, b);
    assert forall|s: Seq<char>, pos: int|
        !(#[trigger] kv0.spec_parse(s, pos) is Ok && #[trigger] kv1.spec_parse(s, pos) is Ok) by {
        let p = skip_ws(s, pos);
        if kv0.spec_parse(s, pos) is Ok && kv1.spec_parse(s, pos) is Ok {
            assert(kv0.parser.prefix_to_ignore.spec_parse(s, pos) is Ok);
            assert(kv1.parser.prefix_to_ignore.spec_parse(s, pos) is Ok);
            assert(QuotedTag(Tag(k0)).spec_parse(s, p) is Ok);
            assert(QuotedTag(Tag(k1)).spec_parse(s, p) is Ok);
        }
    }
}

/// A permutation of two exclusive parsers reads their two parts in either order and
/// gives the values in the order of its parsers: what reading them one after the other
/// ([All]) gives, in that order or in the other.
pub proof fn lemma_permutation2_any_order<'a, A0: Parser<'a>, A1: Parser<'a>>(
    perm: Permutation<(A0, A1)>,
    s: Seq<char>,
    pos: int,
)
    requires
        exclusive(&perm.parsers.0, &perm.parsers.1),
    ensures
        (All { parser: (perm.parsers.0, perm.parsers.1) }).spec_parse(s, pos) matches Ok(
            (e, (v0, v1)),
        ) ==> perm.spec_parse(s, pos) == Ok::<
            (int, (<A0::Dest as DeepView>::V, <A1::Dest as DeepView>::V)),
            ParsingError,
        >((e, (v0, v1))),
        (All { parser: (perm.parsers.1, perm.parsers.0) }).spec_parse(s, pos) matches Ok(
            (e, (v1, v0)),
        ) ==> perm.spec_parse(s, pos) == Ok::<
            (int, (<A0::Dest as DeepView>::V, <A1::Dest as DeepView>::V)),
            ParsingError,
        >((e, (v0, v1))),
{
    assert(!(perm.parsers.0.spec_parse(s, pos) is Ok && perm.parsers.1.spec_parse(s, pos) is Ok));
}

/// The value of a permutation of three parsers, with the values in its own order.
pub type Triple<'a, A0, A1, A2> = (
    <<A0 as Parser<'a>>::Dest as DeepView>::V,
    <<A1 as Parser<'a>>::Dest as DeepView>::V,
    <<A2 as Parser<'a>>::Dest as DeepView>::V,
);

/// A permutation of three pairwise exclusive parsers reads their three parts in any of
/// the six orders and gives the values in the order of its parsers: what reading them
/// one after the other ([All]) in that order gives.
pub proof fn lemma_permutation3_any_order<'a, A0: Parser<'a>, A1: Parser<'a>, A2: Parser<'a>>(
    perm: Permutation<(A0, A1, A2)>,
    s: Seq<char>,
    pos: int,
)
    requires
        exclusive(&perm.parsers.0, &perm.parsers.1),
        exclusive(&perm.parsers.0, &perm.parsers.2),
        exclusive(&perm.parsers.1, &perm.parsers.2),
    ensures
        (All { parser: (perm.parsers.0, perm.parsers.1, perm.parsers.2) }).spec_parse(s, pos) matches Ok(
            (e, (v0, v1, v2)),
        ) ==> perm.spec_parse(s, pos) == Ok::<(int, Triple<'a, A0, A1, A2>), ParsingError>(
            (e, (v0, v1, v2)),
        ),
        (All { parser: (perm.parsers.0, perm.parsers.2, perm.parsers.1) }).spec_parse(s, pos) matches Ok(
            (e, (v0, v2, v1)),
        ) ==> perm.spec_parse(s, pos) == Ok::<(int, Triple<'a, A0, A1, A2>), ParsingError>(
            (e, (v0, v1, v2)),
        ),
        (All { parser: (perm.parsers.1, perm.parsers.0, perm.parsers.2) }).spec_parse(s, pos) matches Ok(
            (e, (v1, v0, v2)),
        ) ==> perm.spec_parse(s, pos) == Ok::<(int, Triple<'a, A0, A1, A2>), ParsingError>(
            (e, (v0, v1, v2)),
        ),
        (All { parser: (perm.parsers.1, perm.parsers.2, perm.parsers.0) }).spec_parse(s, pos) matches Ok(
            (e, (v1, v2, v0)),
        ) ==> perm.spec_parse(s, pos) == Ok::<(int, Triple<'a, A0, A1, A2>), ParsingError>(
            (e, (v0, v1, v2)),
        ),
        (All { parser: (perm.parsers.2, perm.parsers.0, perm.parsers.1) }).spec_parse(s, pos) matches Ok(
            (e, (v2, v0, v1)),
        ) ==> perm.spec_parse(s, pos) == Ok::<(int, Triple<'a, A0, A1, A2>), ParsingError>(
            (e, (v0, v1, v2)),
        ),
        (All { parser: (perm.parsers.2, perm.parsers.1, perm.parsers.0) }).spec_parse(s, pos) matches Ok(
            (e, (v2, v1, v0)),
        ) ==> perm.spec_parse(s, pos) == Ok::<(int, Triple<'a, A0, A1, A2>), ParsingError>(
            (e, (v0, v1, v2)),
        ),
{
    let (p0, p1, p2) = (perm.parsers.0, perm.parsers.1, perm.parsers.2);
    assert(!(p0.spec_parse(s, pos) is Ok && p1.spec_parse(s, pos) is Ok));
    assert(!(p0.spec_parse(s, pos) is Ok && p2.spec_parse(s, pos) is Ok));
    assert(!(p1.spec_parse(s, pos) is Ok && p2.spec_parse(s, pos) is Ok));
    if let Ok((e0, _)) = p0.spec_parse(s, pos) {
        assert(!(p1.spec_parse(s, e0) is Ok && p2.spec_parse(s, e0) is Ok));
    }
    if let Ok((e0, _)) = p1.spec_parse(s, pos) {
        assert(!(p0.spec_parse(s, e0) is Ok && p2.spec_parse(s, e0) is Ok));
    }
    if let Ok((e0, _)) = p2.spec_parse(s, pos) {
        assert(!(p0.spec_parse(s, e0) is Ok && p1.spec_parse(s, e0) is Ok));
    }
}


/// A permutation of two parsers succeeds only by reading its two parts one after the
/// other, in one order or in the other, and gives the values in the order of its
/// parsers.
pub proof fn lemma_permutation2_reads_some_order<'a, A0: Parser<'a>, A1: Parser<'a>>(
    perm: Permutation<(A0, A1)>,
    s: Seq<char>,
    pos: int,
)
    ensures
        perm.spec_parse(s, pos) matches Ok((e, (v0, v1))) ==> ((All {
            parser: (perm.parsers.0, perm.parsers.1),
        }).spec_parse(s, pos) == Ok::<
            (int, (<A0::Dest as DeepView>::V, <A1::Dest as DeepView>::V)),
            ParsingError,
        >((e, (v0, v1))) || (All { parser: (perm.parsers.1, perm.parsers.0) }).spec_parse(s, pos)
            == Ok::<(int, (<A1::Dest as DeepView>::V, <A0::Dest as DeepView>::V)), ParsingError>(
            (e, (v1, v0)),
        )),
{
}

/// A permutation of three parsers succeeds only by reading its three parts one after
/// the other in one of the six orders, and gives the values in the order of its
/// parsers.
pub proof fn lemma_permutation3_reads_some_order<'a, A0: Parser<'a>, A1: Parser<'a>, A2: Parser<'a>>(
    perm: Permutation<(A0, A1, A2)>,
    s: Seq<char>,
    pos: int,
)
    ensures
        perm.spec_parse(s, pos) matches Ok((e, (v0, v1, v2))) ==> ({
            let (p0, p1, p2) = (perm.parsers.0, perm.parsers.1, perm.parsers.2);
            ||| (All { parser: (p0, p1, p2) }).spec_parse(s, pos) matches Ok((e2, w))
                && e2 == e && w == (v0, v1, v2)
            ||| (All { parser: (p0, p2, p1) }).spec_parse(s, pos) matches Ok((e2, w))
                && e2 == e && w == (v0, v2, v1)
            ||| (All { parser: (p1, p0, p2) }).spec_parse(s, pos) matches Ok((e2, w))
                && e2 == e && w == (v1, v0, v2)
            ||| (All { parser: (p1, p2, p0) }).spec_parse(s, pos) matches Ok((e2, w))
                && e2 == e && w == (v1, v2, v0)
            ||| (All { parser: (p2, p0, p1) }).spec_parse(s, pos) matches Ok((e2, w))
                && e2 == e && w == (v2, v0, v1)
            ||| (All { parser: (p2, p1, p0) }).spec_parse(s, pos) matches Ok((e2, w))
                && e2 == e && w == (v2, v1, v0)
        }),
{
}

/// Three alternatives read as the first one, or else the other two.
pub proof fn lemma_alt3_nests<'a, A0, A1, A2, D: DeepView>(
    a0: A0,
    a1: A1,
    a2: A2,
    s: Seq<char>,
    pos: int,
) where
    A0: Parser<'a, Dest = D>,
    A1: Parser<'a, Dest = D>,
    A2: Parser<'a, Dest = D>,

    ensures
        (Alt { parser: (a0, a1, a2) }).spec_parse(s, pos) == (Alt {
            parser: (a0, Alt { parser: (a1, a2) }),
        }).spec_parse(s, pos),
{
}

/// Four alternatives read as the first one, or else the other three.
pub proof fn lemma_alt4_nests<'a, A0, A1, A2, A3, D: DeepView>(
    a0: A0,
    a1: A1,
    a2: A2,
    a3: A3,
    s: Seq<char>,
    pos: int,
) where
    A0: Parser<'a, Dest = D>,
    A1: Parser<'a, Dest = D>,
    A2: Parser<'a, Dest = D>,
    A3: Parser<'a, Dest = D>,

    ensures
        (Alt { parser: (a0, a1, a2, a3) }).spec_parse(s, pos) == (Alt {
            parser: (a0, Alt { parser: (a1, a2, a3) }),
        }).spec_parse(s, pos),
{
}

/// Eight alternatives read as the first four, or else the last four.
pub proof fn lemma_alt8_nests<'a, A0, A1, A2, A3, A4, A5, A6, A7, D: DeepView>(
    a0: A0,
    a1: A1,
    a2: A2,
    a3: A3,
    a4: A4,
    a5: A5,
    a6: A6,
    a7: A7,
    s: Seq<char>,
    pos: int,
) where
    A0: Parser<'a, Dest = D>,
    A1: Parser<'a, Dest = D>,
    A2: Parser<'a, Dest = D>,
    A3: Parser<'a, Dest = D>,
    A4: Parser<'a, Dest = D>,
    A5: Parser<'a, Dest = D>,
    A6: Parser<'a, Dest = D>,
    A7: Parser<'a, Dest = D>,

    ensures
        (Alt { parser: (a0, a1, a2, a3, a4, a5, a6, a7) }).spec_parse(s, pos) == (Alt {
            parser: (Alt { parser: (a0, a1, a2, a3) }, Alt { parser: (a4, a5, a6, a7) }),
        }).spec_parse(s, pos),
{
}

/// Two alternatives give the first one's result where it succeeds, and else the
/// second one's, success or error: so every arity, nested as above, gives the first
/// success or else the error of the last alternative.
pub proof fn lemma_alt2_first_success<'a, A0, A1, D: DeepView>(
    a0: A0,
    a1: A1,
    s: Seq<char>,
    pos: int,
) where
    A0: Parser<'a, Dest = D>,
    A1: Parser<'a, Dest = D>,

    ensures
        a0.spec_parse(s, pos) is Ok ==> (Alt { parser: (a0, a1) }).spec_parse(s, pos)
            == a0.spec_parse(s, pos),
        a0.spec_parse(s, pos) is Err ==> (Alt { parser: (a0, a1) }).spec_parse(s, pos)
            == a1.spec_parse(s, pos),
{
}

} // verus!
