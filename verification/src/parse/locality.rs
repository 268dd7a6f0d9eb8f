//! Parsers read only what follows their position: a parser gives the same outcome
//! at a position of a text as at the start of the rest of that text.
use vstd::prelude::*;
use crate::error::ParsingError;
use crate::parse::combinators::{
    All, Alt, Delimited, KeyValue, Mapped, Permutation, Preceded, Refined, StripWhitespace,
};
use crate::parse::combinators::{List, Take, list_items, spec_key_value, take_items};
use crate::parse::quoting::{
    AsIs, ParseAssetIdentifier, ParseUserId, QuotedTag, Tag, Unquote, first_quote, prepend,
    spec_quoted_id, spec_unquote, spec_unquote_non_escaped, unescape,
};
use crate::parse::stdp::{Byte, NonZeroI32Parser, NonZeroU32Parser, digit_run_end, u32_digits_start};
use crate::text::{is_dec_digit, is_hex_digit};
use crate::parse::{Mapping, Parser, SpecResult, Validation};
use crate::text::{is_ws, skip_ws};

verus! {

/// An outcome with its end counted `k` further on.
pub open spec fn shifted<V>(r: SpecResult<V>, k: int) -> SpecResult<V> {
    match r {
        Ok((e, v)) => Ok((e + k, v)),
        Err(err) => Err(err),
    }
}

/// The text of `s1` from `p1` on is the text of `s2` from `p2` on.
pub open spec fn same_rest(s1: Seq<char>, p1: int, s2: Seq<char>, p2: int) -> bool {
    &&& 0 <= p1 <= s1.len()
    &&& 0 <= p2 <= s2.len()
    &&& s1.len() - p1 == s2.len() - p2
    &&& s1.skip(p1) == s2.skip(p2)
}

/// A parser reads only what follows its position: on two texts that agree from two
/// positions on it gives the same outcome, its end counted from each position; and
/// it ends neither before its position nor after the text.
pub open spec fn reads_rest<'a, P: Parser<'a>>(p: &P) -> bool {
    &&& forall|s: Seq<char>, pos: int|
        #![trigger p.spec_parse(s, pos)]
        0 <= pos <= s.len() ==> (p.spec_parse(s, pos) matches Ok((e, _)) ==> pos <= e <= s.len())
    &&& forall|s1: Seq<char>, p1: int, s2: Seq<char>, p2: int|
        #![trigger p.spec_parse(s1, p1), p.spec_parse(s2, p2)]
        same_rest(s1, p1, s2, p2) ==> p.spec_parse(s1, p1) == shifted(
            p.spec_parse(s2, p2),
            p1 - p2,
        )
}

/// A parser that reads only what follows its position reads at `pos` what it reads
/// from the start of the rest of the text.
pub proof fn lemma_reads_the_rest<'a, P: Parser<'a>>(p: &P, s: Seq<char>, pos: int)
    requires
        reads_rest(p),
        0 <= pos <= s.len(),
    ensures
        p.spec_parse(s, pos) == shifted(p.spec_parse(s.skip(pos), 0), pos),
{
    assert(s.skip(pos).skip(0) =~= s.skip(pos));
    assert(same_rest(s, pos, s.skip(pos), 0));
}

/// Texts that agree from two positions on agree from any later pair of positions.
pub proof fn lemma_same_rest_advance(s1: Seq<char>, p1: int, s2: Seq<char>, p2: int, d: int)
    requires
        same_rest(s1, p1, s2, p2),
        0 <= d <= s1.len() - p1,
    ensures
        same_rest(s1, p1 + d, s2, p2 + d),
        forall|i: int| 0 <= i < s1.len() - p1 - d ==> #[trigger] s1[p1 + d + i] == s2[p2 + d + i],
{
    assert forall|i: int| 0 <= i < s1.len() - p1 - d implies #[trigger] s1[p1 + d + i] == s2[p2 + d
        + i] by {
        assert(s1.skip(p1)[d + i] == s2.skip(p2)[d + i]);
    }
    let (a, b) = (p1 + d, p2 + d);
    assert(s1.skip(a) =~= s2.skip(b)) by {
        assert forall|i: int| 0 <= i < s1.len() - a implies #[trigger] s1.skip(a)[i] == s2.skip(b)[i] by {
            assert(s1.skip(p1)[d + i] == s2.skip(p2)[d + i]);
        }
    }
}

/// Skipping whitespace reads only what follows the position.
pub proof fn lemma_skip_ws_rest(s1: Seq<char>, p1: int, s2: Seq<char>, p2: int)
    requires
        same_rest(s1, p1, s2, p2),
    ensures
        skip_ws(s1, p1) - p1 == skip_ws(s2, p2) - p2,
        p1 <= skip_ws(s1, p1) <= s1.len(),
    decreases s1.len() - p1,
{
    lemma_same_rest_advance(s1, p1, s2, p2, 0);
    if p1 < s1.len() {
        assert(s1[p1 + 0 + 0] == s2[p2 + 0 + 0]);
        if is_ws(s1[p1]) {
            lemma_same_rest_advance(s1, p1, s2, p2, 1);
            lemma_skip_ws_rest(s1, p1 + 1, s2, p2 + 1);
        }
    }
}

pub proof fn lemma_tag_reads_rest(t: Tag)
    ensures
        reads_rest(&t),
{
    assert forall|s1: Seq<char>, p1: int, s2: Seq<char>, p2: int|
        #![trigger t.spec_parse(s1, p1), t.spec_parse(s2, p2)]
        same_rest(s1, p1, s2, p2) implies t.spec_parse(s1, p1) == shifted(
            t.spec_parse(s2, p2),
            p1 - p2,
        ) by {
        let n = t.0@.len();
        if p1 + n <= s1.len() {
            lemma_same_rest_advance(s1, p1, s2, p2, 0);
            let (e1, e2) = (p1 + n, p2 + n);
            assert(s1.subrange(p1, e1) =~= s2.subrange(p2, e2)) by {
                assert forall|i: int| 0 <= i < n implies #[trigger] s1.subrange(p1, e1)[i]
                    == s2.subrange(p2, e2)[i] by {
                    assert(s1[p1 + 0 + i] == s2[p2 + 0 + i]);
                }
            }
        }
    }
}

pub proof fn lemma_strip_whitespace_reads_rest<'a, T: Parser<'a>>(p: StripWhitespace<T>)
    requires
        reads_rest(&p.parser),
    ensures
        reads_rest(&p),
{
    assert forall|s: Seq<char>, pos: int|
        #![trigger p.spec_parse(s, pos)]
        0 <= pos <= s.len() implies (p.spec_parse(s, pos) matches Ok((e, _)) ==> pos <= e <= s.len()) by {
        assert(same_rest(s, pos, s, pos));
        lemma_skip_ws_rest(s, pos, s, pos);
        let q = skip_ws(s, pos);
        if let Ok((e, _)) = p.parser.spec_parse(s, q) {
            assert(same_rest(s, e, s, e));
            lemma_skip_ws_rest(s, e, s, e);
        }
    }
    assert forall|s1: Seq<char>, p1: int, s2: Seq<char>, p2: int|
        #![trigger p.spec_parse(s1, p1), p.spec_parse(s2, p2)]
        same_rest(s1, p1, s2, p2) implies p.spec_parse(s1, p1) == shifted(
            p.spec_parse(s2, p2),
            p1 - p2,
        ) by {
        lemma_skip_ws_rest(s1, p1, s2, p2);
        let q1 = skip_ws(s1, p1);
        let q2 = skip_ws(s2, p2);
        lemma_same_rest_advance(s1, p1, s2, p2, q1 - p1);
        assert(p.parser.spec_parse(s1, q1) == shifted(p.parser.spec_parse(s2, q2), q1 - q2));
        if let Ok((e1, _)) = p.parser.spec_parse(s1, q1) {
            let e2 = e1 - q1 + q2;
            lemma_same_rest_advance(s1, p1, s2, p2, e1 - p1);
            lemma_skip_ws_rest(s1, e1, s2, e2);
        }
    }
}

/// What [reads_rest] asks of one pair of texts, and of the outcome's end.
pub open spec fn reads_rest_at<'a, P: Parser<'a>>(
    p: &P,
    s1: Seq<char>,
    p1: int,
    s2: Seq<char>,
    p2: int,
) -> bool {
    &&& p.spec_parse(s1, p1) == shifted(p.spec_parse(s2, p2), p1 - p2)
    &&& p.spec_parse(s1, p1) matches Ok((e, _)) ==> p1 <= e <= s1.len()
}

proof fn lemma_reads_rest_intro<'a, P: Parser<'a>>(p: &P)
    requires
        forall|s1: Seq<char>, p1: int, s2: Seq<char>, p2: int|
            #![trigger p.spec_parse(s1, p1), p.spec_parse(s2, p2)]
            same_rest(s1, p1, s2, p2) ==> reads_rest_at(p, s1, p1, s2, p2),
    ensures
        reads_rest(p),
{
    assert forall|s: Seq<char>, pos: int|
        #![trigger p.spec_parse(s, pos)]
        0 <= pos <= s.len() implies (p.spec_parse(s, pos) matches Ok((e, _)) ==> pos <= e <= s.len()) by {
        assert(same_rest(s, pos, s, pos));
        assert(reads_rest_at(p, s, pos, s, pos));
    }
}

/// On texts that agree from `p1` and `p2` on, a parser that reads only what follows its
/// position gives corresponding outcomes at every pair of corresponding later positions.
proof fn lemma_steps<'a, P: Parser<'a>>(p: &P, s1: Seq<char>, p1: int, s2: Seq<char>, p2: int)
    requires
        reads_rest(p),
        same_rest(s1, p1, s2, p2),
    ensures
        forall|q: int|
            p1 <= q <= s1.len() ==> #[trigger] p.spec_parse(s1, q) == shifted(
                p.spec_parse(s2, q - p1 + p2),
                p1 - p2,
            ) && (p.spec_parse(s1, q) matches Ok((e, _)) ==> q <= e <= s1.len()),
{
    assert forall|q: int| p1 <= q <= s1.len() implies #[trigger] p.spec_parse(s1, q) == shifted(
        p.spec_parse(s2, q - p1 + p2),
        p1 - p2,
    ) && (p.spec_parse(s1, q) matches Ok((e, _)) ==> q <= e <= s1.len()) by {
        lemma_same_rest_advance(s1, p1, s2, p2, q - p1);
        assert(same_rest(s1, q, s2, q - p1 + p2));
        assert(p.spec_parse(s1, q) == shifted(p.spec_parse(s2, q - p1 + p2), q - (q - p1 + p2)));
    }
}

pub proof fn lemma_preceded_reads_rest<'a, A: Parser<'a>, B: Parser<'a>>(p: Preceded<A, B>)
    requires
        reads_rest(&p.prefix_to_ignore),
        reads_rest(&p.dest_parser),
    ensures
        reads_rest(&p),
{
    assert forall|s1: Seq<char>, p1: int, s2: Seq<char>, p2: int|
        #![trigger p.spec_parse(s1, p1), p.spec_parse(s2, p2)]
        same_rest(s1, p1, s2, p2) implies reads_rest_at(&p, s1, p1, s2, p2) by {
        lemma_steps(&p.prefix_to_ignore, s1, p1, s2, p2);
        lemma_steps(&p.dest_parser, s1, p1, s2, p2);
    }
    lemma_reads_rest_intro(&p);
}

pub proof fn lemma_delimited_reads_rest<'a, A: Parser<'a>, B: Parser<'a>, C: Parser<'a>>(
    p: Delimited<A, B, C>,
)
    requires
        reads_rest(&p.prefix_to_ignore),
        reads_rest(&p.dest_parser),
        reads_rest(&p.suffix_to_ignore),
    ensures
        reads_rest(&p),
{
    assert forall|s1: Seq<char>, p1: int, s2: Seq<char>, p2: int|
        #![trigger p.spec_parse(s1, p1), p.spec_parse(s2, p2)]
        same_rest(s1, p1, s2, p2) implies reads_rest_at(&p, s1, p1, s2, p2) by {
        lemma_steps(&p.prefix_to_ignore, s1, p1, s2, p2);
        lemma_steps(&p.dest_parser, s1, p1, s2, p2);
        lemma_steps(&p.suffix_to_ignore, s1, p1, s2, p2);
    }
    lemma_reads_rest_intro(&p);
}

pub proof fn lemma_mapped_reads_rest<'a, T: Parser<'a>, M: Mapping<T::Dest>>(p: Mapped<T, M>)
    requires
        reads_rest(&p.parser),
    ensures
        reads_rest(&p),
{
    assert forall|s1: Seq<char>, p1: int, s2: Seq<char>, p2: int|
        #![trigger p.spec_parse(s1, p1), p.spec_parse(s2, p2)]
        same_rest(s1, p1, s2, p2) implies reads_rest_at(&p, s1, p1, s2, p2) by {
        lemma_steps(&p.parser, s1, p1, s2, p2);
    }
    lemma_reads_rest_intro(&p);
}

pub proof fn lemma_refined_reads_rest<'a, T: Parser<'a>, C: Validation<T::Dest>>(p: Refined<T, C>)
    requires
        reads_rest(&p.parser),
    ensures
        reads_rest(&p),
{
    assert forall|s1: Seq<char>, p1: int, s2: Seq<char>, p2: int|
        #![trigger p.spec_parse(s1, p1), p.spec_parse(s2, p2)]
        same_rest(s1, p1, s2, p2) implies reads_rest_at(&p, s1, p1, s2, p2) by {
        lemma_steps(&p.parser, s1, p1, s2, p2);
    }
    lemma_reads_rest_intro(&p);
}

pub proof fn lemma_key_value_reads_rest<'a, T: Parser<'a>>(p: KeyValue<T>)
    requires
        reads_rest(&p.parser),
    ensures
        reads_rest(&p),
{
    assert forall|s1: Seq<char>, p1: int, s2: Seq<char>, p2: int|
        #![trigger p.spec_parse(s1, p1), p.spec_parse(s2, p2)]
        same_rest(s1, p1, s2, p2) implies reads_rest_at(&p, s1, p1, s2, p2) by {
        lemma_steps(&p.parser, s1, p1, s2, p2);
    }
    lemma_reads_rest_intro(&p);
}

pub proof fn lemma_all2_reads_rest<'a, A0: Parser<'a>, A1: Parser<'a>>(p: All<(A0, A1)>)
    requires
        reads_rest(&p.parser.0),
        reads_rest(&p.parser.1),
    ensures
        reads_rest(&p),
{
    assert forall|s1: Seq<char>, p1: int, s2: Seq<char>, p2: int|
        #![trigger p.spec_parse(s1, p1), p.spec_parse(s2, p2)]
        same_rest(s1, p1, s2, p2) implies reads_rest_at(&p, s1, p1, s2, p2) by {
        lemma_steps(&p.parser.0, s1, p1, s2, p2);
        lemma_steps(&p.parser.1, s1, p1, s2, p2);
    }
    lemma_reads_rest_intro(&p);
}

pub proof fn lemma_all3_reads_rest<'a, A0: Parser<'a>, A1: Parser<'a>, A2: Parser<'a>>(
    p: All<(A0, A1, A2)>,
)
    requires
        reads_rest(&p.parser.0),
        reads_rest(&p.parser.1),
        reads_rest(&p.parser.2),
    ensures
        reads_rest(&p),
{
    assert forall|s1: Seq<char>, p1: int, s2: Seq<char>, p2: int|
        #![trigger p.spec_parse(s1, p1), p.spec_parse(s2, p2)]
        same_rest(s1, p1, s2, p2) implies reads_rest_at(&p, s1, p1, s2, p2) by {
        lemma_steps(&p.parser.0, s1, p1, s2, p2);
        lemma_steps(&p.parser.1, s1, p1, s2, p2);
        lemma_steps(&p.parser.2, s1, p1, s2, p2);
    }
    lemma_reads_rest_intro(&p);
}

pub proof fn lemma_all4_reads_rest<'a, A0: Parser<'a>, A1: Parser<'a>, A2: Parser<'a>, A3: Parser<'a>>(
    p: All<(A0, A1, A2, A3)>,
)
    requires
        reads_rest(&p.parser.0),
        reads_rest(&p.parser.1),
        reads_rest(&p.parser.2),
        reads_rest(&p.parser.3),
    ensures
        reads_rest(&p),
{
    assert forall|s1: Seq<char>, p1: int, s2: Seq<char>, p2: int|
        #![trigger p.spec_parse(s1, p1), p.spec_parse(s2, p2)]
        same_rest(s1, p1, s2, p2) implies reads_rest_at(&p, s1, p1, s2, p2) by {
        lemma_steps(&p.parser.0, s1, p1, s2, p2);
        lemma_steps(&p.parser.1, s1, p1, s2, p2);
        lemma_steps(&p.parser.2, s1, p1, s2, p2);
        lemma_steps(&p.parser.3, s1, p1, s2, p2);
    }
    lemma_reads_rest_intro(&p);
}

pub proof fn lemma_permutation2_reads_rest<'a, A0: Parser<'a>, A1: Parser<'a>>(
    p: Permutation<(A0, A1)>,
)
    requires
        reads_rest(&p.parsers.0),
        reads_rest(&p.parsers.1),
    ensures
        reads_rest(&p),
{
    assert forall|s1: Seq<char>, p1: int, s2: Seq<char>, p2: int|
        #![trigger p.spec_parse(s1, p1), p.spec_parse(s2, p2)]
        same_rest(s1, p1, s2, p2) implies reads_rest_at(&p, s1, p1, s2, p2) by {
        lemma_steps(&p.parsers.0, s1, p1, s2, p2);
        lemma_steps(&p.parsers.1, s1, p1, s2, p2);
    }
    lemma_reads_rest_intro(&p);
}

#[verifier::spinoff_prover]
#[verifier::rlimit(80)]
pub proof fn lemma_permutation3_reads_rest<'a, A0: Parser<'a>, A1: Parser<'a>, A2: Parser<'a>>(
    p: Permutation<(A0, A1, A2)>,
)
    requires
        reads_rest(&p.parsers.0),
        reads_rest(&p.parsers.1),
        reads_rest(&p.parsers.2),
    ensures
        reads_rest(&p),
{
    assert forall|s1: Seq<char>, p1: int, s2: Seq<char>, p2: int|
        #![trigger p.spec_parse(s1, p1), p.spec_parse(s2, p2)]
        same_rest(s1, p1, s2, p2) implies reads_rest_at(&p, s1, p1, s2, p2) by {
        lemma_steps(&p.parsers.0, s1, p1, s2, p2);
        lemma_steps(&p.parsers.1, s1, p1, s2, p2);
        lemma_steps(&p.parsers.2, s1, p1, s2, p2);
    }
    lemma_reads_rest_intro(&p);
}

pub proof fn lemma_alt2_reads_rest<'a, A0, A1, D: DeepView>(p: Alt<(A0, A1)>) where
    A0: Parser<'a, Dest = D>,
    A1: Parser<'a, Dest = D>,

    requires
        reads_rest(&p.parser.0),
        reads_rest(&p.parser.1),
    ensures
        reads_rest(&p),
{
    assert forall|s1: Seq<char>, p1: int, s2: Seq<char>, p2: int|
        #![trigger p.spec_parse(s1, p1), p.spec_parse(s2, p2)]
        same_rest(s1, p1, s2, p2) implies reads_rest_at(&p, s1, p1, s2, p2) by {
        lemma_steps(&p.parser.0, s1, p1, s2, p2);
        lemma_steps(&p.parser.1, s1, p1, s2, p2);
    }
    lemma_reads_rest_intro(&p);
}

pub proof fn lemma_alt3_reads_rest<'a, A0, A1, A2, D: DeepView>(p: Alt<(A0, A1, A2)>) where
    A0: Parser<'a, Dest = D>,
    A1: Parser<'a, Dest = D>,
    A2: Parser<'a, Dest = D>,

    requires
        reads_rest(&p.parser.0),
        reads_rest(&p.parser.1),
        reads_rest(&p.parser.2),
    ensures
        reads_rest(&p),
{
    assert forall|s1: Seq<char>, p1: int, s2: Seq<char>, p2: int|
        #![trigger p.spec_parse(s1, p1), p.spec_parse(s2, p2)]
        same_rest(s1, p1, s2, p2) implies reads_rest_at(&p, s1, p1, s2, p2) by {
        lemma_steps(&p.parser.0, s1, p1, s2, p2);
        lemma_steps(&p.parser.1, s1, p1, s2, p2);
        lemma_steps(&p.parser.2, s1, p1, s2, p2);
    }
    lemma_reads_rest_intro(&p);
}

pub proof fn lemma_alt4_reads_rest<'a, A0, A1, A2, A3, D: DeepView>(p: Alt<(A0, A1, A2, A3)>) where
    A0: Parser<'a, Dest = D>,
    A1: Parser<'a, Dest = D>,
    A2: Parser<'a, Dest = D>,
    A3: Parser<'a, Dest = D>,

    requires
        reads_rest(&p.parser.0),
        reads_rest(&p.parser.1),
        reads_rest(&p.parser.2),
        reads_rest(&p.parser.3),
    ensures
        reads_rest(&p),
{
    assert forall|s1: Seq<char>, p1: int, s2: Seq<char>, p2: int|
        #![trigger p.spec_parse(s1, p1), p.spec_parse(s2, p2)]
        same_rest(s1, p1, s2, p2) implies reads_rest_at(&p, s1, p1, s2, p2) by {
        lemma_steps(&p.parser.0, s1, p1, s2, p2);
        lemma_steps(&p.parser.1, s1, p1, s2, p2);
        lemma_steps(&p.parser.2, s1, p1, s2, p2);
        lemma_steps(&p.parser.3, s1, p1, s2, p2);
    }
    lemma_reads_rest_intro(&p);
}

pub proof fn lemma_alt8_reads_rest<'a, A0, A1, A2, A3, A4, A5, A6, A7, D: DeepView>(
    p: Alt<(A0, A1, A2, A3, A4, A5, A6, A7)>,
) where
    A0: Parser<'a, Dest = D>,
    A1: Parser<'a, Dest = D>,
    A2: Parser<'a, Dest = D>,
    A3: Parser<'a, Dest = D>,
    A4: Parser<'a, Dest = D>,
    A5: Parser<'a, Dest = D>,
    A6: Parser<'a, Dest = D>,
    A7: Parser<'a, Dest = D>,

    requires
        reads_rest(&p.parser.0),
        reads_rest(&p.parser.1),
        reads_rest(&p.parser.2),
        reads_rest(&p.parser.3),
        reads_rest(&p.parser.4),
        reads_rest(&p.parser.5),
        reads_rest(&p.parser.6),
        reads_rest(&p.parser.7),
    ensures
        reads_rest(&p),
{
    assert forall|s1: Seq<char>, p1: int, s2: Seq<char>, p2: int|
        #![trigger p.spec_parse(s1, p1), p.spec_parse(s2, p2)]
        same_rest(s1, p1, s2, p2) implies reads_rest_at(&p, s1, p1, s2, p2) by {
        lemma_steps(&p.parser.0, s1, p1, s2, p2);
        lemma_steps(&p.parser.1, s1, p1, s2, p2);
        lemma_steps(&p.parser.2, s1, p1, s2, p2);
        lemma_steps(&p.parser.3, s1, p1, s2, p2);
        lemma_steps(&p.parser.4, s1, p1, s2, p2);
        lemma_steps(&p.parser.5, s1, p1, s2, p2);
        lemma_steps(&p.parser.6, s1, p1, s2, p2);
        lemma_steps(&p.parser.7, s1, p1, s2, p2);
    }
    lemma_reads_rest_intro(&p);
}

/// Texts that agree from two positions on hold the same characters from there on.
proof fn lemma_chars(s1: Seq<char>, p1: int, s2: Seq<char>, p2: int)
    requires
        same_rest(s1, p1, s2, p2),
    ensures
        forall|q: int| p1 <= q < s1.len() ==> #[trigger] s1[q] == s2[q - p1 + p2],
        forall|a: int, b: int|
            p1 <= a <= b <= s1.len() ==> #[trigger] s1.subrange(a, b) == s2.subrange(
                a - p1 + p2,
                b - p1 + p2,
            ),
{
    assert forall|q: int| p1 <= q < s1.len() implies #[trigger] s1[q] == s2[q - p1 + p2] by {
        assert(s1.skip(p1)[q - p1] == s2.skip(p2)[q - p1]);
    }
    assert forall|a: int, b: int| p1 <= a <= b <= s1.len() implies #[trigger] s1.subrange(a, b)
        == s2.subrange(a - p1 + p2, b - p1 + p2) by {
        assert(s1.subrange(a, b) =~= s2.subrange(a - p1 + p2, b - p1 + p2)) by {
            assert forall|i: int| 0 <= i < b - a implies #[trigger] s1.subrange(a, b)[i]
                == s2.subrange(a - p1 + p2, b - p1 + p2)[i] by {
                assert(s1[a + i] == s2[a + i - p1 + p2]);
            }
        }
    }
}

/// Skipping whitespace at corresponding positions of texts that agree from two
/// positions on goes equally far.
proof fn lemma_ws_steps(s1: Seq<char>, p1: int, s2: Seq<char>, p2: int)
    requires
        same_rest(s1, p1, s2, p2),
    ensures
        forall|q: int|
            p1 <= q <= s1.len() ==> #[trigger] skip_ws(s1, q) - q == skip_ws(s2, q - p1 + p2) - (q
                - p1 + p2) && q <= skip_ws(s1, q) <= s1.len(),
{
    assert forall|q: int| p1 <= q <= s1.len() implies #[trigger] skip_ws(s1, q) - q == skip_ws(
        s2,
        q - p1 + p2,
    ) - (q - p1 + p2) && q <= skip_ws(s1, q) <= s1.len() by {
        lemma_same_rest_advance(s1, p1, s2, p2, q - p1);
        lemma_skip_ws_rest(s1, q, s2, q - p1 + p2);
    }
}

proof fn lemma_take_items_rest<'a, T: Parser<'a>>(
    p: &T,
    s1: Seq<char>,
    p1: int,
    s2: Seq<char>,
    p2: int,
    q: int,
    n: nat,
    acc: Seq<<T::Dest as DeepView>::V>,
)
    requires
        reads_rest(p),
        same_rest(s1, p1, s2, p2),
        p1 <= q <= s1.len(),
    ensures
        take_items(p, s1, q, n, acc) == shifted(take_items(p, s2, q - p1 + p2, n, acc), p1 - p2),
        take_items(p, s1, q, n, acc) matches Ok((e, _)) ==> q <= e <= s1.len(),
    decreases n,
{
    if n > 0 {
        lemma_steps(p, s1, p1, s2, p2);
        assert(p.spec_parse(s1, q) == shifted(p.spec_parse(s2, q - p1 + p2), p1 - p2));
        if let Ok((e, v)) = p.spec_parse(s1, q) {
            lemma_take_items_rest(p, s1, p1, s2, p2, e, (n - 1) as nat, acc.push(v));
        }
    }
}

pub proof fn lemma_take_reads_rest<'a, T: Parser<'a>>(p: Take<T>)
    requires
        reads_rest(&p.parser),
    ensures
        reads_rest(&p),
{
    assert forall|s1: Seq<char>, p1: int, s2: Seq<char>, p2: int|
        #![trigger p.spec_parse(s1, p1), p.spec_parse(s2, p2)]
        same_rest(s1, p1, s2, p2) implies reads_rest_at(&p, s1, p1, s2, p2) by {
        lemma_take_items_rest(&p.parser, s1, p1, s2, p2, p1, p.count as nat, Seq::empty());
    }
    lemma_reads_rest_intro(&p);
}

proof fn lemma_list_items_rest<'a, T: Parser<'a>>(
    p: &T,
    s1: Seq<char>,
    p1: int,
    s2: Seq<char>,
    p2: int,
    q: int,
    acc: Seq<<T::Dest as DeepView>::V>,
)
    requires
        reads_rest(p),
        same_rest(s1, p1, s2, p2),
        p1 <= q <= s1.len(),
    ensures
        list_items(p, s1, q, acc) == shifted(list_items(p, s2, q - p1 + p2, acc), p1 - p2),
        list_items(p, s1, q, acc) matches Ok((e, _)) ==> q <= e <= s1.len(),
    decreases s1.len() - q,
{
    lemma_chars(s1, p1, s2, p2);
    lemma_ws_steps(s1, p1, s2, p2);
    lemma_steps(p, s1, p1, s2, p2);
    if q < s1.len() && s1[q] != ']' {
        assert(p.spec_parse(s1, q) == shifted(p.spec_parse(s2, q - p1 + p2), p1 - p2));
        if let Ok((e, v)) = p.spec_parse(s1, q) {
            let c = skip_ws(s1, e);
            if 0 <= c < s1.len() && s1[c] == ',' {
                let r = skip_ws(s1, c + 1);
                if q < r <= s1.len() {
                    lemma_list_items_rest(p, s1, p1, s2, p2, r, acc.push(v));
                }
            }
        }
    } else if q < s1.len() {
        assert(skip_ws(s1, q + 1) - (q + 1) == skip_ws(s2, q + 1 - p1 + p2) - (q + 1 - p1 + p2));
    }
}

pub proof fn lemma_list_reads_rest<'a, T: Parser<'a>>(p: List<T>)
    requires
        reads_rest(&p.parser),
    ensures
        reads_rest(&p),
{
    assert forall|s1: Seq<char>, p1: int, s2: Seq<char>, p2: int|
        #![trigger p.spec_parse(s1, p1), p.spec_parse(s2, p2)]
        same_rest(s1, p1, s2, p2) implies reads_rest_at(&p, s1, p1, s2, p2) by {
        lemma_chars(s1, p1, s2, p2);
        lemma_ws_steps(s1, p1, s2, p2);
        let b = skip_ws(s1, p1);
        if 0 <= b < s1.len() && s1[b] == '[' {
            let q = skip_ws(s1, b + 1);
            lemma_list_items_rest(&p.parser, s1, p1, s2, p2, q, Seq::empty());
        }
    }
    lemma_reads_rest_intro(&p);
}

pub proof fn lemma_byte_reads_rest()
    ensures
        reads_rest(&Byte),
{
    assert forall|s1: Seq<char>, p1: int, s2: Seq<char>, p2: int|
        #![trigger Byte.spec_parse(s1, p1), Byte.spec_parse(s2, p2)]
        same_rest(s1, p1, s2, p2) implies reads_rest_at(&Byte, s1, p1, s2, p2) by {
        lemma_chars(s1, p1, s2, p2);
    }
    lemma_reads_rest_intro(&Byte);
}

pub proof fn lemma_as_is_reads_rest()
    ensures
        reads_rest(&AsIs),
{
    assert forall|s1: Seq<char>, p1: int, s2: Seq<char>, p2: int|
        #![trigger AsIs.spec_parse(s1, p1), AsIs.spec_parse(s2, p2)]
        same_rest(s1, p1, s2, p2) implies reads_rest_at(&AsIs, s1, p1, s2, p2) by {
        lemma_chars(s1, p1, s2, p2);
        assert(s1.subrange(p1, s1.len() as int) == s2.subrange(p2, s2.len() as int));
    }
    lemma_reads_rest_intro(&AsIs);
}

proof fn lemma_digit_run_rest(s1: Seq<char>, p1: int, s2: Seq<char>, p2: int, q: int, hex: bool)
    requires
        same_rest(s1, p1, s2, p2),
        p1 <= q <= s1.len(),
    ensures
        digit_run_end(s1, q, hex) - q == digit_run_end(s2, q - p1 + p2, hex) - (q - p1 + p2),
        q <= digit_run_end(s1, q, hex) <= s1.len(),
    decreases s1.len() - q,
{
    lemma_chars(s1, p1, s2, p2);
    if q < s1.len() && (if hex { is_hex_digit(s1[q]) } else { is_dec_digit(s1[q]) }) {
        lemma_digit_run_rest(s1, p1, s2, p2, q + 1, hex);
    }
}

pub proof fn lemma_non_zero_u32_reads_rest()
    ensures
        reads_rest(&NonZeroU32Parser),
{
    assert forall|s1: Seq<char>, p1: int, s2: Seq<char>, p2: int|
        #![trigger NonZeroU32Parser.spec_parse(s1, p1), NonZeroU32Parser.spec_parse(s2, p2)]
        same_rest(s1, p1, s2, p2) implies reads_rest_at(&NonZeroU32Parser, s1, p1, s2, p2) by {
        lemma_chars(s1, p1, s2, p2);
        let (start, hex) = u32_digits_start(s1, p1);
        assert(u32_digits_start(s2, p2) == (start - p1 + p2, hex));
        lemma_digit_run_rest(s1, p1, s2, p2, start, hex);
        let end = digit_run_end(s1, start, hex);
        assert(s1.subrange(start, end) == s2.subrange(start - p1 + p2, end - p1 + p2));
    }
    lemma_reads_rest_intro(&NonZeroU32Parser);
}

pub proof fn lemma_non_zero_i32_reads_rest()
    ensures
        reads_rest(&NonZeroI32Parser),
{
    assert forall|s1: Seq<char>, p1: int, s2: Seq<char>, p2: int|
        #![trigger NonZeroI32Parser.spec_parse(s1, p1), NonZeroI32Parser.spec_parse(s2, p2)]
        same_rest(s1, p1, s2, p2) implies reads_rest_at(&NonZeroI32Parser, s1, p1, s2, p2) by {
        lemma_chars(s1, p1, s2, p2);
        if p1 < s1.len() {
            lemma_digit_run_rest(s1, p1, s2, p2, p1 + 1, false);
            let end = digit_run_end(s1, p1 + 1, false);
            assert(s1.subrange(p1 + 1, end) == s2.subrange(p1 + 1 - p1 + p2, end - p1 + p2));
            assert(s1.subrange(p1, end) == s2.subrange(p1 - p1 + p2, end - p1 + p2));
        }
    }
    lemma_reads_rest_intro(&NonZeroI32Parser);
}

proof fn lemma_unescape_rest(s1: Seq<char>, p1: int, s2: Seq<char>, p2: int, q: int, escaped: bool)
    requires
        same_rest(s1, p1, s2, p2),
        p1 <= q <= s1.len(),
    ensures
        unescape(s1, q, escaped) == match unescape(s2, q - p1 + p2, escaped) {
            Some((e, r)) => Some((e + p1 - p2, r)),
            None => None,
        },
        unescape(s1, q, escaped) matches Some((e, _)) ==> q < e <= s1.len(),
    decreases s1.len() - q,
{
    lemma_chars(s1, p1, s2, p2);
    if q < s1.len() {
        lemma_unescape_rest(s1, p1, s2, p2, q + 1, true);
        lemma_unescape_rest(s1, p1, s2, p2, q + 1, false);
    }
}

pub proof fn lemma_unquote_reads_rest()
    ensures
        reads_rest(&Unquote),
{
    assert forall|s1: Seq<char>, p1: int, s2: Seq<char>, p2: int|
        #![trigger Unquote.spec_parse(s1, p1), Unquote.spec_parse(s2, p2)]
        same_rest(s1, p1, s2, p2) implies reads_rest_at(&Unquote, s1, p1, s2, p2) by {
        lemma_chars(s1, p1, s2, p2);
        if p1 < s1.len() {
            lemma_unescape_rest(s1, p1, s2, p2, p1 + 1, false);
        }
    }
    lemma_reads_rest_intro(&Unquote);
}

proof fn lemma_quoted_id_rest(s1: Seq<char>, p1: int, s2: Seq<char>, p2: int)
    requires
        same_rest(s1, p1, s2, p2),
    ensures
        spec_quoted_id(s1, p1) == shifted(spec_quoted_id(s2, p2), p1 - p2),
        spec_quoted_id(s1, p1) matches Ok((e, _)) ==> p1 <= e <= s1.len(),
{
    lemma_chars(s1, p1, s2, p2);
    if p1 < s1.len() {
        lemma_unescape_rest(s1, p1, s2, p2, p1 + 1, false);
    }
}

pub proof fn lemma_user_id_reads_rest()
    ensures
        reads_rest(&ParseUserId),
{
    assert forall|s1: Seq<char>, p1: int, s2: Seq<char>, p2: int|
        #![trigger ParseUserId.spec_parse(s1, p1), ParseUserId.spec_parse(s2, p2)]
        same_rest(s1, p1, s2, p2) implies reads_rest_at(&ParseUserId, s1, p1, s2, p2) by {
        lemma_quoted_id_rest(s1, p1, s2, p2);
    }
    lemma_reads_rest_intro(&ParseUserId);
}

pub proof fn lemma_asset_identifier_reads_rest()
    ensures
        reads_rest(&ParseAssetIdentifier),
{
    assert forall|s1: Seq<char>, p1: int, s2: Seq<char>, p2: int|
        #![trigger ParseAssetIdentifier.spec_parse(s1, p1), ParseAssetIdentifier.spec_parse(s2, p2)]
        same_rest(s1, p1, s2, p2) implies reads_rest_at(&ParseAssetIdentifier, s1, p1, s2, p2) by {
        lemma_quoted_id_rest(s1, p1, s2, p2);
    }
    lemma_reads_rest_intro(&ParseAssetIdentifier);
}

proof fn lemma_first_quote_rest(s1: Seq<char>, p1: int, s2: Seq<char>, p2: int, q: int)
    requires
        same_rest(s1, p1, s2, p2),
        p1 <= q <= s1.len(),
    ensures
        first_quote(s1, q) - q == first_quote(s2, q - p1 + p2) - (q - p1 + p2),
        q <= first_quote(s1, q) <= s1.len(),
    decreases s1.len() - q,
{
    lemma_chars(s1, p1, s2, p2);
    if q < s1.len() && s1[q] != '"' {
        lemma_first_quote_rest(s1, p1, s2, p2, q + 1);
    }
}

pub proof fn lemma_quoted_tag_reads_rest(t: QuotedTag)
    ensures
        reads_rest(&t),
{
    assert forall|s1: Seq<char>, p1: int, s2: Seq<char>, p2: int|
        #![trigger t.spec_parse(s1, p1), t.spec_parse(s2, p2)]
        same_rest(s1, p1, s2, p2) implies reads_rest_at(&t, s1, p1, s2, p2) by {
        lemma_chars(s1, p1, s2, p2);
        if p1 < s1.len() {
            lemma_first_quote_rest(s1, p1, s2, p2, p1 + 1);
            let q = first_quote(s1, p1 + 1);
            if q < s1.len() && q > p1 + 1 {
                assert(s1[q - 1] == s2[q - 1 - p1 + p2]);
                assert(s1.subrange(p1 + 1, q) == s2.subrange(p1 + 1 - p1 + p2, q - p1 + p2));
            }
        }
    }
    lemma_reads_rest_intro(&t);
}

/// A pair `"key": value,` reads only what follows its position where its value does.
pub proof fn lemma_spec_key_value_reads_rest<'a, T: Parser<'a>>(key: &'static str, value: T)
    requires
        reads_rest(&value),
    ensures
        reads_rest(&spec_key_value(key, value)),
{
    let kv = spec_key_value(key, value);
    let d = kv.parser;
    lemma_quoted_tag_reads_rest(QuotedTag(Tag(key)));
    lemma_strip_whitespace_reads_rest(d.prefix_to_ignore.parser.0);
    lemma_tag_reads_rest(Tag(":"));
    lemma_strip_whitespace_reads_rest(d.prefix_to_ignore.parser.1);
    lemma_all2_reads_rest(d.prefix_to_ignore);
    lemma_strip_whitespace_reads_rest(d.dest_parser);
    lemma_tag_reads_rest(Tag(","));
    lemma_strip_whitespace_reads_rest(d.suffix_to_ignore);
    lemma_delimited_reads_rest(d);
    lemma_key_value_reads_rest(kv);
}

/// A label, whitespace and a value read only what follows their position where the
/// value does.
pub proof fn lemma_label_then_reads_rest<'a, T: Parser<'a>>(
    p: Preceded<StripWhitespace<Tag>, T>,
)
    requires
        reads_rest(&p.dest_parser),
    ensures
        reads_rest(&p),
{
    lemma_tag_reads_rest(p.prefix_to_ignore.parser);
    lemma_strip_whitespace_reads_rest(p.prefix_to_ignore);
    lemma_preceded_reads_rest(p);
}

/// A tag and a value read only what follows their position where the value does.
pub proof fn lemma_tag_then_reads_rest<'a, T: Parser<'a>>(p: Preceded<Tag, T>)
    requires
        reads_rest(&p.dest_parser),
    ensures
        reads_rest(&p),
{
    lemma_tag_reads_rest(p.prefix_to_ignore);
    lemma_preceded_reads_rest(p);
}

/// The items of a list written one after the other, each followed by a comma.
pub open spec fn list_text(items: Seq<Seq<char>>) -> Seq<char>
    decreases items.len(),
{
    if items.len() == 0 {
        Seq::empty()
    } else {
        items[0] + seq![','] + list_text(items.drop_first())
    }
}

proof fn lemma_list_items_text<'a, T: Parser<'a>>(
    p: T,
    items: Seq<Seq<char>>,
    vals: Seq<<T::Dest as DeepView>::V>,
    t: Seq<char>,
    acc: Seq<<T::Dest as DeepView>::V>,
)
    requires
        reads_rest(&p),
        items.len() == vals.len(),
        forall|i: int, x: Seq<char>|
            0 <= i < items.len() ==> #[trigger] p.spec_parse(items[i] + seq![','] + x, 0) == Ok::<
                (int, <T::Dest as DeepView>::V),
                ParsingError,
            >((items[i].len() as int, vals[i])),
        forall|i: int|
            0 <= i < items.len() ==> !is_ws(#[trigger] (items[i] + seq![','])[0]) && (items[i]
                + seq![','])[0] != ']',
    ensures
        list_items(&p, list_text(items) + seq![']'] + t, 0, acc) == Ok::<
            (int, Seq<<T::Dest as DeepView>::V>),
            ParsingError,
        >((skip_ws(list_text(items) + seq![']'] + t, list_text(items).len() + 1int), acc + vals)),
    decreases items.len(),
{
    let u = list_text(items) + seq![']'] + t;
    if items.len() == 0 {
        assert(list_text(items) =~= Seq::<char>::empty());
        assert(u[0] == ']');
        assert(acc + vals =~= acc);
    } else {
        let rest_items = items.drop_first();
        let rest_vals = vals.drop_first();
        let u2 = list_text(rest_items) + seq![']'] + t;
        let e0 = items[0];
        let n0 = e0.len() as int;
        assert(u =~= e0 + seq![','] + u2);
        assert(p.spec_parse(e0 + seq![','] + u2, 0) == Ok::<
            (int, <T::Dest as DeepView>::V),
            ParsingError,
        >((n0, vals[0])));
        assert((e0 + seq![','])[0] == u[0]);
        assert(u[n0] == ',');
        assert(!is_ws(','));
        assert(skip_ws(u, n0) == n0);
        if rest_items.len() > 0 {
            assert((rest_items[0] + seq![','])[0] == u2[0]);
            assert(!is_ws((items[1] + seq![','])[0]));
        } else {
            assert(list_text(rest_items) =~= Seq::<char>::empty());
            assert(u2[0] == ']');
        }
        assert(u[n0 + 1] == u2[0]);
        assert(skip_ws(u, n0 + 1) == n0 + 1);
        assert forall|i: int, x: Seq<char>| 0 <= i < rest_items.len() implies #[trigger] p.spec_parse(
            rest_items[i] + seq![','] + x,
            0,
        ) == Ok::<(int, <T::Dest as DeepView>::V), ParsingError>(
            (rest_items[i].len() as int, rest_vals[i]),
        ) by {
            assert(rest_items[i] == items[i + 1]);
            assert(p.spec_parse(items[i + 1] + seq![','] + x, 0) == Ok::<
                (int, <T::Dest as DeepView>::V),
                ParsingError,
            >((items[i + 1].len() as int, vals[i + 1])));
        }
        assert forall|i: int| 0 <= i < rest_items.len() implies !is_ws(
            #[trigger] (rest_items[i] + seq![','])[0],
        ) && (rest_items[i] + seq![','])[0] != ']' by {
            assert(rest_items[i] == items[i + 1]);
            assert(!is_ws((items[i + 1] + seq![','])[0]));
        }
        lemma_list_items_text(p, rest_items, rest_vals, t, acc.push(vals[0]));
        assert(u.len() == n0 + 1 + u2.len());
        assert(u.skip(n0 + 1) =~= u2);
        assert(u2.skip(0) =~= u2);
        assert(same_rest(u, n0 + 1, u2, 0));
        lemma_list_items_rest(&p, u, n0 + 1, u2, 0, n0 + 1, acc.push(vals[0]));
        lemma_ws_steps(u, n0 + 1, u2, 0);
        assert(list_text(items).len() + 1 == n0 + 1 + list_text(rest_items).len() + 1);
        assert(acc.push(vals[0]) + rest_vals =~= acc + vals);
    }
}

/// A list reads its items one by one. For any item parser of the library (each one
/// reads only what follows its position, see [ReadsRest]): where it reads each item, followed
/// by a comma and whatever comes after, as the item's value, the list
/// `[item,item,...,]` gives those values in order and stops where the text after it
/// starts (after any whitespace there). An item starts neither with whitespace nor
/// with `]`.
pub proof fn lemma_list_reads_items<'a, T: ReadsRest<'a>>(
    p: T,
    items: Seq<Seq<char>>,
    vals: Seq<<T::Dest as DeepView>::V>,
    t: Seq<char>,
)
    requires
        items.len() == vals.len(),
        forall|i: int, x: Seq<char>|
            0 <= i < items.len() ==> #[trigger] p.spec_parse(items[i] + seq![','] + x, 0) == Ok::<
                (int, <T::Dest as DeepView>::V),
                ParsingError,
            >((items[i].len() as int, vals[i])),
        forall|i: int|
            0 <= i < items.len() ==> !is_ws(#[trigger] (items[i] + seq![','])[0]) && (items[i]
                + seq![','])[0] != ']',
    ensures
        ({
            let s = seq!['['] + list_text(items) + seq![']'] + t;
            (List { parser: p }).spec_parse(s, 0) == Ok::<
                (int, Seq<<T::Dest as DeepView>::V>),
                ParsingError,
            >((skip_ws(s, list_text(items).len() + 2int), vals))
        }),
{
    p.lemma_reads_rest();
    let s = seq!['['] + list_text(items) + seq![']'] + t;
    let u = list_text(items) + seq![']'] + t;
    lemma_list_items_text(p, items, vals, t, Seq::empty());
    assert(Seq::<<T::Dest as DeepView>::V>::empty() + vals =~= vals);
    assert(s =~= seq!['['] + u);
    assert(!is_ws('['));
    assert(skip_ws(s, 0) == 0);
    if items.len() > 0 {
        assert((items[0] + seq![','])[0] == u[0]);
        assert(!is_ws((items[0] + seq![','])[0]));
    } else {
        assert(list_text(items) =~= Seq::<char>::empty());
        assert(u[0] == ']');
    }
    assert(s[1] == u[0]);
    assert(skip_ws(s, 1) == 1);
    assert(s.len() == 1 + u.len());
    assert(s.skip(1) =~= u);
    assert(u.skip(0) =~= u);
    assert(same_rest(s, 1, u, 0));
    lemma_list_items_rest(&p, s, 1, u, 0, 1, Seq::empty());
    lemma_ws_steps(s, 1, u, 0);
}

proof fn lemma_list_items_error<'a, T: Parser<'a>>(
    p: T,
    items: Seq<Seq<char>>,
    vals: Seq<<T::Dest as DeepView>::V>,
    f: Seq<char>,
    err: ParsingError,
    acc: Seq<<T::Dest as DeepView>::V>,
)
    requires
        reads_rest(&p),
        items.len() == vals.len(),
        forall|i: int, x: Seq<char>|
            0 <= i < items.len() ==> #[trigger] p.spec_parse(items[i] + seq![','] + x, 0) == Ok::<
                (int, <T::Dest as DeepView>::V),
                ParsingError,
            >((items[i].len() as int, vals[i])),
        forall|i: int|
            0 <= i < items.len() ==> !is_ws(#[trigger] (items[i] + seq![','])[0]) && (items[i]
                + seq![','])[0] != ']',
        f.len() > 0,
        f[0] != ']',
        !is_ws(f[0]),
        p.spec_parse(f, 0) == Err::<(int, <T::Dest as DeepView>::V), ParsingError>(err),
    ensures
        list_items(&p, list_text(items) + f, 0, acc) == Err::<
            (int, Seq<<T::Dest as DeepView>::V>),
            ParsingError,
        >(err),
    decreases items.len(),
{
    let u = list_text(items) + f;
    if items.len() == 0 {
        assert(list_text(items) =~= Seq::<char>::empty());
        assert(u =~= f);
    } else {
        let rest_items = items.drop_first();
        let rest_vals = vals.drop_first();
        let u2 = list_text(rest_items) + f;
        let e0 = items[0];
        let n0 = e0.len() as int;
        assert(u =~= e0 + seq![','] + u2);
        assert(p.spec_parse(e0 + seq![','] + u2, 0) == Ok::<
            (int, <T::Dest as DeepView>::V),
            ParsingError,
        >((n0, vals[0])));
        assert((e0 + seq![','])[0] == u[0]);
        assert(u[n0] == ',');
        assert(!is_ws(','));
        assert(skip_ws(u, n0) == n0);
        if rest_items.len() > 0 {
            assert((rest_items[0] + seq![','])[0] == u2[0]);
            assert(!is_ws((items[1] + seq![','])[0]));
        } else {
            assert(list_text(rest_items) =~= Seq::<char>::empty());
            assert(u2 =~= f);
        }
        assert(u[n0 + 1] == u2[0]);
        assert(skip_ws(u, n0 + 1) == n0 + 1);
        assert forall|i: int, x: Seq<char>| 0 <= i < rest_items.len() implies #[trigger] p.spec_parse(
            rest_items[i] + seq![','] + x,
            0,
        ) == Ok::<(int, <T::Dest as DeepView>::V), ParsingError>(
            (rest_items[i].len() as int, rest_vals[i]),
        ) by {
            assert(rest_items[i] == items[i + 1]);
            assert(p.spec_parse(items[i + 1] + seq![','] + x, 0) == Ok::<
                (int, <T::Dest as DeepView>::V),
                ParsingError,
            >((items[i + 1].len() as int, vals[i + 1])));
        }
        assert forall|i: int| 0 <= i < rest_items.len() implies !is_ws(
            #[trigger] (rest_items[i] + seq![','])[0],
        ) && (rest_items[i] + seq![','])[0] != ']' by {
            assert(rest_items[i] == items[i + 1]);
            assert(!is_ws((items[i + 1] + seq![','])[0]));
        }
        lemma_list_items_error(p, rest_items, rest_vals, f, err, acc.push(vals[0]));
        assert(u.len() == n0 + 1 + u2.len());
        assert(u.skip(n0 + 1) =~= u2);
        assert(u2.skip(0) =~= u2);
        assert(same_rest(u, n0 + 1, u2, 0));
        lemma_list_items_rest(&p, u, n0 + 1, u2, 0, n0 + 1, acc.push(vals[0]));
    }
}

/// A list hands back an item's error unchanged. For any item parser of the library
/// ([ReadsRest]): where it reads the items
/// before as in [lemma_list_reads_items] and then fails with `err` on the text `f`
/// that follows them (an item that starts neither with whitespace nor with `]`), the
/// list `[item,...,item,` followed by `f` fails with that same `err`.
pub proof fn lemma_list_passes_item_error<'a, T: ReadsRest<'a>>(
    p: T,
    items: Seq<Seq<char>>,
    vals: Seq<<T::Dest as DeepView>::V>,
    f: Seq<char>,
    err: ParsingError,
)
    requires
        items.len() == vals.len(),
        forall|i: int, x: Seq<char>|
            0 <= i < items.len() ==> #[trigger] p.spec_parse(items[i] + seq![','] + x, 0) == Ok::<
                (int, <T::Dest as DeepView>::V),
                ParsingError,
            >((items[i].len() as int, vals[i])),
        forall|i: int|
            0 <= i < items.len() ==> !is_ws(#[trigger] (items[i] + seq![','])[0]) && (items[i]
                + seq![','])[0] != ']',
        f.len() > 0,
        f[0] != ']',
        !is_ws(f[0]),
        p.spec_parse(f, 0) == Err::<(int, <T::Dest as DeepView>::V), ParsingError>(err),
    ensures
        (List { parser: p }).spec_parse(seq!['['] + list_text(items) + f, 0) == Err::<
            (int, Seq<<T::Dest as DeepView>::V>),
            ParsingError,
        >(err),
{
    p.lemma_reads_rest();
    let s = seq!['['] + list_text(items) + f;
    let u = list_text(items) + f;
    lemma_list_items_error(p, items, vals, f, err, Seq::empty());
    assert(s =~= seq!['['] + u);
    assert(!is_ws('['));
    assert(skip_ws(s, 0) == 0);
    if items.len() > 0 {
        assert((items[0] + seq![','])[0] == u[0]);
        assert(!is_ws((items[0] + seq![','])[0]));
    } else {
        assert(list_text(items) =~= Seq::<char>::empty());
        assert(u =~= f);
    }
    assert(s[1] == u[0]);
    assert(skip_ws(s, 1) == 1);
    assert(s.len() == 1 + u.len());
    assert(s.skip(1) =~= u);
    assert(u.skip(0) =~= u);
    assert(same_rest(s, 1, u, 0));
    lemma_list_items_rest(&p, s, 1, u, 0, 1, Seq::empty());
}

/// A parser that is proved to read only what follows its position. Every parser of
/// this library is one.
pub trait ReadsRest<'a>: Parser<'a> + Sized {
    proof fn lemma_reads_rest(&self)
        ensures
            reads_rest(self),
    ;
}

impl<'a> ReadsRest<'a> for Tag {
    proof fn lemma_reads_rest(&self) {
        lemma_tag_reads_rest(*self);
    }
}

impl<'a> ReadsRest<'a> for QuotedTag {
    proof fn lemma_reads_rest(&self) {
        lemma_quoted_tag_reads_rest(*self);
    }
}

impl<'a> ReadsRest<'a> for Unquote {
    proof fn lemma_reads_rest(&self) {
        lemma_unquote_reads_rest();
    }
}

impl<'a> ReadsRest<'a> for ParseUserId {
    proof fn lemma_reads_rest(&self) {
        lemma_user_id_reads_rest();
    }
}

impl<'a> ReadsRest<'a> for ParseAssetIdentifier {
    proof fn lemma_reads_rest(&self) {
        lemma_asset_identifier_reads_rest();
    }
}

impl<'a> ReadsRest<'a> for AsIs {
    proof fn lemma_reads_rest(&self) {
        lemma_as_is_reads_rest();
    }
}

impl<'a> ReadsRest<'a> for NonZeroU32Parser {
    proof fn lemma_reads_rest(&self) {
        lemma_non_zero_u32_reads_rest();
    }
}

impl<'a> ReadsRest<'a> for NonZeroI32Parser {
    proof fn lemma_reads_rest(&self) {
        lemma_non_zero_i32_reads_rest();
    }
}

impl<'a> ReadsRest<'a> for Byte {
    proof fn lemma_reads_rest(&self) {
        lemma_byte_reads_rest();
    }
}

impl<'a, T: ReadsRest<'a>> ReadsRest<'a> for StripWhitespace<T> {
    proof fn lemma_reads_rest(&self) {
        self.parser.lemma_reads_rest();
        lemma_strip_whitespace_reads_rest(*self);
    }
}

impl<'a, A: ReadsRest<'a>, B: ReadsRest<'a>, C: ReadsRest<'a>> ReadsRest<'a> for Delimited<A, B, C> {
    proof fn lemma_reads_rest(&self) {
        self.prefix_to_ignore.lemma_reads_rest();
        self.dest_parser.lemma_reads_rest();
        self.suffix_to_ignore.lemma_reads_rest();
        lemma_delimited_reads_rest(*self);
    }
}

impl<'a, T: ReadsRest<'a>, M: Mapping<T::Dest>> ReadsRest<'a> for Mapped<T, M> {
    proof fn lemma_reads_rest(&self) {
        self.parser.lemma_reads_rest();
        lemma_mapped_reads_rest(*self);
    }
}

impl<'a, T: ReadsRest<'a>, C: Validation<T::Dest>> ReadsRest<'a> for Refined<T, C> {
    proof fn lemma_reads_rest(&self) {
        self.parser.lemma_reads_rest();
        lemma_refined_reads_rest(*self);
    }
}

impl<'a, A: ReadsRest<'a>, B: ReadsRest<'a>> ReadsRest<'a> for Preceded<A, B> {
    proof fn lemma_reads_rest(&self) {
        self.prefix_to_ignore.lemma_reads_rest();
        self.dest_parser.lemma_reads_rest();
        lemma_preceded_reads_rest(*self);
    }
}

impl<'a, T: ReadsRest<'a>> ReadsRest<'a> for KeyValue<T> {
    proof fn lemma_reads_rest(&self) {
        self.parser.lemma_reads_rest();
        lemma_key_value_reads_rest(*self);
    }
}

impl<'a, T: ReadsRest<'a>> ReadsRest<'a> for List<T> {
    proof fn lemma_reads_rest(&self) {
        self.parser.lemma_reads_rest();
        lemma_list_reads_rest(*self);
    }
}

impl<'a, T: ReadsRest<'a>> ReadsRest<'a> for Take<T> {
    proof fn lemma_reads_rest(&self) {
        self.parser.lemma_reads_rest();
        lemma_take_reads_rest(*self);
    }
}

impl<'a, A0: ReadsRest<'a>, A1: ReadsRest<'a>> ReadsRest<'a> for All<(A0, A1)> {
    proof fn lemma_reads_rest(&self) {
        self.parser.0.lemma_reads_rest();
        self.parser.1.lemma_reads_rest();
        lemma_all2_reads_rest(*self);
    }
}

impl<'a, A0: ReadsRest<'a>, A1: ReadsRest<'a>, A2: ReadsRest<'a>> ReadsRest<'a> for All<(A0, A1, A2)> {
    proof fn lemma_reads_rest(&self) {
        self.parser.0.lemma_reads_rest();
        self.parser.1.lemma_reads_rest();
        self.parser.2.lemma_reads_rest();
        lemma_all3_reads_rest(*self);
    }
}

impl<'a, A0: ReadsRest<'a>, A1: ReadsRest<'a>, A2: ReadsRest<'a>, A3: ReadsRest<'a>> ReadsRest<'a> for All<(A0, A1, A2, A3)> {
    proof fn lemma_reads_rest(&self) {
        self.parser.0.lemma_reads_rest();
        self.parser.1.lemma_reads_rest();
        self.parser.2.lemma_reads_rest();
        self.parser.3.lemma_reads_rest();
        lemma_all4_reads_rest(*self);
    }
}

impl<'a, A0: ReadsRest<'a>, A1: ReadsRest<'a>> ReadsRest<'a> for Permutation<(A0, A1)> {
    proof fn lemma_reads_rest(&self) {
        self.parsers.0.lemma_reads_rest();
        self.parsers.1.lemma_reads_rest();
        lemma_permutation2_reads_rest(*self);
    }
}

impl<'a, A0: ReadsRest<'a>, A1: ReadsRest<'a>, A2: ReadsRest<'a>> ReadsRest<'a> for Permutation<(A0, A1, A2)> {
    proof fn lemma_reads_rest(&self) {
        self.parsers.0.lemma_reads_rest();
        self.parsers.1.lemma_reads_rest();
        self.parsers.2.lemma_reads_rest();
        lemma_permutation3_reads_rest(*self);
    }
}

impl<'a, A0, A1, D: DeepView> ReadsRest<'a> for Alt<(A0, A1)> where
    A0: ReadsRest<'a> + Parser<'a, Dest = D>,
    A1: ReadsRest<'a> + Parser<'a, Dest = D>,
 {
    proof fn lemma_reads_rest(&self) {
        self.parser.0.lemma_reads_rest();
        self.parser.1.lemma_reads_rest();
        lemma_alt2_reads_rest(*self);
    }
}

impl<'a, A0, A1, A2, D: DeepView> ReadsRest<'a> for Alt<(A0, A1, A2)> where
    A0: ReadsRest<'a> + Parser<'a, Dest = D>,
    A1: ReadsRest<'a> + Parser<'a, Dest = D>,
    A2: ReadsRest<'a> + Parser<'a, Dest = D>,
 {
    proof fn lemma_reads_rest(&self) {
        self.parser.0.lemma_reads_rest();
        self.parser.1.lemma_reads_rest();
        self.parser.2.lemma_reads_rest();
        lemma_alt3_reads_rest(*self);
    }
}

impl<'a, A0, A1, A2, A3, D: DeepView> ReadsRest<'a> for Alt<(A0, A1, A2, A3)> where
    A0: ReadsRest<'a> + Parser<'a, Dest = D>,
    A1: ReadsRest<'a> + Parser<'a, Dest = D>,
    A2: ReadsRest<'a> + Parser<'a, Dest = D>,
    A3: ReadsRest<'a> + Parser<'a, Dest = D>,
 {
    proof fn lemma_reads_rest(&self) {
        self.parser.0.lemma_reads_rest();
        self.parser.1.lemma_reads_rest();
        self.parser.2.lemma_reads_rest();
        self.parser.3.lemma_reads_rest();
        lemma_alt4_reads_rest(*self);
    }
}

impl<'a, A0, A1, A2, A3, A4, A5, A6, A7, D: DeepView> ReadsRest<'a> for Alt<(A0, A1, A2, A3, A4, A5, A6, A7)> where
    A0: ReadsRest<'a> + Parser<'a, Dest = D>,
    A1: ReadsRest<'a> + Parser<'a, Dest = D>,
    A2: ReadsRest<'a> + Parser<'a, Dest = D>,
    A3: ReadsRest<'a> + Parser<'a, Dest = D>,
    A4: ReadsRest<'a> + Parser<'a, Dest = D>,
    A5: ReadsRest<'a> + Parser<'a, Dest = D>,
    A6: ReadsRest<'a> + Parser<'a, Dest = D>,
    A7: ReadsRest<'a> + Parser<'a, Dest = D>,
 {
    proof fn lemma_reads_rest(&self) {
        self.parser.0.lemma_reads_rest();
        self.parser.1.lemma_reads_rest();
        self.parser.2.lemma_reads_rest();
        self.parser.3.lemma_reads_rest();
        self.parser.4.lemma_reads_rest();
        self.parser.5.lemma_reads_rest();
        self.parser.6.lemma_reads_rest();
        self.parser.7.lemma_reads_rest();
        lemma_alt8_reads_rest(*self);
    }
}

} // verus!
