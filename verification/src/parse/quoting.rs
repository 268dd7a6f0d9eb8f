//! Quoted strings, fixed texts and the identifiers read from quotes.
use vstd::prelude::*;
use std::borrow::Cow;
use crate::domain::{AssetIdentifier, UserId};
use crate::error::ParsingError;
use crate::parse::{Parser, SpecResult};
use crate::text::{Input, str_chars};

verus! {

broadcast use vstd::string::group_string_axioms;

/// `String::push`: appends a character.
#[verifier::external_body]
fn string_push(s: &mut String, c: char)
    ensures
        final(s)@ == old(s)@.push(c),
{
    s.push(c);
}

/// A character that must be preceded by a backslash inside quotes.
pub open spec fn needs_escape(c: char) -> bool {
    c == '\\' || c == '"'
}

/// How one character is written inside quotes.
pub open spec fn escape_char(c: char) -> Seq<char> {
    if needs_escape(c) {
        seq!['\\', c]
    } else {
        seq![c]
    }
}

/// How a text is written inside quotes: each `\` and `"` preceded by a backslash.
pub open spec fn escape(t: Seq<char>) -> Seq<char>
    decreases t.len(),
{
    if t.len() == 0 {
        Seq::empty()
    } else {
        escape_char(t[0]) + escape(t.drop_first())
    }
}

/// A text in quotes.
pub open spec fn quoted(t: Seq<char>) -> Seq<char> {
    seq!['"'] + escape(t) + seq!['"']
}

proof fn lemma_escape_push(t: Seq<char>, c: char)
    ensures
        escape(t.push(c)) == escape(t) + escape_char(c),
    decreases t.len(),
{
    if t.len() == 0 {
        assert(t.push(c).drop_first() =~= Seq::<char>::empty());
        assert(t.push(c)[0] == c);
        assert(escape(Seq::<char>::empty()) == Seq::<char>::empty());
        assert(escape(t.push(c)) == escape_char(c) + escape(Seq::<char>::empty()));
        assert(escape(t.push(c)) =~= escape(t) + escape_char(c));
    } else {
        assert(t.push(c).drop_first() =~= t.drop_first().push(c));
        assert(t.push(c)[0] == t[0]);
        assert(escape(t) == escape_char(t[0]) + escape(t.drop_first()));
        lemma_escape_push(t.drop_first(), c);
        assert(escape(t.push(c)) == escape_char(t[0]) + escape(t.drop_first().push(c)));
        assert(escape(t.push(c)) =~= escape(t) + escape_char(c));
    }
}

/// Wraps a text in quotes, escaping the quotes and backslashes it holds.
pub fn quote(input: &str) -> (r: String)
    ensures
        r@ == quoted(input@),
{
    let chars = str_chars(input);
    let mut result = String::new();
    string_push(&mut result, '"');
    let mut i: usize = 0;
    while i < chars.len()
        invariant
            i <= chars@.len(),
            chars@ == input@,
            result@ == seq!['"'] + escape(chars@.take(i as int)),
        decreases chars@.len() - i,
    {
        let c = chars[i];
        proof {
            assert(chars@.take(i + 1) =~= chars@.take(i as int).push(c));
            lemma_escape_push(chars@.take(i as int), c);
        }
        if c == '\\' || c == '"' {
            string_push(&mut result, '\\');
        }
        string_push(&mut result, c);
        assert(result@ =~= seq!['"'] + escape(chars@.take(i + 1)));
        i = i + 1;
    }
    string_push(&mut result, '"');
    assert(chars@.take(chars@.len() as int) =~= input@);
    assert(result@ =~= quoted(input@));
    result
}

/// Reads quoted text from `i`, just after the opening quote, up to the closing quote:
/// where it ends and the text with its escapes undone. A backslash is dropped and the
/// character after it kept as it is.
pub open spec fn unescape(s: Seq<char>, i: int, escaped: bool) -> Option<(int, Seq<char>)>
    decreases s.len() - i,
{
    if i < 0 || i >= s.len() {
        None
    } else if !escaped && s[i] == '\\' {
        unescape(s, i + 1, true)
    } else if !escaped && s[i] == '"' {
        Some((i + 1, Seq::empty()))
    } else {
        prepend(seq![s[i]], unescape(s, i + 1, false))
    }
}

/// Puts `p` in front of the text read.
pub open spec fn prepend(p: Seq<char>, o: Option<(int, Seq<char>)>) -> Option<(int, Seq<char>)> {
    match o {
        Some((e, r)) => Some((e, p + r)),
        None => None,
    }
}

/// Reads the quoted string at `pos`: `"abc\"def\\ghi"nice` gives `abc"def\ghi`
/// and stops before `nice`.
pub open spec fn spec_unquote(s: Seq<char>, pos: int) -> SpecResult<Seq<char>> {
    if 0 <= pos < s.len() && s[pos] == '"' {
        match unescape(s, pos + 1, false) {
            Some((e, r)) => Ok((e, r)),
            None => Err(ParsingError::ParseQuotedString),
        }
    } else {
        Err(ParsingError::ParseQuotedString)
    }
}

/// The first position at or after `i` that holds a quote or a backslash (the end when none does).
pub open spec fn first_special(s: Seq<char>, i: int) -> int
    decreases s.len() - i,
{
    if 0 <= i < s.len() && !needs_escape(s[i]) {
        first_special(s, i + 1)
    } else {
        i
    }
}

proof fn lemma_first_special(s: Seq<char>, i: int)
    requires
        0 <= i <= s.len(),
    ensures
        i <= first_special(s, i) <= s.len(),
        first_special(s, i) < s.len() ==> needs_escape(s[first_special(s, i)]),
        forall|k: int| i <= k < first_special(s, i) ==> !needs_escape(#[trigger] s[k]),
    decreases s.len() - i,
{
    if i < s.len() && !needs_escape(s[i]) {
        lemma_first_special(s, i + 1);
    }
}

/// Text without quotes or backslashes is read as it is.
proof fn lemma_unescape_plain(s: Seq<char>, b: int, i: int)
    requires
        0 <= b <= i <= s.len(),
        forall|k: int| b <= k < i ==> !needs_escape(#[trigger] s[k]),
    ensures
        unescape(s, b, false) == prepend(s.subrange(b, i), unescape(s, i, false)),
    decreases i - b,
{
    if b == i {
        assert(s.subrange(b, i) =~= Seq::<char>::empty());
        match unescape(s, i, false) {
            Some((e, r)) => {
                assert(Seq::<char>::empty() + r =~= r);
            },
            None => {},
        }
    } else {
        lemma_unescape_plain(s, b + 1, i);
        assert(!needs_escape(s[b]));
        assert(s.subrange(b, i) =~= seq![s[b]] + s.subrange(b + 1, i));
        match unescape(s, i, false) {
            Some((e, r)) => {
                assert(seq![s[b]] + (s.subrange(b + 1, i) + r) =~= s.subrange(b, i) + r);
            },
            None => {},
        }
    }
}

/// Reads a quoted string at `pos` of the input. The text is borrowed from the input
/// exactly when the closing quote comes before any backslash.
pub fn unquote_at<'a>(input: &Input<'a>, pos: usize) -> (res: Result<(usize, Cow<'a, str>), ParsingError>)
    requires
        input.wf(),
        pos <= input.chars@.len(),
    ensures
        match spec_unquote(input.chars@, pos as int) {
            Ok((e, v)) => res matches Ok((e2, d)) && e2 == e && d.deep_view() == v,
            Err(err) => res == Err::<(usize, Cow<'a, str>), ParsingError>(err),
        },
        res matches Ok((e, _)) ==> pos < e <= input.chars@.len(),
        res matches Ok((_, d)) ==> (d is Borrowed <==> input.chars@[first_special(
            input.chars@,
            pos + 1,
        )] == '"'),
{
    let n = input.chars.len();
    let ghost s = input.chars@;
    if pos >= n || input.chars[pos] != '"' {
        return Err(ParsingError::ParseQuotedString);
    }
    let b = pos + 1;
    proof {
        lemma_first_special(s, b as int);
    }
    let mut i = b;
    while i < n && input.chars[i] != '"' && input.chars[i] != '\\'
        invariant
            b <= i <= n,
            n == s.len(),
            s == input.chars@,
            first_special(s, i as int) == first_special(s, b as int),
        decreases n - i,
    {
        i = i + 1;
    }
    proof {
        lemma_unescape_plain(s, b as int, i as int);
    }
    if i == n {
        return Err(ParsingError::ParseQuotedString);
    }
    if input.chars[i] == '"' {
        let body = input.slice(b, i);
        assert(s.subrange(b as int, i as int) + Seq::<char>::empty() =~= s.subrange(
            b as int,
            i as int,
        ));
        return Ok((i + 1, Cow::Borrowed(body)));
    }
    let mut result: String = input.slice(b, i).to_owned();
    let mut escaped = false;
    let mut j = i;
    while j < n
        invariant
            b <= i <= j <= n,
            b == pos + 1,
            s[pos as int] == '"',
            n == s.len(),
            s == input.chars@,
            input.chars@[i as int] == '\\',
            first_special(s, b as int) == i,
            unescape(s, b as int, false) == prepend(result@, unescape(s, j as int, escaped)),
        decreases n - j,
    {
        let c = input.chars[j];
        if !escaped && c == '\\' {
            escaped = true;
        } else if !escaped && c == '"' {
            assert(result@ + Seq::<char>::empty() =~= result@);
            return Ok((j + 1, Cow::Owned(result)));
        } else {
            proof {
                match unescape(s, j + 1, false) {
                    Some((e, r)) => {
                        assert(result@.push(c) + r =~= result@ + (seq![c] + r));
                    },
                    None => {},
                }
            }
            string_push(&mut result, c);
            escaped = false;
        }
        j = j + 1;
    }
    Err(ParsingError::ParseQuotedString)
}

/// Reads the quoted string at the start of `input`.
pub fn do_unquote<'a>(input: &'a str) -> (res: Result<(&'a str, Cow<'a, str>), ParsingError>)
    ensures
        match spec_unquote(input@, 0) {
            Ok((e, v)) => res matches Ok((rest, d)) && rest@ == input@.skip(e) && d.deep_view()
                == v,
            Err(err) => res == Err::<(&'a str, Cow<'a, str>), ParsingError>(err),
        },
        res matches Ok((_, d)) ==> (d is Borrowed <==> input@[first_special(input@, 1)] == '"'),
{
    let inp = Input::new(input);
    match unquote_at(&inp, 0) {
        Ok((e, d)) => Ok((inp.slice(e, inp.chars.len()), d)),
        Err(err) => Err(err),
    }
}

/// Quoting a text and reading it back gives the text, whatever follows the quotes.
pub proof fn lemma_unquote_quoted(s: Seq<char>, pos: int, t: Seq<char>)
    requires
        0 <= pos,
        pos + quoted(t).len() <= s.len(),
        s.subrange(pos, pos + quoted(t).len()) == quoted(t),
    ensures
        spec_unquote(s, pos) == Ok::<(int, Seq<char>), ParsingError>((pos + quoted(t).len(), t)),
{
    let q = quoted(t);
    assert(s[pos] == q[0]);
    assert(s.subrange(pos + 1, pos + 1 + escape(t).len() + 1) =~= escape(t) + seq!['"']) by {
        assert forall|j: int| 0 <= j < escape(t).len() + 1 implies s.subrange(
            pos + 1,
            pos + 1 + escape(t).len() + 1,
        )[j] == (escape(t) + seq!['"'])[j] by {
            assert(s[pos + 1 + j] == q[1 + j]);
        }
    }
    lemma_unescape_escaped(s, pos + 1, t);
}

proof fn lemma_unescape_escaped(s: Seq<char>, i: int, t: Seq<char>)
    requires
        0 <= i,
        i + escape(t).len() + 1 <= s.len(),
        s.subrange(i, i + escape(t).len() + 1) == escape(t) + seq!['"'],
    ensures
        unescape(s, i, false) == Some((i + escape(t).len() + 1, t)),
    decreases t.len(),
{
    let w = escape(t) + seq!['"'];
    assert(s[i] == w[0]);
    if t.len() == 0 {
    } else {
        let c = t[0];
        let rest = t.drop_first();
        let k = escape_char(c).len();
        assert(escape(t) == escape_char(c) + escape(rest));
        assert(s.subrange(i + k, i + k + escape(rest).len() + 1) =~= escape(rest) + seq!['"']) by {
            assert forall|j: int| 0 <= j < escape(rest).len() + 1 implies s.subrange(
                i + k,
                i + k + escape(rest).len() + 1,
            )[j] == (escape(rest) + seq!['"'])[j] by {
                assert(s[i + k + j] == w[k + j]);
            }
        }
        lemma_unescape_escaped(s, i + k, rest);
        if needs_escape(c) {
            assert(s[i] == '\\');
            assert(s[i + 1] == w[1]);
            assert(unescape(s, i + 1, true) == prepend(seq![c], unescape(s, i + 2, false)));
            assert(seq![c] + rest =~= t);
        } else {
            assert(s[i] == c);
            assert(seq![c] + rest =~= t);
        }
    }
}


/// Parser of a quoted string; the text is borrowed from the input when it holds no escape.
#[derive(Debug, Clone, Copy)]
pub struct Unquote;

impl<'a> Parser<'a> for Unquote {
    type Dest = Cow<'a, str>;

    open spec fn spec_parse(&self, s: Seq<char>, pos: int) -> SpecResult<Seq<char>> {
        spec_unquote(s, pos)
    }

    fn parse_at(&self, input: &Input<'a>, pos: usize) -> (res: Result<(usize, Cow<'a, str>), ParsingError>) {
        unquote_at(input, pos)
    }
}

/// Constructor of [Unquote].
pub fn unquote() -> (r: Unquote)
    ensures
        r == Unquote,
{
    Unquote
}

/// Reads a quoted identifier: the quoted text, which must not be empty.
pub open spec fn spec_quoted_id(s: Seq<char>, pos: int) -> SpecResult<Seq<char>> {
    match spec_unquote(s, pos) {
        Ok((e, v)) => if v.len() == 0 {
            Err(ParsingError::ParseUserIdError)
        } else {
            Ok((e, v))
        },
        Err(err) => Err(err),
    }
}

/// Parser of a quoted [UserId].
#[derive(Debug, Clone, Copy)]
pub struct ParseUserId;

impl<'a> Parser<'a> for ParseUserId {
    type Dest = UserId;

    open spec fn spec_parse(&self, s: Seq<char>, pos: int) -> SpecResult<Seq<char>> {
        spec_quoted_id(s, pos)
    }

    fn parse_at(&self, input: &Input<'a>, pos: usize) -> (res: Result<(usize, UserId), ParsingError>) {
        match unquote_at(input, pos) {
            Ok((e, text)) => {
                let id = match &text {
                    Cow::Borrowed(t) => UserId::parse_str(t),
                    Cow::Owned(t) => UserId::parse_str(t.as_str()),
                };
                match id {
                    Ok(id) => Ok((e, id)),
                    Err(err) => Err(err),
                }
            },
            Err(err) => Err(err),
        }
    }
}

/// Constructor of [ParseUserId].
pub fn user_id() -> (r: ParseUserId)
    ensures
        r == ParseUserId,
{
    ParseUserId
}

/// Parser of a quoted [AssetIdentifier].
#[derive(Debug, Clone, Copy)]
pub struct ParseAssetIdentifier;

impl<'a> Parser<'a> for ParseAssetIdentifier {
    type Dest = AssetIdentifier;

    open spec fn spec_parse(&self, s: Seq<char>, pos: int) -> SpecResult<Seq<char>> {
        spec_quoted_id(s, pos)
    }

    fn parse_at(&self, input: &Input<'a>, pos: usize) -> (res: Result<(usize, AssetIdentifier), ParsingError>) {
        match unquote_at(input, pos) {
            Ok((e, text)) => {
                let id = match &text {
                    Cow::Borrowed(t) => AssetIdentifier::parse_str(t),
                    Cow::Owned(t) => AssetIdentifier::parse_str(t.as_str()),
                };
                match id {
                    Ok(id) => Ok((e, id)),
                    Err(err) => Err(err),
                }
            },
            Err(err) => Err(err),
        }
    }
}

/// Constructor of [ParseAssetIdentifier].
pub fn asset_identifier() -> (r: ParseAssetIdentifier)
    ensures
        r == ParseAssetIdentifier,
{
    ParseAssetIdentifier
}

/// Parser that takes the whole rest of the input as it is.
#[derive(Debug, Clone, Copy)]
pub struct AsIs;

impl<'a> Parser<'a> for AsIs {
    type Dest = &'a str;

    open spec fn spec_parse(&self, s: Seq<char>, pos: int) -> SpecResult<Seq<char>> {
        Ok((s.len() as int, s.subrange(pos, s.len() as int)))
    }

    fn parse_at(&self, input: &Input<'a>, pos: usize) -> (res: Result<(usize, &'a str), ParsingError>) {
        let n = input.chars.len();
        let rest = input.slice(pos, n);
        Ok((n, rest))
    }
}

/// `t` stands in `s` at `pos`.
pub open spec fn occurs_at(s: Seq<char>, pos: int, t: Seq<char>) -> bool {
    0 <= pos && pos + t.len() <= s.len() && s.subrange(pos, pos + t.len()) == t
}

/// Whether `t` stands in the input at `pos`.
fn occurs_at_exec(input: &Input, pos: usize, t: &Vec<char>) -> (b: bool)
    requires
        pos <= input.chars@.len(),
    ensures
        b == occurs_at(input.chars@, pos as int, t@),
{
    let n = input.chars.len();
    if t.len() > n - pos {
        return false;
    }
    let mut k: usize = 0;
    while k < t.len()
        invariant
            k <= t@.len(),
            n == input.chars@.len(),
            pos + t@.len() <= input.chars@.len(),
            forall|j: int| 0 <= j < k ==> input.chars@[pos + j] == t@[j],
        decreases t@.len() - k,
    {
        if input.chars[pos + k] != t[k] {
            assert(input.chars@.subrange(pos as int, pos + t@.len())[k as int] != t@[k as int]);
            return false;
        }
        k = k + 1;
    }
    assert(input.chars@.subrange(pos as int, pos + t@.len()) =~= t@);
    true
}

/// Parser of a fixed text (like `nom::bytes::complete::tag`).
#[derive(Debug, Clone, Copy, PartialEq, Eq)]
pub struct Tag(pub &'static str);

impl Tag {
    pub fn new(t: &'static str) -> (r: Tag)
        ensures
            r == Tag(t),
    {
        Tag(t)
    }
}

impl<'a> Parser<'a> for Tag {
    type Dest = ();

    open spec fn spec_parse(&self, s: Seq<char>, pos: int) -> SpecResult<()> {
        if occurs_at(s, pos, self.0@) {
            Ok((pos + self.0@.len(), ()))
        } else {
            Err(ParsingError::ParseTagError)
        }
    }

    fn parse_at(&self, input: &Input<'a>, pos: usize) -> (res: Result<(usize, ()), ParsingError>) {
        let t = str_chars(self.0);
        let n = input.chars.len();
        if occurs_at_exec(input, pos, &t) {
            assert(pos + t@.len() <= n);
            assert(().deep_view() == ());
            Ok((pos + t.len(), ()))
        } else {
            Err(ParsingError::ParseTagError)
        }
    }
}

/// Constructor of [Tag].
pub fn tag(t: &'static str) -> (r: Tag)
    ensures
        r == Tag(t),
{
    Tag::new(t)
}

/// The first position at or after `i` that holds a quote (the end when none does).
pub open spec fn first_quote(s: Seq<char>, i: int) -> int
    decreases s.len() - i,
{
    if 0 <= i < s.len() && s[i] != '"' {
        first_quote(s, i + 1)
    } else {
        i
    }
}

proof fn lemma_first_quote(s: Seq<char>, i: int)
    requires
        0 <= i <= s.len(),
    ensures
        i <= first_quote(s, i) <= s.len(),
        first_quote(s, i) < s.len() ==> s[first_quote(s, i)] == '"',
    decreases s.len() - i,
{
    if i < s.len() && s[i] != '"' {
        lemma_first_quote(s, i + 1);
    }
}

/// Reads a quoted text that holds no escapes: the text up to the first quote after
/// the opening one, which must not be empty nor end with a backslash.
pub open spec fn spec_unquote_non_escaped(s: Seq<char>, pos: int) -> SpecResult<Seq<char>> {
    if 0 <= pos < s.len() && s[pos] == '"' {
        let q = first_quote(s, pos + 1);
        if q >= s.len() || q == pos + 1 || s[q - 1] == '\\' {
            Err(ParsingError::ParseQuotedString)
        } else {
            Ok((q + 1, s.subrange(pos + 1, q)))
        }
    } else {
        Err(ParsingError::ParseQuotedString)
    }
}

/// Where [spec_unquote_non_escaped] ends and where its text ends.
fn unquote_non_escaped_at(input: &Input, pos: usize) -> (res: Result<(usize, usize), ParsingError>)
    requires
        pos <= input.chars@.len(),
    ensures
        match spec_unquote_non_escaped(input.chars@, pos as int) {
            Ok((e, v)) => res matches Ok((e2, q)) && e2 == e && q + 1 == e && pos < q
                && v == input.chars@.subrange(pos + 1, q as int),
            Err(err) => res == Err::<(usize, usize), ParsingError>(err),
        },
        res matches Ok((e, _)) ==> pos < e <= input.chars@.len(),
{
    let n = input.chars.len();
    if pos >= n || input.chars[pos] != '"' {
        return Err(ParsingError::ParseQuotedString);
    }
    proof {
        lemma_first_quote(input.chars@, pos + 1);
    }
    let mut q = pos + 1;
    while q < n && input.chars[q] != '"'
        invariant
            pos + 1 <= q <= n,
            n == input.chars@.len(),
            first_quote(input.chars@, q as int) == first_quote(input.chars@, pos + 1),
        decreases n - q,
    {
        q = q + 1;
    }
    if q >= n || q == pos + 1 || input.chars[q - 1] == '\\' {
        return Err(ParsingError::ParseQuotedString);
    }
    Ok((q + 1, q))
}

/// Reads a quoted text without escapes at the start of `input`.
pub fn do_unquote_non_escaped<'a>(input: &'a str) -> (res: Result<(&'a str, &'a str), ParsingError>)
    ensures
        match spec_unquote_non_escaped(input@, 0) {
            Ok((e, v)) => res matches Ok((rest, t)) && rest@ == input@.skip(e) && t@ == v,
            Err(err) => res == Err::<(&'a str, &'a str), ParsingError>(err),
        },
{
    let inp = Input::new(input);
    match unquote_non_escaped_at(&inp, 0) {
        Ok((e, q)) => Ok((inp.slice(e, inp.chars.len()), inp.slice(1, q))),
        Err(err) => Err(err),
    }
}

/// Parser of a [Tag] written in quotes: the quoted text must be the tag and nothing more.
#[derive(Debug, Clone, Copy)]
pub struct QuotedTag(pub Tag);

impl<'a> Parser<'a> for QuotedTag {
    type Dest = ();

    open spec fn spec_parse(&self, s: Seq<char>, pos: int) -> SpecResult<()> {
        match spec_unquote_non_escaped(s, pos) {
            Ok((e, v)) => if v == self.0.0@ {
                Ok((e, ()))
            } else {
                Err(ParsingError::ParseTagError)
            },
            Err(err) => Err(err),
        }
    }

    fn parse_at(&self, input: &Input<'a>, pos: usize) -> (res: Result<(usize, ()), ParsingError>) {
        match unquote_non_escaped_at(input, pos) {
            Ok((e, q)) => {
                let t = str_chars(self.0.0);
                if t.len() == q - (pos + 1) && occurs_at_exec(input, pos + 1, &t) {
                    assert(().deep_view() == ());
                    Ok((e, ()))
                } else {
                    assert(input.chars@.subrange(pos + 1, q as int).len() == q - (pos + 1));
                    Err(ParsingError::ParseTagError)
                }
            },
            Err(err) => Err(err),
        }
    }
}

/// Constructor of [QuotedTag].
pub fn quoted_tag(t: &'static str) -> (r: QuotedTag)
    ensures
        r == QuotedTag(Tag(t)),
{
    QuotedTag(Tag::new(t))
}

/// The text that a quoted body `b` stands for: each backslash dropped and the
/// character after it kept as it is. `None` where `b` holds a quote that no backslash
/// escapes, or ends in a backslash that escapes nothing.
pub open spec fn decode_escapes(b: Seq<char>) -> Option<Seq<char>>
    decreases b.len(),
{
    if b.len() == 0 {
        Some(Seq::empty())
    } else if b[0] == '\\' {
        if b.len() < 2 {
            None
        } else {
            match decode_escapes(b.skip(2)) {
                Some(d) => Some(seq![b[1]] + d),
                None => None,
            }
        }
    } else if b[0] == '"' {
        None
    } else {
        match decode_escapes(b.skip(1)) {
            Some(d) => Some(seq![b[0]] + d),
            None => None,
        }
    }
}

proof fn lemma_unescape_decodes(s: Seq<char>, i: int, b: Seq<char>)
    requires
        0 <= i,
        i + b.len() < s.len(),
        s.subrange(i, i + b.len()) == b,
        s[i + b.len()] == '"',
        decode_escapes(b) is Some,
    ensures
        unescape(s, i, false) == Some((i + b.len() + 1, decode_escapes(b).unwrap())),
    decreases b.len(),
{
    if b.len() > 0 {
        assert(s[i] == b[0]);
        if b[0] == '\\' {
            assert(s[i + 1] == b[1]);
            let b2 = b.skip(2);
            assert(s.subrange(i + 2, i + 2 + b2.len()) =~= b2);
            lemma_unescape_decodes(s, i + 2, b2);
            assert(unescape(s, i + 1, true) == prepend(seq![s[i + 1]], unescape(s, i + 2, false)));
            assert(unescape(s, i, false) == unescape(s, i + 1, true));
        } else {
            let b1 = b.skip(1);
            assert(s.subrange(i + 1, i + 1 + b1.len()) =~= b1);
            lemma_unescape_decodes(s, i + 1, b1);
            assert(unescape(s, i, false) == prepend(seq![s[i]], unescape(s, i + 1, false)));
        }
    }
}

proof fn lemma_unescape_shape(s: Seq<char>, i: int)
    requires
        0 <= i,
    ensures
        unescape(s, i, false) matches Some((e, v)) ==> i < e <= s.len() && s[e - 1] == '"'
            && decode_escapes(s.subrange(i, e - 1)) == Some(v),
    decreases s.len() - i,
{
    if i < s.len() {
        if s[i] == '\\' {
            if i + 1 < s.len() {
                lemma_unescape_shape(s, i + 2);
                assert(unescape(s, i + 1, true) == prepend(seq![s[i + 1]], unescape(s, i + 2, false)));
                if let Some((e, v)) = unescape(s, i + 2, false) {
                    let b = s.subrange(i, e - 1);
                    assert(b.skip(2) =~= s.subrange(i + 2, e - 1));
                    assert(b[0] == '\\' && b[1] == s[i + 1]);
                }
            } else {
                assert(unescape(s, i + 1, true) is None);
            }
        } else if s[i] == '"' {
            assert(s.subrange(i, i) =~= Seq::<char>::empty());
        } else {
            lemma_unescape_shape(s, i + 1);
            if let Some((e, v)) = unescape(s, i + 1, false) {
                let b = s.subrange(i, e - 1);
                assert(b.skip(1) =~= s.subrange(i + 1, e - 1));
                assert(b[0] == s[i]);
            }
        }
    }
}

/// Unquoting, said at once: a quoted string is read at `pos` exactly where `pos` holds
/// a quote, followed by a body `b` that [decode_escapes] accepts and by a closing
/// quote; it ends after that quote and gives what the body stands for. Since the body
/// holds no quote that no backslash escapes, it is the shortest one that is followed by
/// a quote. Every other text gives `ParseQuotedString`.
pub proof fn lemma_unquote_closed_form(s: Seq<char>, pos: int, b: Seq<char>)
    requires
        0 <= pos,
    ensures
        spec_unquote(s, pos) matches Ok((e, v)) ==> pos + 2 <= e <= s.len() && s[pos] == '"'
            && s[e - 1] == '"' && decode_escapes(s.subrange(pos + 1, e - 1)) == Some(v),
        spec_unquote(s, pos) is Err ==> spec_unquote(s, pos) == Err::<(int, Seq<char>), ParsingError>(
            ParsingError::ParseQuotedString,
        ),
        (pos + b.len() + 2 <= s.len() && s[pos] == '"' && s.subrange(pos + 1, pos + 1 + b.len())
            == b && s[pos + 1 + b.len()] == '"' && decode_escapes(b) is Some) ==> spec_unquote(
            s,
            pos,
        ) == Ok::<(int, Seq<char>), ParsingError>(
            (pos + b.len() + 2, decode_escapes(b).unwrap()),
        ),
{
    lemma_unescape_shape(s, pos + 1);
    if pos + b.len() + 2 <= s.len() && s[pos] == '"' && s.subrange(pos + 1, pos + 1 + b.len()) == b
        && s[pos + 1 + b.len()] == '"' && decode_escapes(b) is Some {
        lemma_unescape_decodes(s, pos + 1, b);
    }
}

} // verus!
