//! The grammar of log lines: a parser for each type of the logs, built from combinators.
use vstd::prelude::*;
use std::borrow::Cow;
use crate::domain::{
    AUTHDATA_SIZE, MIN_CAPITAL, MIN_LIQUIDITY, Announcements, AssetIdentifier, AuthData, Bucket, SpecBucket,
    SpecUserBucket, SpecUserBuckets, SpecUserCash, UserBucket, UserBuckets, UserCash, UserId,
};
use crate::log::{
    AppLogErrorKind, AppLogJournalKind, AppLogKind, AppLogTraceKind, LogKind, LogLine,
    SpecAppLogErrorKind, SpecAppLogJournalKind, SpecAppLogKind, SpecAppLogTraceKind,
    SpecLogKind, SpecLogLine, SpecSystemLogErrorKind, SpecSystemLogKind, SpecSystemLogTraceKind,
    SystemLogErrorKind, SystemLogKind, SystemLogTraceKind,
};
use crate::error::ParsingError;
use crate::parse::combinators::{
    lemma_key_values_exclusive, lemma_permutation2_any_order, take_items, Alt, All,
    Delimited, KeyValue, List, Mapped, Permutation, Preceded, Refined, StripWhitespace, Take,
    alt2, alt3, alt4, alt8, all2, delimited, key_value, list, permutation2, permutation3,
    preceded, refined, spec_key_value, strip_whitespace, take,
};
use crate::parse::quoting::{
    ParseAssetIdentifier, ParseUserId, Tag, Unquote, asset_identifier, occurs_at, tag, unquote,
    user_id,
};
use crate::parse::stdp::{Byte, NonZeroU32Parser, digit_char, lemma_digit_char};
use crate::text::{is_hex_digit, is_ws, skip_ws};
use crate::parse::locality::{
    lemma_all2_reads_rest, lemma_alt2_reads_rest, lemma_alt3_reads_rest, lemma_alt4_reads_rest,
    lemma_alt8_reads_rest, lemma_asset_identifier_reads_rest, lemma_byte_reads_rest,
    lemma_delimited_reads_rest, lemma_label_then_reads_rest, lemma_list_reads_rest,
    lemma_mapped_reads_rest, lemma_non_zero_u32_reads_rest, lemma_permutation2_reads_rest,
    lemma_permutation3_reads_rest, lemma_reads_the_rest, lemma_refined_reads_rest,
    lemma_spec_key_value_reads_rest, lemma_strip_whitespace_reads_rest, lemma_tag_reads_rest,
    lemma_tag_then_reads_rest, lemma_take_reads_rest, lemma_unquote_reads_rest,
    lemma_user_id_reads_rest, reads_rest, shifted,
};
use crate::parse::{Mapping, Parsable, Parser, SpecResult, Validation};

verus! {

/// The text of a `Cow<str>` as an owned string.
pub fn cow_into_owned(c: Cow<'_, str>) -> (s: String)
    ensures
        s@ == c.deep_view(),
{
    match c {
        Cow::Borrowed(b) => b.to_owned(),
        Cow::Owned(o) => o,
    }
}

// ----- AuthData -----

/// The bytes of authorization data: those read when there are exactly
/// [AUTHDATA_SIZE] of them, zeros otherwise.
pub open spec fn spec_authdata_bytes(v: Seq<u8>) -> Seq<u8> {
    if v.len() == AUTHDATA_SIZE {
        v
    } else {
        Seq::new(AUTHDATA_SIZE as nat, |i: int| 0u8)
    }
}

/// Makes [AuthData] of the bytes read.
#[derive(Debug, Clone, Copy)]
pub struct IntoAuthData;

impl Mapping<Vec<u8>> for IntoAuthData {
    type Out = AuthData;

    open spec fn spec_apply(&self, v: Seq<u8>) -> Seq<u8> {
        spec_authdata_bytes(v)
    }

    fn apply(&self, v: Vec<u8>) -> (o: AuthData) {
        let full = v.len() == AUTHDATA_SIZE;
        let mut arr = [0u8; AUTHDATA_SIZE];
        assert(v.deep_view() =~= v@);
        let mut i: usize = 0;
        while i < AUTHDATA_SIZE
            invariant
                i <= AUTHDATA_SIZE,
                full == (v@.len() == AUTHDATA_SIZE),
                arr@.len() == AUTHDATA_SIZE,
                forall|j: int| 0 <= j < i ==> arr@[j] == (if full { v@[j] } else { 0u8 }),
            decreases AUTHDATA_SIZE - i,
        {
            arr[i] = if full { v[i] } else { 0u8 };
            i = i + 1;
        }
        assert(arr@ =~= spec_authdata_bytes(v@));
        AuthData::new(arr)
    }
}

pub type AuthDataParser = Mapped<Take<Byte>, IntoAuthData>;

impl<'a> Parsable<'a> for AuthData {
    type Parser = AuthDataParser;

    open spec fn spec_parser() -> AuthDataParser {
        Mapped { parser: Take { count: AUTHDATA_SIZE, parser: Byte }, map: IntoAuthData }
    }

    fn parser() -> (p: AuthDataParser) {
        crate::parse::combinators::map(take(AUTHDATA_SIZE, Byte), IntoAuthData)
    }
}


proof fn lemma_take_items_len<'a, T: Parser<'a>>(
    p: &T,
    s: Seq<char>,
    pos: int,
    n: nat,
    acc: Seq<<T::Dest as DeepView>::V>,
)
    ensures
        take_items(p, s, pos, n, acc) matches Ok((_, v)) ==> v.len() == acc.len() + n,
    decreases n,
{
    if n > 0 {
        if let Ok((e, v)) = p.spec_parse(s, pos) {
            lemma_take_items_len(p, s, e, (n - 1) as nat, acc.push(v));
        }
    }
}

proof fn lemma_take_items_split<'a, T: Parser<'a>>(
    p: &T,
    s: Seq<char>,
    pos: int,
    m: nat,
    n: nat,
    acc: Seq<<T::Dest as DeepView>::V>,
)
    ensures
        take_items(p, s, pos, m + n, acc) == match take_items(p, s, pos, m, acc) {
            Ok((e, a)) => take_items(p, s, e, n, a),
            Err(err) => Err(err),
        },
    decreases m,
{
    if m > 0 {
        if let Ok((e, v)) = p.spec_parse(s, pos) {
            lemma_take_items_split(p, s, e, (m - 1) as nat, n, acc.push(v));
            assert((m + n - 1) as nat == ((m - 1) as nat + n) as nat);
        }
    }
}

/// Parsed authorization data holds exactly the bytes read: the fallback to zeros never
/// happens, since the parser succeeds only after reading [AUTHDATA_SIZE] bytes.
pub proof fn lemma_authdata_holds_bytes_read(s: Seq<char>, pos: int)
    ensures
        ({
            let bytes = Take { count: AUTHDATA_SIZE, parser: Byte };
            match <AuthData as Parsable<'_>>::spec_parser().spec_parse(s, pos) {
                Ok((e, v)) => bytes.spec_parse(s, pos) == Ok::<(int, Seq<u8>), ParsingError>((e, v))
                    && v.len() == AUTHDATA_SIZE,
                Err(err) => bytes.spec_parse(s, pos) == Err::<(int, Seq<u8>), ParsingError>(err),
            }
        }),
{
    lemma_take_items_len(&Byte, s, pos, AUTHDATA_SIZE as nat, Seq::empty());
}

/// A byte written as two lowercase hexadecimal digits, high digit first.
pub open spec fn byte_hex(b: u8) -> Seq<char> {
    seq![digit_char(b as nat / 16), digit_char(b as nat % 16)]
}

/// Bytes written one after the other, each as two hexadecimal digits.
pub open spec fn bytes_hex(d: Seq<u8>) -> Seq<char>
    decreases d.len(),
{
    if d.len() == 0 {
        Seq::empty()
    } else {
        bytes_hex(d.drop_last()) + byte_hex(d.last())
    }
}

proof fn lemma_bytes_hex_index(d: Seq<u8>)
    ensures
        bytes_hex(d).len() == 2 * d.len(),
        forall|k: int|
            0 <= k < d.len() ==> #[trigger] bytes_hex(d)[2 * k] == digit_char(d[k] as nat / 16)
                && bytes_hex(d)[2 * k + 1] == digit_char(d[k] as nat % 16),
    decreases d.len(),
{
    if d.len() > 0 {
        let init = d.drop_last();
        lemma_bytes_hex_index(init);
        assert forall|k: int| 0 <= k < d.len() implies #[trigger] bytes_hex(d)[2 * k] == digit_char(
            d[k] as nat / 16,
        ) && bytes_hex(d)[2 * k + 1] == digit_char(d[k] as nat % 16) by {
            if k < d.len() - 1 {
                assert(init[k] == d[k]);
                assert(bytes_hex(init)[2 * k] == digit_char(init[k] as nat / 16));
            }
        }
    }
}

/// A byte reader at `2k` in a text of hexadecimal pairs reads the `k`-th byte.
proof fn lemma_byte_at_pair(d: Seq<u8>, t: Seq<char>, k: int)
    requires
        0 <= k < d.len(),
    ensures
        Byte.spec_parse(bytes_hex(d) + t, 2 * k) == Ok::<(int, u8), ParsingError>((2 * k + 2, d[k])),
{
    let s = bytes_hex(d) + t;
    lemma_bytes_hex_index(d);
    let b = d[k];
    lemma_digit_char(b as nat / 16);
    lemma_digit_char(b as nat % 16);
    assert(s[2 * k] == bytes_hex(d)[2 * k]);
    assert(s[2 * k + 1] == bytes_hex(d)[2 * k + 1]);
    assert((b as nat / 16) * 16 + b as nat % 16 == b);
}

proof fn lemma_take_pairs(d: Seq<u8>, t: Seq<char>, k: nat, n: nat)
    requires
        k + n <= d.len(),
    ensures
        take_items(&Byte, bytes_hex(d) + t, 2 * k as int, n, d.take(k as int)) == Ok::<
            (int, Seq<u8>),
            ParsingError,
        >((2 * (k + n) as int, d.take((k + n) as int))),
    decreases n,
{
    if n > 0 {
        lemma_byte_at_pair(d, t, k as int);
        assert(d.take(k as int).push(d[k as int]) =~= d.take(k + 1int));
        lemma_take_pairs(d, t, k + 1, (n - 1) as nat);
    }
}

/// Authorization data written as [AUTHDATA_SIZE] bytes of two hexadecimal digits each
/// reads back as exactly those bytes, whatever follows; with fewer whole bytes,
/// followed by the end of the text or by a character that is no hexadecimal digit,
/// nothing is read.
pub proof fn lemma_authdata_reads_hex_pairs(d: Seq<u8>, t: Seq<char>)
    ensures
        d.len() == AUTHDATA_SIZE ==> <AuthData as Parsable<'_>>::spec_parser().spec_parse(
            bytes_hex(d) + t,
            0,
        ) == Ok::<(int, Seq<u8>), ParsingError>((2 * AUTHDATA_SIZE as int, d)),
        d.len() < AUTHDATA_SIZE && (t.len() == 0 || !is_hex_digit(t[0]))
            ==> <AuthData as Parsable<'_>>::spec_parser().spec_parse(bytes_hex(d) + t, 0) is Err,
{
    assert(d.take(0) =~= Seq::<u8>::empty());
    if d.len() == AUTHDATA_SIZE {
        lemma_take_pairs(d, t, 0, AUTHDATA_SIZE as nat);
        assert(d.take(AUTHDATA_SIZE as int) =~= d);
    } else if d.len() < AUTHDATA_SIZE && (t.len() == 0 || !is_hex_digit(t[0])) {
        let s = bytes_hex(d) + t;
        let m = d.len();
        lemma_take_pairs(d, t, 0, m);
        lemma_bytes_hex_index(d);
        if t.len() > 0 {
            assert(s[2 * m as int] == t[0]);
        }
        assert(Byte.spec_parse(s, 2 * m as int) is Err);
        lemma_take_items_split(&Byte, s, 0, m, (AUTHDATA_SIZE - m) as nat, Seq::empty());
    }
}

// ----- Status -----

/// A status that can be read: `Ok` ([Status::Success]) or `Err("message")`
/// ([Status::Failure]).
#[derive(Debug, PartialEq)]
pub enum Status {
    Success,
    Failure(String),
}

/// What a [Status] is.
pub enum SpecStatus {
    Success,
    Failure(Seq<char>),
}

impl DeepView for Status {
    type V = SpecStatus;

    open spec fn deep_view(&self) -> SpecStatus {
        match self {
            Status::Success => SpecStatus::Success,
            Status::Failure(m) => SpecStatus::Failure(m@),
        }
    }
}

/// Gives [Status::Success].
#[derive(Debug, Clone, Copy)]
pub struct IntoSuccess;

impl Mapping<()> for IntoSuccess {
    type Out = Status;

    open spec fn spec_apply(&self, v: ()) -> SpecStatus {
        SpecStatus::Success
    }

    fn apply(&self, v: ()) -> (o: Status) {
        Status::Success
    }
}

/// Gives [Status::Failure] with the message read.
#[derive(Debug, Clone, Copy)]
pub struct IntoFailure;

impl<'a> Mapping<Cow<'a, str>> for IntoFailure {
    type Out = Status;

    open spec fn spec_apply(&self, v: Seq<char>) -> SpecStatus {
        SpecStatus::Failure(v)
    }

    fn apply(&self, v: Cow<'a, str>) -> (o: Status) {
        Status::Failure(cow_into_owned(v))
    }
}

pub type StatusParser = Alt<
    (Mapped<Tag, IntoSuccess>, Mapped<Delimited<Tag, Unquote, Tag>, IntoFailure>),
>;

impl<'a> Parsable<'a> for Status {
    type Parser = StatusParser;

    open spec fn spec_parser() -> StatusParser {
        Alt {
            parser: (
                Mapped { parser: Tag("Ok"), map: IntoSuccess },
                Mapped {
                    parser: Delimited {
                        prefix_to_ignore: Tag("Err("),
                        dest_parser: Unquote,
                        suffix_to_ignore: Tag(")"),
                    },
                    map: IntoFailure,
                },
            ),
        }
    }

    fn parser() -> (p: StatusParser) {
        alt2(
            crate::parse::combinators::map(tag("Ok"), IntoSuccess),
            crate::parse::combinators::map(
                delimited(tag("Err("), unquote(), tag(")")),
                IntoFailure,
            ),
        )
    }
}

// ----- Records `Name { "key": value, ... }` -----

/// The parser of a record `name { "k0": v0, "k1": v1, }`, its two fields in any order.
pub type RecordParser<A0, A1> = Delimited<
    All<(StripWhitespace<Tag>, StripWhitespace<Tag>)>,
    Permutation<(KeyValue<A0>, KeyValue<A1>)>,
    StripWhitespace<Tag>,
>;

/// The record parser that [record] builds.
pub open spec fn spec_record<A0, A1>(
    name: &'static str,
    k0: &'static str,
    a0: A0,
    k1: &'static str,
    a1: A1,
) -> RecordParser<A0, A1> {
    Delimited {
        prefix_to_ignore: All {
            parser: (StripWhitespace { parser: Tag(name) }, StripWhitespace { parser: Tag("{") }),
        },
        dest_parser: Permutation { parsers: (spec_key_value(k0, a0), spec_key_value(k1, a1)) },
        suffix_to_ignore: StripWhitespace { parser: Tag("}") },
    }
}

/// Builds the parser of a record `name { "k0": v0, "k1": v1, }`.
pub fn record<A0, A1>(
    name: &'static str,
    k0: &'static str,
    a0: A0,
    k1: &'static str,
    a1: A1,
) -> (r: RecordParser<A0, A1>)
    ensures
        r == spec_record(name, k0, a0, k1, a1),
{
    delimited(
        all2(strip_whitespace(tag(name)), strip_whitespace(tag("{"))),
        permutation2(key_value(k0, a0), key_value(k1, a1)),
        strip_whitespace(tag("}")),
    )
}

/// The two fields of a record with different keys may come in either order: the record
/// reads the same values from both.
pub proof fn lemma_record_fields_any_order<'a, A0: Parser<'a>, A1: Parser<'a>>(
    k0: &'static str,
    a0: A0,
    k1: &'static str,
    a1: A1,
    s: Seq<char>,
    pos: int,
)
    requires
        k0@ != k1@,
    ensures
        ({
            let perm = Permutation { parsers: (spec_key_value(k0, a0), spec_key_value(k1, a1)) };
            &&& (All { parser: (perm.parsers.0, perm.parsers.1) }).spec_parse(s, pos) matches Ok(
                (e, (v0, v1)),
            ) ==> perm.spec_parse(s, pos) == Ok::<
                (int, (<A0::Dest as DeepView>::V, <A1::Dest as DeepView>::V)),
                ParsingError,
            >((e, (v0, v1)))
            &&& (All { parser: (perm.parsers.1, perm.parsers.0) }).spec_parse(s, pos) matches Ok(
                (e, (v1, v0)),
            ) ==> perm.spec_parse(s, pos) == Ok::<
                (int, (<A0::Dest as DeepView>::V, <A1::Dest as DeepView>::V)),
                ParsingError,
            >((e, (v0, v1)))
        }),
{
    let perm = Permutation { parsers: (spec_key_value(k0, a0), spec_key_value(k1, a1)) };
    lemma_key_values_exclusive(k0, a0, k1, a1);
    lemma_permutation2_any_order(perm, s, pos);
}

// ----- AssetDsc -----

/// A pair of an asset's short name and its description.
#[derive(Debug, Clone, PartialEq)]
pub struct AssetDsc {
    pub id: String,
    /// `dsc` aka `description`
    pub dsc: String,
}

/// What an [AssetDsc] is.
pub struct SpecAssetDsc {
    pub id: Seq<char>,
    pub dsc: Seq<char>,
}

impl DeepView for AssetDsc {
    type V = SpecAssetDsc;

    open spec fn deep_view(&self) -> SpecAssetDsc {
        SpecAssetDsc { id: self.id@, dsc: self.dsc@ }
    }
}

/// Makes an [AssetDsc] of its two texts.
#[derive(Debug, Clone, Copy)]
pub struct IntoAssetDsc;

impl<'a> Mapping<(Cow<'a, str>, Cow<'a, str>)> for IntoAssetDsc {
    type Out = AssetDsc;

    open spec fn spec_apply(&self, v: (Seq<char>, Seq<char>)) -> SpecAssetDsc {
        SpecAssetDsc { id: v.0, dsc: v.1 }
    }

    fn apply(&self, v: (Cow<'a, str>, Cow<'a, str>)) -> (o: AssetDsc) {
        let (id, dsc) = v;
        AssetDsc { id: cow_into_owned(id), dsc: cow_into_owned(dsc) }
    }
}

pub type AssetDscParser = Mapped<RecordParser<Unquote, Unquote>, IntoAssetDsc>;

impl<'a> Parsable<'a> for AssetDsc {
    type Parser = AssetDscParser;

    open spec fn spec_parser() -> AssetDscParser {
        Mapped { parser: spec_record("AssetDsc", "id", Unquote, "dsc", Unquote), map: IntoAssetDsc }
    }

    fn parser() -> (p: AssetDscParser) {
        crate::parse::combinators::map(
            record("AssetDsc", "id", unquote(), "dsc", unquote()),
            IntoAssetDsc,
        )
    }
}

// ----- Bucket -----

/// Makes a [Bucket] of an asset and a count.
#[derive(Debug, Clone, Copy)]
pub struct IntoBucket;

impl Mapping<(AssetIdentifier, u32)> for IntoBucket {
    type Out = Bucket;

    open spec fn spec_apply(&self, v: (Seq<char>, u32)) -> SpecBucket {
        SpecBucket { asset_id: v.0, count: v.1 }
    }

    fn apply(&self, v: (AssetIdentifier, u32)) -> (o: Bucket) {
        let (asset_id, count) = v;
        Bucket::new(asset_id, count)
    }
}

pub type BucketParser = Mapped<RecordParser<ParseAssetIdentifier, NonZeroU32Parser>, IntoBucket>;

pub open spec fn spec_bucket_parser() -> BucketParser {
    Mapped {
        parser: spec_record("Bucket", "asset_id", ParseAssetIdentifier, "count", NonZeroU32Parser),
        map: IntoBucket,
    }
}

impl<'a> Parsable<'a> for Bucket {
    type Parser = BucketParser;

    open spec fn spec_parser() -> BucketParser {
        spec_bucket_parser()
    }

    fn parser() -> (p: BucketParser) {
        crate::parse::combinators::map(
            record("Bucket", "asset_id", asset_identifier(), "count", NonZeroU32Parser),
            IntoBucket,
        )
    }
}

// ----- UserCash -----

/// Makes [UserCash] of a user and an amount.
#[derive(Debug, Clone, Copy)]
pub struct IntoUserCash;

impl Mapping<(UserId, u32)> for IntoUserCash {
    type Out = UserCash;

    open spec fn spec_apply(&self, v: (Seq<char>, u32)) -> SpecUserCash {
        SpecUserCash { user_id: v.0, count: v.1 }
    }

    fn apply(&self, v: (UserId, u32)) -> (o: UserCash) {
        let (user_id, count) = v;
        UserCash::new(user_id, count)
    }
}

pub type UserCashParser = Mapped<RecordParser<ParseUserId, NonZeroU32Parser>, IntoUserCash>;

pub open spec fn spec_user_cash_parser() -> UserCashParser {
    Mapped {
        parser: spec_record("UserCash", "user_id", ParseUserId, "count", NonZeroU32Parser),
        map: IntoUserCash,
    }
}

impl<'a> Parsable<'a> for UserCash {
    type Parser = UserCashParser;

    open spec fn spec_parser() -> UserCashParser {
        spec_user_cash_parser()
    }

    fn parser() -> (p: UserCashParser) {
        crate::parse::combinators::map(
            record("UserCash", "user_id", user_id(), "count", NonZeroU32Parser),
            IntoUserCash,
        )
    }
}

// ----- UserBucket -----

/// Makes a [UserBucket] of a user and a bucket.
#[derive(Debug, Clone, Copy)]
pub struct IntoUserBucket;

impl Mapping<(UserId, Bucket)> for IntoUserBucket {
    type Out = UserBucket;

    open spec fn spec_apply(&self, v: (Seq<char>, SpecBucket)) -> SpecUserBucket {
        SpecUserBucket { user_id: v.0, bucket: v.1 }
    }

    fn apply(&self, v: (UserId, Bucket)) -> (o: UserBucket) {
        let (user_id, bucket) = v;
        UserBucket::new(user_id, bucket)
    }
}

pub type UserBucketParser = Mapped<RecordParser<ParseUserId, BucketParser>, IntoUserBucket>;

pub open spec fn spec_user_bucket_parser() -> UserBucketParser {
    Mapped {
        parser: spec_record("UserBucket", "user_id", ParseUserId, "Bucket", spec_bucket_parser()),
        map: IntoUserBucket,
    }
}

impl<'a> Parsable<'a> for UserBucket {
    type Parser = UserBucketParser;

    open spec fn spec_parser() -> UserBucketParser {
        spec_user_bucket_parser()
    }

    fn parser() -> (p: UserBucketParser) {
        crate::parse::combinators::map(
            record("UserBucket", "user_id", user_id(), "Bucket", Bucket::parser()),
            IntoUserBucket,
        )
    }
}

// ----- UserBuckets -----

/// Makes [UserBuckets] of a user and a list of buckets.
#[derive(Debug, Clone, Copy)]
pub struct IntoUserBuckets;

impl Mapping<(UserId, Vec<Bucket>)> for IntoUserBuckets {
    type Out = UserBuckets;

    open spec fn spec_apply(&self, v: (Seq<char>, Seq<SpecBucket>)) -> SpecUserBuckets {
        SpecUserBuckets { user_id: v.0, buckets: v.1 }
    }

    fn apply(&self, v: (UserId, Vec<Bucket>)) -> (o: UserBuckets) {
        let (user_id, buckets) = v;
        UserBuckets::new(user_id, buckets)
    }
}

pub type UserBucketsParser = Mapped<
    RecordParser<ParseUserId, List<BucketParser>>,
    IntoUserBuckets,
>;

pub open spec fn spec_user_buckets_parser() -> UserBucketsParser {
    Mapped {
        parser: spec_record(
            "UserBuckets",
            "user_id",
            ParseUserId,
            "buckets",
            List { parser: spec_bucket_parser() },
        ),
        map: IntoUserBuckets,
    }
}

impl<'a> Parsable<'a> for UserBuckets {
    type Parser = UserBucketsParser;

    open spec fn spec_parser() -> UserBucketsParser {
        spec_user_buckets_parser()
    }

    fn parser() -> (p: UserBucketsParser) {
        crate::parse::combinators::map(
            record("UserBuckets", "user_id", user_id(), "buckets", list(Bucket::parser())),
            IntoUserBuckets,
        )
    }
}

// ----- Announcements -----

/// Makes [Announcements] of the list read.
#[derive(Debug, Clone, Copy)]
pub struct IntoAnnouncements;

impl Mapping<Vec<UserBuckets>> for IntoAnnouncements {
    type Out = Announcements;

    open spec fn spec_apply(&self, v: Seq<SpecUserBuckets>) -> Seq<SpecUserBuckets> {
        v
    }

    fn apply(&self, v: Vec<UserBuckets>) -> (o: Announcements) {
        Announcements::new(v)
    }
}

pub type AnnouncementsParser = Mapped<List<UserBucketsParser>, IntoAnnouncements>;

pub open spec fn spec_announcements_parser() -> AnnouncementsParser {
    Mapped { parser: List { parser: spec_user_buckets_parser() }, map: IntoAnnouncements }
}

impl<'a> Parsable<'a> for Announcements {
    type Parser = AnnouncementsParser;

    open spec fn spec_parser() -> AnnouncementsParser {
        spec_announcements_parser()
    }

    fn parser() -> (p: AnnouncementsParser) {
        crate::parse::combinators::map(list(UserBuckets::parser()), IntoAnnouncements)
    }
}


// ----- Log lines -----

/// A label followed by a quoted text: `Label "text"`.
pub type LabelledText = Preceded<StripWhitespace<Tag>, StripWhitespace<Unquote>>;

pub open spec fn spec_labelled_text(label: &'static str) -> LabelledText {
    Preceded {
        prefix_to_ignore: StripWhitespace { parser: Tag(label) },
        dest_parser: StripWhitespace { parser: Unquote },
    }
}

/// Builds the parser of `Label "text"`.
pub fn labelled_text(label: &'static str) -> (r: LabelledText)
    ensures
        r == spec_labelled_text(label),
{
    preceded(strip_whitespace(tag(label)), strip_whitespace(unquote()))
}

/// Gives [SystemLogErrorKind::NetworkError].
#[derive(Debug, Clone, Copy)]
pub struct IntoNetworkError;

impl<'a> Mapping<Cow<'a, str>> for IntoNetworkError {
    type Out = SystemLogErrorKind;

    open spec fn spec_apply(&self, v: Seq<char>) -> SpecSystemLogErrorKind {
        SpecSystemLogErrorKind::NetworkError(v)
    }

    fn apply(&self, v: Cow<'a, str>) -> (o: SystemLogErrorKind) {
        SystemLogErrorKind::NetworkError(cow_into_owned(v))
    }
}

/// Gives [SystemLogErrorKind::AccessDenied].
#[derive(Debug, Clone, Copy)]
pub struct IntoAccessDenied;

impl<'a> Mapping<Cow<'a, str>> for IntoAccessDenied {
    type Out = SystemLogErrorKind;

    open spec fn spec_apply(&self, v: Seq<char>) -> SpecSystemLogErrorKind {
        SpecSystemLogErrorKind::AccessDenied(v)
    }

    fn apply(&self, v: Cow<'a, str>) -> (o: SystemLogErrorKind) {
        SystemLogErrorKind::AccessDenied(cow_into_owned(v))
    }
}

pub type SystemLogErrorKindParser = Preceded<
    Tag,
    Alt<(Mapped<LabelledText, IntoNetworkError>, Mapped<LabelledText, IntoAccessDenied>)>,
>;

pub open spec fn spec_system_log_error_kind_parser() -> SystemLogErrorKindParser {
    Preceded {
        prefix_to_ignore: Tag("Error"),
        dest_parser: Alt {
            parser: (
                Mapped { parser: spec_labelled_text("NetworkError"), map: IntoNetworkError },
                Mapped { parser: spec_labelled_text("AccessDenied"), map: IntoAccessDenied },
            ),
        },
    }
}

impl<'a> Parsable<'a> for SystemLogErrorKind {
    type Parser = SystemLogErrorKindParser;

    open spec fn spec_parser() -> SystemLogErrorKindParser {
        spec_system_log_error_kind_parser()
    }

    fn parser() -> (p: SystemLogErrorKindParser) {
        preceded(
            tag("Error"),
            alt2(
                crate::parse::combinators::map(labelled_text("NetworkError"), IntoNetworkError),
                crate::parse::combinators::map(labelled_text("AccessDenied"), IntoAccessDenied),
            ),
        )
    }
}

/// Gives [SystemLogTraceKind::SendRequest].
#[derive(Debug, Clone, Copy)]
pub struct IntoSystemSendRequest;

impl<'a> Mapping<Cow<'a, str>> for IntoSystemSendRequest {
    type Out = SystemLogTraceKind;

    open spec fn spec_apply(&self, v: Seq<char>) -> SpecSystemLogTraceKind {
        SpecSystemLogTraceKind::SendRequest(v)
    }

    fn apply(&self, v: Cow<'a, str>) -> (o: SystemLogTraceKind) {
        SystemLogTraceKind::SendRequest(cow_into_owned(v))
    }
}

/// Gives [SystemLogTraceKind::GetResponse].
#[derive(Debug, Clone, Copy)]
pub struct IntoSystemGetResponse;

impl<'a> Mapping<Cow<'a, str>> for IntoSystemGetResponse {
    type Out = SystemLogTraceKind;

    open spec fn spec_apply(&self, v: Seq<char>) -> SpecSystemLogTraceKind {
        SpecSystemLogTraceKind::GetResponse(v)
    }

    fn apply(&self, v: Cow<'a, str>) -> (o: SystemLogTraceKind) {
        SystemLogTraceKind::GetResponse(cow_into_owned(v))
    }
}

pub type SystemLogTraceKindParser = Preceded<
    Tag,
    Alt<(Mapped<LabelledText, IntoSystemSendRequest>, Mapped<LabelledText, IntoSystemGetResponse>)>,
>;

pub open spec fn spec_system_log_trace_kind_parser() -> SystemLogTraceKindParser {
    Preceded {
        prefix_to_ignore: Tag("Trace"),
        dest_parser: Alt {
            parser: (
                Mapped { parser: spec_labelled_text("SendRequest"), map: IntoSystemSendRequest },
                Mapped { parser: spec_labelled_text("GetResponse"), map: IntoSystemGetResponse },
            ),
        },
    }
}

impl<'a> Parsable<'a> for SystemLogTraceKind {
    type Parser = SystemLogTraceKindParser;

    open spec fn spec_parser() -> SystemLogTraceKindParser {
        spec_system_log_trace_kind_parser()
    }

    fn parser() -> (p: SystemLogTraceKindParser) {
        preceded(
            tag("Trace"),
            alt2(
                crate::parse::combinators::map(labelled_text("SendRequest"), IntoSystemSendRequest),
                crate::parse::combinators::map(labelled_text("GetResponse"), IntoSystemGetResponse),
            ),
        )
    }
}

/// Gives [SystemLogKind::Trace].
#[derive(Debug, Clone, Copy)]
pub struct IntoSystemTrace;

impl Mapping<SystemLogTraceKind> for IntoSystemTrace {
    type Out = SystemLogKind;

    open spec fn spec_apply(&self, v: SpecSystemLogTraceKind) -> SpecSystemLogKind {
        SpecSystemLogKind::Trace(v)
    }

    fn apply(&self, v: SystemLogTraceKind) -> (o: SystemLogKind) {
        SystemLogKind::Trace(v)
    }
}

/// Gives [SystemLogKind::Error].
#[derive(Debug, Clone, Copy)]
pub struct IntoSystemError;

impl Mapping<SystemLogErrorKind> for IntoSystemError {
    type Out = SystemLogKind;

    open spec fn spec_apply(&self, v: SpecSystemLogErrorKind) -> SpecSystemLogKind {
        SpecSystemLogKind::Error(v)
    }

    fn apply(&self, v: SystemLogErrorKind) -> (o: SystemLogKind) {
        SystemLogKind::Error(v)
    }
}

pub type SystemLogKindParser = StripWhitespace<
    Preceded<
        Tag,
        Alt<
            (
                Mapped<SystemLogTraceKindParser, IntoSystemTrace>,
                Mapped<SystemLogErrorKindParser, IntoSystemError>,
            ),
        >,
    >,
>;

pub open spec fn spec_system_log_kind_parser() -> SystemLogKindParser {
    StripWhitespace {
        parser: Preceded {
            prefix_to_ignore: Tag("System::"),
            dest_parser: Alt {
                parser: (
                    Mapped { parser: spec_system_log_trace_kind_parser(), map: IntoSystemTrace },
                    Mapped { parser: spec_system_log_error_kind_parser(), map: IntoSystemError },
                ),
            },
        },
    }
}

impl<'a> Parsable<'a> for SystemLogKind {
    type Parser = SystemLogKindParser;

    open spec fn spec_parser() -> SystemLogKindParser {
        spec_system_log_kind_parser()
    }

    fn parser() -> (p: SystemLogKindParser) {
        strip_whitespace(
            preceded(
                tag("System::"),
                alt2(
                    crate::parse::combinators::map(SystemLogTraceKind::parser(), IntoSystemTrace),
                    crate::parse::combinators::map(SystemLogErrorKind::parser(), IntoSystemError),
                ),
            ),
        )
    }
}

/// Gives [AppLogErrorKind::LackOf].
#[derive(Debug, Clone, Copy)]
pub struct IntoLackOf;

impl<'a> Mapping<Cow<'a, str>> for IntoLackOf {
    type Out = AppLogErrorKind;

    open spec fn spec_apply(&self, v: Seq<char>) -> SpecAppLogErrorKind {
        SpecAppLogErrorKind::LackOf(v)
    }

    fn apply(&self, v: Cow<'a, str>) -> (o: AppLogErrorKind) {
        AppLogErrorKind::LackOf(cow_into_owned(v))
    }
}

/// Gives [AppLogErrorKind::SystemError].
#[derive(Debug, Clone, Copy)]
pub struct IntoAppSystemError;

impl<'a> Mapping<Cow<'a, str>> for IntoAppSystemError {
    type Out = AppLogErrorKind;

    open spec fn spec_apply(&self, v: Seq<char>) -> SpecAppLogErrorKind {
        SpecAppLogErrorKind::SystemError(v)
    }

    fn apply(&self, v: Cow<'a, str>) -> (o: AppLogErrorKind) {
        AppLogErrorKind::SystemError(cow_into_owned(v))
    }
}

pub type AppLogErrorKindParser = Preceded<
    Tag,
    Alt<(Mapped<LabelledText, IntoLackOf>, Mapped<LabelledText, IntoAppSystemError>)>,
>;

pub open spec fn spec_app_log_error_kind_parser() -> AppLogErrorKindParser {
    Preceded {
        prefix_to_ignore: Tag("Error"),
        dest_parser: Alt {
            parser: (
                Mapped { parser: spec_labelled_text("LackOf"), map: IntoLackOf },
                Mapped { parser: spec_labelled_text("SystemError"), map: IntoAppSystemError },
            ),
        },
    }
}

impl<'a> Parsable<'a> for AppLogErrorKind {
    type Parser = AppLogErrorKindParser;

    open spec fn spec_parser() -> AppLogErrorKindParser {
        spec_app_log_error_kind_parser()
    }

    fn parser() -> (p: AppLogErrorKindParser) {
        preceded(
            tag("Error"),
            alt2(
                crate::parse::combinators::map(labelled_text("LackOf"), IntoLackOf),
                crate::parse::combinators::map(labelled_text("SystemError"), IntoAppSystemError),
            ),
        )
    }
}

/// Gives [AppLogTraceKind::Connect].
#[derive(Debug, Clone, Copy)]
pub struct IntoConnect;

impl Mapping<AuthData> for IntoConnect {
    type Out = AppLogTraceKind;

    open spec fn spec_apply(&self, v: Seq<u8>) -> SpecAppLogTraceKind {
        SpecAppLogTraceKind::Connect(v)
    }

    fn apply(&self, v: AuthData) -> (o: AppLogTraceKind) {
        AppLogTraceKind::Connect(Box::new(v))
    }
}

/// Gives [AppLogTraceKind::SendRequest].
#[derive(Debug, Clone, Copy)]
pub struct IntoAppSendRequest;

impl<'a> Mapping<Cow<'a, str>> for IntoAppSendRequest {
    type Out = AppLogTraceKind;

    open spec fn spec_apply(&self, v: Seq<char>) -> SpecAppLogTraceKind {
        SpecAppLogTraceKind::SendRequest(v)
    }

    fn apply(&self, v: Cow<'a, str>) -> (o: AppLogTraceKind) {
        AppLogTraceKind::SendRequest(cow_into_owned(v))
    }
}

/// Gives [AppLogTraceKind::Check].
#[derive(Debug, Clone, Copy)]
pub struct IntoCheck;

impl Mapping<Announcements> for IntoCheck {
    type Out = AppLogTraceKind;

    open spec fn spec_apply(&self, v: Seq<SpecUserBuckets>) -> SpecAppLogTraceKind {
        SpecAppLogTraceKind::Check(v)
    }

    fn apply(&self, v: Announcements) -> (o: AppLogTraceKind) {
        AppLogTraceKind::Check(v)
    }
}

/// Gives [AppLogTraceKind::GetResponse].
#[derive(Debug, Clone, Copy)]
pub struct IntoAppGetResponse;

impl<'a> Mapping<Cow<'a, str>> for IntoAppGetResponse {
    type Out = AppLogTraceKind;

    open spec fn spec_apply(&self, v: Seq<char>) -> SpecAppLogTraceKind {
        SpecAppLogTraceKind::GetResponse(v)
    }

    fn apply(&self, v: Cow<'a, str>) -> (o: AppLogTraceKind) {
        AppLogTraceKind::GetResponse(cow_into_owned(v))
    }
}

/// A label followed by a value: `Label value`.
pub type Labelled<T> = Preceded<StripWhitespace<Tag>, StripWhitespace<T>>;

pub open spec fn spec_labelled<T>(label: &'static str, value: T) -> Labelled<T> {
    Preceded {
        prefix_to_ignore: StripWhitespace { parser: Tag(label) },
        dest_parser: StripWhitespace { parser: value },
    }
}

/// Builds the parser of `Label value`.
pub fn labelled<T>(label: &'static str, value: T) -> (r: Labelled<T>)
    ensures
        r == spec_labelled(label, value),
{
    preceded(strip_whitespace(tag(label)), strip_whitespace(value))
}

pub type AppLogTraceKindParser = Preceded<
    Tag,
    Alt<
        (
            Mapped<Labelled<AuthDataParser>, IntoConnect>,
            Mapped<LabelledText, IntoAppSendRequest>,
            Mapped<Labelled<AnnouncementsParser>, IntoCheck>,
            Mapped<LabelledText, IntoAppGetResponse>,
        ),
    >,
>;

pub open spec fn spec_app_log_trace_kind_parser() -> AppLogTraceKindParser {
    Preceded {
        prefix_to_ignore: Tag("Trace"),
        dest_parser: Alt {
            parser: (
                Mapped {
                    parser: spec_labelled(
                        "Connect",
                        Mapped { parser: Take { count: AUTHDATA_SIZE, parser: Byte }, map: IntoAuthData },
                    ),
                    map: IntoConnect,
                },
                Mapped { parser: spec_labelled_text("SendRequest"), map: IntoAppSendRequest },
                Mapped {
                    parser: spec_labelled("Check", spec_announcements_parser()),
                    map: IntoCheck,
                },
                Mapped { parser: spec_labelled_text("GetResponse"), map: IntoAppGetResponse },
            ),
        },
    }
}

impl<'a> Parsable<'a> for AppLogTraceKind {
    type Parser = AppLogTraceKindParser;

    open spec fn spec_parser() -> AppLogTraceKindParser {
        spec_app_log_trace_kind_parser()
    }

    fn parser() -> (p: AppLogTraceKindParser) {
        preceded(
            tag("Trace"),
            alt4(
                crate::parse::combinators::map(labelled("Connect", AuthData::parser()), IntoConnect),
                crate::parse::combinators::map(labelled_text("SendRequest"), IntoAppSendRequest),
                crate::parse::combinators::map(labelled("Check", Announcements::parser()), IntoCheck),
                crate::parse::combinators::map(labelled_text("GetResponse"), IntoAppGetResponse),
            ),
        )
    }
}

/// Gives [AppLogJournalKind::CreateUser].
#[derive(Debug, Clone, Copy)]
pub struct IntoCreateUser;

impl Mapping<(UserId, u32)> for IntoCreateUser {
    type Out = AppLogJournalKind;

    open spec fn spec_apply(&self, v: (Seq<char>, u32)) -> SpecAppLogJournalKind {
        SpecAppLogJournalKind::CreateUser { user_id: v.0, authorized_capital: v.1 }
    }

    fn apply(&self, v: (UserId, u32)) -> (o: AppLogJournalKind) {
        let (user_id, authorized_capital) = v;
        AppLogJournalKind::CreateUser { user_id, authorized_capital }
    }
}

/// Gives [AppLogJournalKind::DeleteUser].
#[derive(Debug, Clone, Copy)]
pub struct IntoDeleteUser;

impl Mapping<UserId> for IntoDeleteUser {
    type Out = AppLogJournalKind;

    open spec fn spec_apply(&self, v: Seq<char>) -> SpecAppLogJournalKind {
        SpecAppLogJournalKind::DeleteUser { user_id: v }
    }

    fn apply(&self, v: UserId) -> (o: AppLogJournalKind) {
        AppLogJournalKind::DeleteUser { user_id: v }
    }
}

/// Gives [AppLogJournalKind::RegisterAsset].
#[derive(Debug, Clone, Copy)]
pub struct IntoRegisterAsset;

impl Mapping<(AssetIdentifier, UserId, u32)> for IntoRegisterAsset {
    type Out = AppLogJournalKind;

    open spec fn spec_apply(&self, v: (Seq<char>, Seq<char>, u32)) -> SpecAppLogJournalKind {
        SpecAppLogJournalKind::RegisterAsset { asset_id: v.0, user_id: v.1, liquidity: v.2 }
    }

    fn apply(&self, v: (AssetIdentifier, UserId, u32)) -> (o: AppLogJournalKind) {
        let (asset_id, user_id, liquidity) = v;
        AppLogJournalKind::RegisterAsset { asset_id, user_id, liquidity }
    }
}

/// Gives [AppLogJournalKind::UnregisterAsset].
#[derive(Debug, Clone, Copy)]
pub struct IntoUnregisterAsset;

impl Mapping<(AssetIdentifier, UserId)> for IntoUnregisterAsset {
    type Out = AppLogJournalKind;

    open spec fn spec_apply(&self, v: (Seq<char>, Seq<char>)) -> SpecAppLogJournalKind {
        SpecAppLogJournalKind::UnregisterAsset { asset_id: v.0, user_id: v.1 }
    }

    fn apply(&self, v: (AssetIdentifier, UserId)) -> (o: AppLogJournalKind) {
        let (asset_id, user_id) = v;
        AppLogJournalKind::UnregisterAsset { asset_id, user_id }
    }
}

/// Gives [AppLogJournalKind::DepositCash].
#[derive(Debug, Clone, Copy)]
pub struct IntoDepositCash;

impl Mapping<UserCash> for IntoDepositCash {
    type Out = AppLogJournalKind;

    open spec fn spec_apply(&self, v: SpecUserCash) -> SpecAppLogJournalKind {
        SpecAppLogJournalKind::DepositCash(v)
    }

    fn apply(&self, v: UserCash) -> (o: AppLogJournalKind) {
        AppLogJournalKind::DepositCash(v)
    }
}

/// Gives [AppLogJournalKind::WithdrawCash].
#[derive(Debug, Clone, Copy)]
pub struct IntoWithdrawCash;

impl Mapping<UserCash> for IntoWithdrawCash {
    type Out = AppLogJournalKind;

    open spec fn spec_apply(&self, v: SpecUserCash) -> SpecAppLogJournalKind {
        SpecAppLogJournalKind::WithdrawCash(v)
    }

    fn apply(&self, v: UserCash) -> (o: AppLogJournalKind) {
        AppLogJournalKind::WithdrawCash(v)
    }
}

/// Gives [AppLogJournalKind::BuyAsset].
#[derive(Debug, Clone, Copy)]
pub struct IntoBuyAsset;

impl Mapping<UserBucket> for IntoBuyAsset {
    type Out = AppLogJournalKind;

    open spec fn spec_apply(&self, v: SpecUserBucket) -> SpecAppLogJournalKind {
        SpecAppLogJournalKind::BuyAsset(v)
    }

    fn apply(&self, v: UserBucket) -> (o: AppLogJournalKind) {
        AppLogJournalKind::BuyAsset(v)
    }
}

/// Gives [AppLogJournalKind::SellAsset].
#[derive(Debug, Clone, Copy)]
pub struct IntoSellAsset;

impl Mapping<UserBucket> for IntoSellAsset {
    type Out = AppLogJournalKind;

    open spec fn spec_apply(&self, v: SpecUserBucket) -> SpecAppLogJournalKind {
        SpecAppLogJournalKind::SellAsset(v)
    }

    fn apply(&self, v: UserBucket) -> (o: AppLogJournalKind) {
        AppLogJournalKind::SellAsset(v)
    }
}

/// A label followed by a braced body: `Label {body}`.
pub type Braced<T> = Preceded<StripWhitespace<Tag>, Delimited<Tag, T, Tag>>;

pub open spec fn spec_braced<T>(label: &'static str, body: T) -> Braced<T> {
    Preceded {
        prefix_to_ignore: StripWhitespace { parser: Tag(label) },
        dest_parser: Delimited {
            prefix_to_ignore: Tag("{"),
            dest_parser: body,
            suffix_to_ignore: Tag("}"),
        },
    }
}

/// Builds the parser of `Label {body}`.
pub fn braced<T>(label: &'static str, body: T) -> (r: Braced<T>)
    ensures
        r == spec_braced(label, body),
{
    preceded(strip_whitespace(tag(label)), delimited(tag("{"), body, tag("}")))
}

/// A label followed by a value, with no whitespace skipped after the label.
pub type Prefixed<T> = Preceded<StripWhitespace<Tag>, T>;

pub open spec fn spec_prefixed<T>(label: &'static str, value: T) -> Prefixed<T> {
    Preceded { prefix_to_ignore: StripWhitespace { parser: Tag(label) }, dest_parser: value }
}

/// Builds the parser of `Label value`, with no whitespace skipped after the label.
pub fn prefixed<T>(label: &'static str, value: T) -> (r: Prefixed<T>)
    ensures
        r == spec_prefixed(label, value),
{
    preceded(strip_whitespace(tag(label)), value)
}

/// Refuses a journal entry whose amount is under its minimum: a user created with
/// less than [MIN_CAPITAL] usd (`CapitalTooLow`) or an asset registered with less
/// than [MIN_LIQUIDITY] usd (`LiquidityTooLow`).
#[derive(Debug, Clone, Copy)]
pub struct JournalAmounts;

impl Validation<AppLogJournalKind> for JournalAmounts {
    open spec fn spec_check(&self, v: SpecAppLogJournalKind) -> Option<ParsingError> {
        match v {
            SpecAppLogJournalKind::CreateUser { authorized_capital, .. } => {
                if authorized_capital < MIN_CAPITAL {
                    Some(ParsingError::CapitalTooLow)
                } else {
                    None
                }
            },
            SpecAppLogJournalKind::RegisterAsset { liquidity, .. } => {
                if liquidity < MIN_LIQUIDITY {
                    Some(ParsingError::LiquidityTooLow)
                } else {
                    None
                }
            },
            _ => None,
        }
    }

    fn check(&self, v: &AppLogJournalKind) -> (r: Option<ParsingError>) {
        match v {
            AppLogJournalKind::CreateUser { authorized_capital, .. } => {
                if *authorized_capital < MIN_CAPITAL {
                    Some(ParsingError::CapitalTooLow)
                } else {
                    None
                }
            },
            AppLogJournalKind::RegisterAsset { liquidity, .. } => {
                if *liquidity < MIN_LIQUIDITY {
                    Some(ParsingError::LiquidityTooLow)
                } else {
                    None
                }
            },
            _ => None,
        }
    }
}

/// The journal entries that the grammar reads, before their amounts are checked.
pub type JournalEntryParser = Preceded<
    Tag,
    Alt<
        (
            Mapped<
                Braced<Permutation<(KeyValue<ParseUserId>, KeyValue<NonZeroU32Parser>)>>,
                IntoCreateUser,
            >,
            Mapped<Braced<KeyValue<ParseUserId>>, IntoDeleteUser>,
            Mapped<
                Braced<
                    Permutation<
                        (
                            KeyValue<ParseAssetIdentifier>,
                            KeyValue<ParseUserId>,
                            KeyValue<NonZeroU32Parser>,
                        ),
                    >,
                >,
                IntoRegisterAsset,
            >,
            Mapped<
                Braced<Permutation<(KeyValue<ParseAssetIdentifier>, KeyValue<ParseUserId>)>>,
                IntoUnregisterAsset,
            >,
            Mapped<Prefixed<UserCashParser>, IntoDepositCash>,
            Mapped<Prefixed<UserCashParser>, IntoWithdrawCash>,
            Mapped<Prefixed<UserBucketParser>, IntoBuyAsset>,
            Mapped<Prefixed<UserBucketParser>, IntoSellAsset>,
        ),
    >,
>;

pub type AppLogJournalKindParser = Refined<JournalEntryParser, JournalAmounts>;

pub open spec fn spec_app_log_journal_kind_parser() -> AppLogJournalKindParser {
    Refined { parser: spec_journal_entry_parser(), check: JournalAmounts }
}

pub open spec fn spec_journal_entry_parser() -> JournalEntryParser {
    Preceded {
        prefix_to_ignore: Tag("Journal"),
        dest_parser: Alt {
            parser: (
                Mapped {
                    parser: spec_braced(
                        "CreateUser",
                        Permutation {
                            parsers: (
                                spec_key_value("user_id", ParseUserId),
                                spec_key_value("authorized_capital", NonZeroU32Parser),
                            ),
                        },
                    ),
                    map: IntoCreateUser,
                },
                Mapped {
                    parser: spec_braced("DeleteUser", spec_key_value("user_id", ParseUserId)),
                    map: IntoDeleteUser,
                },
                Mapped {
                    parser: spec_braced(
                        "RegisterAsset",
                        Permutation {
                            parsers: (
                                spec_key_value("asset_id", ParseAssetIdentifier),
                                spec_key_value("user_id", ParseUserId),
                                spec_key_value("liquidity", NonZeroU32Parser),
                            ),
                        },
                    ),
                    map: IntoRegisterAsset,
                },
                Mapped {
                    parser: spec_braced(
                        "UnregisterAsset",
                        Permutation {
                            parsers: (
                                spec_key_value("asset_id", ParseAssetIdentifier),
                                spec_key_value("user_id", ParseUserId),
                            ),
                        },
                    ),
                    map: IntoUnregisterAsset,
                },
                Mapped {
                    parser: spec_prefixed("DepositCash", spec_user_cash_parser()),
                    map: IntoDepositCash,
                },
                Mapped {
                    parser: spec_prefixed("WithdrawCash", spec_user_cash_parser()),
                    map: IntoWithdrawCash,
                },
                Mapped {
                    parser: spec_prefixed("BuyAsset", spec_user_bucket_parser()),
                    map: IntoBuyAsset,
                },
                Mapped {
                    parser: spec_prefixed("SellAsset", spec_user_bucket_parser()),
                    map: IntoSellAsset,
                },
            ),
        },
    }
}

impl<'a> Parsable<'a> for AppLogJournalKind {
    type Parser = AppLogJournalKindParser;

    open spec fn spec_parser() -> AppLogJournalKindParser {
        spec_app_log_journal_kind_parser()
    }

    fn parser() -> (p: AppLogJournalKindParser) {
        refined(journal_entry_parser(), JournalAmounts)
    }
}

/// Every journal entry that the parser accepts holds at least the minimum amounts:
/// a user is created with at least [MIN_CAPITAL] usd of capital and an asset is
/// registered with at least [MIN_LIQUIDITY] usd of liquidity, so neither is zero.
pub proof fn lemma_journal_amounts_at_least_minimums(s: Seq<char>, pos: int)
    ensures
        match spec_app_log_journal_kind_parser().spec_parse(s, pos) {
            Ok((_, SpecAppLogJournalKind::CreateUser { authorized_capital, .. })) =>
                authorized_capital >= MIN_CAPITAL,
            Ok((_, SpecAppLogJournalKind::RegisterAsset { liquidity, .. })) =>
                liquidity >= MIN_LIQUIDITY,
            _ => true,
        },
{
}

/// The name of a journal entry's kind, as it stands in the log.
pub open spec fn journal_entry_name(k: SpecAppLogJournalKind) -> Seq<char> {
    match k {
        SpecAppLogJournalKind::CreateUser { .. } => "CreateUser"@,
        SpecAppLogJournalKind::DeleteUser { .. } => "DeleteUser"@,
        SpecAppLogJournalKind::RegisterAsset { .. } => "RegisterAsset"@,
        SpecAppLogJournalKind::UnregisterAsset { .. } => "UnregisterAsset"@,
        SpecAppLogJournalKind::DepositCash(_) => "DepositCash"@,
        SpecAppLogJournalKind::WithdrawCash(_) => "WithdrawCash"@,
        SpecAppLogJournalKind::BuyAsset(_) => "BuyAsset"@,
        SpecAppLogJournalKind::SellAsset(_) => "SellAsset"@,
    }
}

/// A journal entry that the parser accepts begins with `Journal` and then, after
/// whitespace, the name of the entry's kind.
#[verifier::spinoff_prover]
#[verifier::rlimit(40)]
pub proof fn lemma_journal_entry_names_its_kind(s: Seq<char>, pos: int)
    ensures
        spec_app_log_journal_kind_parser().spec_parse(s, pos) matches Ok((_, k)) ==> (occurs_at(
            s,
            pos,
            "Journal"@,
        ) && occurs_at(s, skip_ws(s, pos + "Journal"@.len()), journal_entry_name(k))),
{
    let entries = spec_journal_entry_parser();
    if spec_app_log_journal_kind_parser().spec_parse(s, pos) is Ok {
        assert(entries.spec_parse(s, pos) is Ok);
        assert(occurs_at(s, pos, "Journal"@));
        let p1 = pos + "Journal"@.len();
        let alts = entries.dest_parser.parser;
        assert(entries.dest_parser.spec_parse(s, p1) == entries.spec_parse(s, pos));
        if alts.0.spec_parse(s, p1) is Ok {
            assert(alts.0.parser.prefix_to_ignore.spec_parse(s, p1) is Ok);
        } else if alts.1.spec_parse(s, p1) is Ok {
            assert(alts.1.parser.prefix_to_ignore.spec_parse(s, p1) is Ok);
        } else if alts.2.spec_parse(s, p1) is Ok {
            assert(alts.2.parser.prefix_to_ignore.spec_parse(s, p1) is Ok);
        } else if alts.3.spec_parse(s, p1) is Ok {
            assert(alts.3.parser.prefix_to_ignore.spec_parse(s, p1) is Ok);
        } else if alts.4.spec_parse(s, p1) is Ok {
            assert(alts.4.parser.prefix_to_ignore.spec_parse(s, p1) is Ok);
        } else if alts.5.spec_parse(s, p1) is Ok {
            assert(alts.5.parser.prefix_to_ignore.spec_parse(s, p1) is Ok);
        } else if alts.6.spec_parse(s, p1) is Ok {
            assert(alts.6.parser.prefix_to_ignore.spec_parse(s, p1) is Ok);
        } else {
            assert(alts.7.parser.prefix_to_ignore.spec_parse(s, p1) is Ok);
        }
    }
}

/// Builds the parser of journal entries, before their amounts are checked.
pub fn journal_entry_parser() -> (p: JournalEntryParser)
    ensures
        p == spec_journal_entry_parser(),
{
    preceded(
        tag("Journal"),
        alt8(
            crate::parse::combinators::map(
                braced(
                    "CreateUser",
                    permutation2(
                        key_value("user_id", user_id()),
                        key_value("authorized_capital", NonZeroU32Parser),
                    ),
                ),
                IntoCreateUser,
            ),
            crate::parse::combinators::map(
                braced("DeleteUser", key_value("user_id", user_id())),
                IntoDeleteUser,
            ),
            crate::parse::combinators::map(
                braced(
                    "RegisterAsset",
                    permutation3(
                        key_value("asset_id", asset_identifier()),
                        key_value("user_id", user_id()),
                        key_value("liquidity", NonZeroU32Parser),
                    ),
                ),
                IntoRegisterAsset,
            ),
            crate::parse::combinators::map(
                braced(
                    "UnregisterAsset",
                    permutation2(
                        key_value("asset_id", asset_identifier()),
                        key_value("user_id", user_id()),
                    ),
                ),
                IntoUnregisterAsset,
            ),
            crate::parse::combinators::map(
                prefixed("DepositCash", UserCash::parser()),
                IntoDepositCash,
            ),
            crate::parse::combinators::map(
                prefixed("WithdrawCash", UserCash::parser()),
                IntoWithdrawCash,
            ),
            crate::parse::combinators::map(
                prefixed("BuyAsset", UserBucket::parser()),
                IntoBuyAsset,
            ),
            crate::parse::combinators::map(
                prefixed("SellAsset", UserBucket::parser()),
                IntoSellAsset,
            ),
        ),
    )
}

/// Gives [AppLogKind::Error].
#[derive(Debug, Clone, Copy)]
pub struct IntoAppError;

impl Mapping<AppLogErrorKind> for IntoAppError {
    type Out = AppLogKind;

    open spec fn spec_apply(&self, v: SpecAppLogErrorKind) -> SpecAppLogKind {
        SpecAppLogKind::Error(v)
    }

    fn apply(&self, v: AppLogErrorKind) -> (o: AppLogKind) {
        AppLogKind::Error(v)
    }
}

/// Gives [AppLogKind::Trace].
#[derive(Debug, Clone, Copy)]
pub struct IntoAppTrace;

impl Mapping<AppLogTraceKind> for IntoAppTrace {
    type Out = AppLogKind;

    open spec fn spec_apply(&self, v: SpecAppLogTraceKind) -> SpecAppLogKind {
        SpecAppLogKind::Trace(v)
    }

    fn apply(&self, v: AppLogTraceKind) -> (o: AppLogKind) {
        AppLogKind::Trace(v)
    }
}

/// Gives [AppLogKind::Journal].
#[derive(Debug, Clone, Copy)]
pub struct IntoAppJournal;

impl Mapping<AppLogJournalKind> for IntoAppJournal {
    type Out = AppLogKind;

    open spec fn spec_apply(&self, v: SpecAppLogJournalKind) -> SpecAppLogKind {
        SpecAppLogKind::Journal(v)
    }

    fn apply(&self, v: AppLogJournalKind) -> (o: AppLogKind) {
        AppLogKind::Journal(v)
    }
}

pub type AppLogKindParser = StripWhitespace<
    Preceded<
        Tag,
        Alt<
            (
                Mapped<AppLogErrorKindParser, IntoAppError>,
                Mapped<AppLogTraceKindParser, IntoAppTrace>,
                Mapped<AppLogJournalKindParser, IntoAppJournal>,
            ),
        >,
    >,
>;

pub open spec fn spec_app_log_kind_parser() -> AppLogKindParser {
    StripWhitespace {
        parser: Preceded {
            prefix_to_ignore: Tag("App::"),
            dest_parser: Alt {
                parser: (
                    Mapped { parser: spec_app_log_error_kind_parser(), map: IntoAppError },
                    Mapped { parser: spec_app_log_trace_kind_parser(), map: IntoAppTrace },
                    Mapped { parser: spec_app_log_journal_kind_parser(), map: IntoAppJournal },
                ),
            },
        },
    }
}

impl<'a> Parsable<'a> for AppLogKind {
    type Parser = AppLogKindParser;

    open spec fn spec_parser() -> AppLogKindParser {
        spec_app_log_kind_parser()
    }

    fn parser() -> (p: AppLogKindParser) {
        strip_whitespace(
            preceded(
                tag("App::"),
                alt3(
                    crate::parse::combinators::map(AppLogErrorKind::parser(), IntoAppError),
                    crate::parse::combinators::map(AppLogTraceKind::parser(), IntoAppTrace),
                    crate::parse::combinators::map(AppLogJournalKind::parser(), IntoAppJournal),
                ),
            ),
        )
    }
}

/// Gives [LogKind::System].
#[derive(Debug, Clone, Copy)]
pub struct IntoSystemLog;

impl Mapping<SystemLogKind> for IntoSystemLog {
    type Out = LogKind;

    open spec fn spec_apply(&self, v: SpecSystemLogKind) -> SpecLogKind {
        SpecLogKind::System(v)
    }

    fn apply(&self, v: SystemLogKind) -> (o: LogKind) {
        LogKind::System(v)
    }
}

/// Gives [LogKind::App].
#[derive(Debug, Clone, Copy)]
pub struct IntoAppLog;

impl Mapping<AppLogKind> for IntoAppLog {
    type Out = LogKind;

    open spec fn spec_apply(&self, v: SpecAppLogKind) -> SpecLogKind {
        SpecLogKind::App(v)
    }

    fn apply(&self, v: AppLogKind) -> (o: LogKind) {
        LogKind::App(v)
    }
}

pub type LogKindParser = StripWhitespace<
    Alt<(Mapped<SystemLogKindParser, IntoSystemLog>, Mapped<AppLogKindParser, IntoAppLog>)>,
>;

pub open spec fn spec_log_kind_parser() -> LogKindParser {
    StripWhitespace {
        parser: Alt {
            parser: (
                Mapped { parser: spec_system_log_kind_parser(), map: IntoSystemLog },
                Mapped { parser: spec_app_log_kind_parser(), map: IntoAppLog },
            ),
        },
    }
}

impl<'a> Parsable<'a> for LogKind {
    type Parser = LogKindParser;

    open spec fn spec_parser() -> LogKindParser {
        spec_log_kind_parser()
    }

    fn parser() -> (p: LogKindParser) {
        strip_whitespace(
            alt2(
                crate::parse::combinators::map(SystemLogKind::parser(), IntoSystemLog),
                crate::parse::combinators::map(AppLogKind::parser(), IntoAppLog),
            ),
        )
    }
}

/// Makes a [LogLine] of its kind and request id.
#[derive(Debug, Clone, Copy)]
pub struct IntoLogLine;

impl Mapping<(LogKind, u32)> for IntoLogLine {
    type Out = LogLine;

    open spec fn spec_apply(&self, v: (SpecLogKind, u32)) -> SpecLogLine {
        SpecLogLine { kind: v.0, request_id: v.1 }
    }

    fn apply(&self, v: (LogKind, u32)) -> (o: LogLine) {
        let (kind, request_id) = v;
        LogLine::new(kind, request_id)
    }
}

pub type LogLineTree = Mapped<
    All<(LogKindParser, StripWhitespace<Preceded<Tag, NonZeroU32Parser>>)>,
    IntoLogLine,
>;

#[verifier::opaque]
pub open spec fn spec_log_line_parser() -> LogLineTree {
    Mapped {
        parser: All {
            parser: (
                spec_log_kind_parser(),
                StripWhitespace {
                    parser: Preceded {
                        prefix_to_ignore: Tag("requestid="),
                        dest_parser: NonZeroU32Parser,
                    },
                },
            ),
        },
        map: IntoLogLine,
    }
}

impl<'a> Parsable<'a> for LogLine {
    type Parser = LogLineTree;

    open spec fn spec_parser() -> LogLineTree {
        spec_log_line_parser()
    }

    fn parser() -> (p: LogLineTree) {
        proof {
            reveal(spec_log_line_parser);
        }
        crate::parse::combinators::map(
            all2(
                LogKind::parser(),
                strip_whitespace(preceded(tag("requestid="), NonZeroU32Parser)),
            ),
            IntoLogLine,
        )
    }
}

/// What parsing a log line from the start of `s` gives.
#[verifier::opaque]
pub open spec fn spec_parse_line(s: Seq<char>) -> SpecResult<SpecLogLine> {
    spec_log_line_parser().spec_parse(s, 0)
}

/// The line parser reads every text as the parser of [LogLine] does.
pub proof fn lemma_line_parser_is_log_line_parser(s: Seq<char>)
    ensures
        spec_parse_line(s) == <LogLine as Parsable<'_>>::spec_parser().spec_parse(s, 0),
{
    reveal(spec_parse_line);
}

/// The parser of log lines, built once.
pub struct LogLineParser {
    parser: LogLineTree,
}

impl LogLineParser {
    #[verifier::type_invariant]
    spec fn built(&self) -> bool {
        self.parser == spec_log_line_parser()
    }

    /// The parser held: the parser of [LogLine].
    pub closed spec fn tree(&self) -> LogLineTree {
        self.parser
    }

    pub fn new() -> (r: LogLineParser)
        ensures
            r.tree() == <LogLine as Parsable<'_>>::spec_parser(),
    {
        LogLineParser { parser: LogLine::parser() }
    }

    /// Parses a log line from the start of `input`, as [LogLine::parser] does.
    pub fn parse<'a>(&self, input: &'a str) -> (res: Result<(&'a str, LogLine), ParsingError>)
        ensures
            match spec_parse_line(input@) {
                Ok((e, v)) => res matches Ok((rest, d)) && 0 <= e <= input@.len() && rest@
                    == input@.skip(e) && d.deep_view() == v,
                Err(err) => res == Err::<(&'a str, LogLine), ParsingError>(err),
            },
    {
        proof {
            use_type_invariant(self);
            reveal(spec_parse_line);
        }
        self.parser.parse(input)
    }

    /// Parses a whole log line: fails with [ParsingError::TrailingInput] when the line
    /// was read but input is left over.
    pub fn parse_line(&self, line: &str) -> (res: Result<LogLine, ParsingError>)
        ensures
            match spec_parse_line(line@) {
                Ok((e, v)) => if e == line@.len() {
                    res matches Ok(d) && d.deep_view() == v
                } else {
                    res == Err::<LogLine, ParsingError>(ParsingError::TrailingInput)
                },
                Err(err) => res == Err::<LogLine, ParsingError>(err),
            },
    {
        match self.parse(line) {
            Ok((rest, l)) => {
                if rest.is_empty() {
                    Ok(l)
                } else {
                    Err(ParsingError::TrailingInput)
                }
            },
            Err(err) => Err(err),
        }
    }
}

// ----- Every parser of the grammar reads only what follows its position -----

proof fn lemma_record_reads_rest<'a, A0: Parser<'a>, A1: Parser<'a>>(
    name: &'static str,
    k0: &'static str,
    a0: A0,
    k1: &'static str,
    a1: A1,
)
    requires
        reads_rest(&a0),
        reads_rest(&a1),
    ensures
        reads_rest(&spec_record(name, k0, a0, k1, a1)),
{
    let r = spec_record(name, k0, a0, k1, a1);
    lemma_tag_reads_rest(Tag(name));
    lemma_strip_whitespace_reads_rest(r.prefix_to_ignore.parser.0);
    lemma_tag_reads_rest(Tag("{"));
    lemma_strip_whitespace_reads_rest(r.prefix_to_ignore.parser.1);
    lemma_all2_reads_rest(r.prefix_to_ignore);
    lemma_spec_key_value_reads_rest(k0, a0);
    lemma_spec_key_value_reads_rest(k1, a1);
    lemma_permutation2_reads_rest(r.dest_parser);
    lemma_tag_reads_rest(Tag("}"));
    lemma_strip_whitespace_reads_rest(r.suffix_to_ignore);
    lemma_delimited_reads_rest(r);
}

proof fn lemma_labelled_text_reads_rest(label: &'static str)
    ensures
        reads_rest(&spec_labelled_text(label)),
{
    lemma_unquote_reads_rest();
    lemma_strip_whitespace_reads_rest(StripWhitespace { parser: Unquote });
    lemma_label_then_reads_rest(spec_labelled_text(label));
}

proof fn lemma_labelled_reads_rest<'a, T: Parser<'a>>(label: &'static str, value: T)
    requires
        reads_rest(&value),
    ensures
        reads_rest(&spec_labelled(label, value)),
{
    lemma_strip_whitespace_reads_rest(StripWhitespace { parser: value });
    lemma_label_then_reads_rest(spec_labelled(label, value));
}

/// Authorization data is read from what follows the position only.
pub proof fn lemma_authdata_parser_reads_rest()
    ensures
        reads_rest(&<AuthData as Parsable<'_>>::spec_parser()),
{
    lemma_byte_reads_rest();
    lemma_take_reads_rest(Take { count: AUTHDATA_SIZE, parser: Byte });
    lemma_mapped_reads_rest(<AuthData as Parsable<'_>>::spec_parser());
}

/// A status is read from what follows the position only.
pub proof fn lemma_status_parser_reads_rest()
    ensures
        reads_rest(&<Status as Parsable<'_>>::spec_parser()),
{
    let p = <Status as Parsable<'_>>::spec_parser();
    lemma_tag_reads_rest(Tag("Ok"));
    lemma_tag_reads_rest(Tag("Err("));
    lemma_tag_reads_rest(Tag(")"));
    lemma_unquote_reads_rest();
    lemma_delimited_reads_rest(p.parser.1.parser);
    lemma_mapped_reads_rest(p.parser.0);
    lemma_mapped_reads_rest(p.parser.1);
    lemma_alt2_reads_rest(p);
}

/// An asset description is read from what follows the position only.
pub proof fn lemma_asset_dsc_parser_reads_rest()
    ensures
        reads_rest(&<AssetDsc as Parsable<'_>>::spec_parser()),
{
    lemma_unquote_reads_rest();
    lemma_record_reads_rest("AssetDsc", "id", Unquote, "dsc", Unquote);
    lemma_mapped_reads_rest(<AssetDsc as Parsable<'_>>::spec_parser());
}

/// A bucket is read from what follows the position only.
pub proof fn lemma_bucket_parser_reads_rest()
    ensures
        reads_rest(&spec_bucket_parser()),
{
    lemma_asset_identifier_reads_rest();
    lemma_non_zero_u32_reads_rest();
    lemma_record_reads_rest("Bucket", "asset_id", ParseAssetIdentifier, "count", NonZeroU32Parser);
    lemma_mapped_reads_rest(spec_bucket_parser());
}

/// A user's cash is read from what follows the position only.
pub proof fn lemma_user_cash_parser_reads_rest()
    ensures
        reads_rest(&spec_user_cash_parser()),
{
    lemma_user_id_reads_rest();
    lemma_non_zero_u32_reads_rest();
    lemma_record_reads_rest("UserCash", "user_id", ParseUserId, "count", NonZeroU32Parser);
    lemma_mapped_reads_rest(spec_user_cash_parser());
}

/// A user's bucket is read from what follows the position only.
pub proof fn lemma_user_bucket_parser_reads_rest()
    ensures
        reads_rest(&spec_user_bucket_parser()),
{
    lemma_user_id_reads_rest();
    lemma_bucket_parser_reads_rest();
    lemma_record_reads_rest("UserBucket", "user_id", ParseUserId, "Bucket", spec_bucket_parser());
    lemma_mapped_reads_rest(spec_user_bucket_parser());
}

/// A user's buckets are read from what follows the position only.
pub proof fn lemma_user_buckets_parser_reads_rest()
    ensures
        reads_rest(&spec_user_buckets_parser()),
{
    lemma_user_id_reads_rest();
    lemma_bucket_parser_reads_rest();
    lemma_list_reads_rest(List { parser: spec_bucket_parser() });
    lemma_record_reads_rest(
        "UserBuckets",
        "user_id",
        ParseUserId,
        "buckets",
        List { parser: spec_bucket_parser() },
    );
    lemma_mapped_reads_rest(spec_user_buckets_parser());
}

/// Announcements are read from what follows the position only.
pub proof fn lemma_announcements_parser_reads_rest()
    ensures
        reads_rest(&spec_announcements_parser()),
{
    lemma_user_buckets_parser_reads_rest();
    lemma_list_reads_rest(List { parser: spec_user_buckets_parser() });
    lemma_mapped_reads_rest(spec_announcements_parser());
}

/// System entries are read from what follows the position only.
pub proof fn lemma_system_log_kind_parser_reads_rest()
    ensures
        reads_rest(&spec_system_log_kind_parser()),
{
    let e = spec_system_log_error_kind_parser();
    lemma_labelled_text_reads_rest("NetworkError");
    lemma_labelled_text_reads_rest("AccessDenied");
    lemma_mapped_reads_rest(e.dest_parser.parser.0);
    lemma_mapped_reads_rest(e.dest_parser.parser.1);
    lemma_alt2_reads_rest(e.dest_parser);
    lemma_tag_then_reads_rest(e);
    let t = spec_system_log_trace_kind_parser();
    lemma_labelled_text_reads_rest("SendRequest");
    lemma_labelled_text_reads_rest("GetResponse");
    lemma_mapped_reads_rest(t.dest_parser.parser.0);
    lemma_mapped_reads_rest(t.dest_parser.parser.1);
    lemma_alt2_reads_rest(t.dest_parser);
    lemma_tag_then_reads_rest(t);
    let k = spec_system_log_kind_parser();
    lemma_mapped_reads_rest(k.parser.dest_parser.parser.0);
    lemma_mapped_reads_rest(k.parser.dest_parser.parser.1);
    lemma_alt2_reads_rest(k.parser.dest_parser);
    lemma_tag_then_reads_rest(k.parser);
    lemma_strip_whitespace_reads_rest(k);
}

/// Journal entries are read from what follows the position only.
pub proof fn lemma_journal_parser_reads_rest()
    ensures
        reads_rest(&spec_app_log_journal_kind_parser()),
{
    let j = spec_journal_entry_parser();
    let a = j.dest_parser.parser;
    lemma_user_id_reads_rest();
    lemma_asset_identifier_reads_rest();
    lemma_non_zero_u32_reads_rest();
    lemma_spec_key_value_reads_rest("user_id", ParseUserId);
    lemma_spec_key_value_reads_rest("authorized_capital", NonZeroU32Parser);
    lemma_spec_key_value_reads_rest("asset_id", ParseAssetIdentifier);
    lemma_spec_key_value_reads_rest("liquidity", NonZeroU32Parser);
    lemma_permutation2_reads_rest(a.0.parser.dest_parser.dest_parser);
    lemma_permutation3_reads_rest(a.2.parser.dest_parser.dest_parser);
    lemma_permutation2_reads_rest(a.3.parser.dest_parser.dest_parser);
    lemma_tag_reads_rest(Tag("{"));
    lemma_tag_reads_rest(Tag("}"));
    lemma_delimited_reads_rest(a.0.parser.dest_parser);
    lemma_delimited_reads_rest(a.1.parser.dest_parser);
    lemma_delimited_reads_rest(a.2.parser.dest_parser);
    lemma_delimited_reads_rest(a.3.parser.dest_parser);
    lemma_label_then_reads_rest(a.0.parser);
    lemma_label_then_reads_rest(a.1.parser);
    lemma_label_then_reads_rest(a.2.parser);
    lemma_label_then_reads_rest(a.3.parser);
    lemma_user_cash_parser_reads_rest();
    lemma_user_bucket_parser_reads_rest();
    lemma_label_then_reads_rest(a.4.parser);
    lemma_label_then_reads_rest(a.5.parser);
    lemma_label_then_reads_rest(a.6.parser);
    lemma_label_then_reads_rest(a.7.parser);
    lemma_mapped_reads_rest(a.0);
    lemma_mapped_reads_rest(a.1);
    lemma_mapped_reads_rest(a.2);
    lemma_mapped_reads_rest(a.3);
    lemma_mapped_reads_rest(a.4);
    lemma_mapped_reads_rest(a.5);
    lemma_mapped_reads_rest(a.6);
    lemma_mapped_reads_rest(a.7);
    lemma_alt8_reads_rest(j.dest_parser);
    lemma_tag_then_reads_rest(j);
    lemma_refined_reads_rest(spec_app_log_journal_kind_parser());
}

/// Application entries are read from what follows the position only.
pub proof fn lemma_app_log_kind_parser_reads_rest()
    ensures
        reads_rest(&spec_app_log_kind_parser()),
{
    let e = spec_app_log_error_kind_parser();
    lemma_labelled_text_reads_rest("LackOf");
    lemma_labelled_text_reads_rest("SystemError");
    lemma_mapped_reads_rest(e.dest_parser.parser.0);
    lemma_mapped_reads_rest(e.dest_parser.parser.1);
    lemma_alt2_reads_rest(e.dest_parser);
    lemma_tag_then_reads_rest(e);
    let t = spec_app_log_trace_kind_parser();
    lemma_authdata_parser_reads_rest();
    lemma_labelled_reads_rest("Connect", <AuthData as Parsable<'_>>::spec_parser());
    lemma_labelled_text_reads_rest("SendRequest");
    lemma_announcements_parser_reads_rest();
    lemma_labelled_reads_rest("Check", spec_announcements_parser());
    lemma_labelled_text_reads_rest("GetResponse");
    lemma_mapped_reads_rest(t.dest_parser.parser.0);
    lemma_mapped_reads_rest(t.dest_parser.parser.1);
    lemma_mapped_reads_rest(t.dest_parser.parser.2);
    lemma_mapped_reads_rest(t.dest_parser.parser.3);
    lemma_alt4_reads_rest(t.dest_parser);
    lemma_tag_then_reads_rest(t);
    lemma_journal_parser_reads_rest();
    let k = spec_app_log_kind_parser();
    lemma_mapped_reads_rest(k.parser.dest_parser.parser.0);
    lemma_mapped_reads_rest(k.parser.dest_parser.parser.1);
    lemma_mapped_reads_rest(k.parser.dest_parser.parser.2);
    lemma_alt3_reads_rest(k.parser.dest_parser);
    lemma_tag_then_reads_rest(k.parser);
    lemma_strip_whitespace_reads_rest(k);
}

/// Every log line parser reads at a position of a text what it reads from the start
/// of the rest of that text: a line parsed in the middle of a text gives the same
/// entry as the line alone, and it ends within the text.
pub proof fn lemma_log_line_parser_reads_rest()
    ensures
        reads_rest(&<LogLine as Parsable<'_>>::spec_parser()),
        forall|s: Seq<char>, pos: int|
            0 <= pos <= s.len() ==> #[trigger] <LogLine as Parsable<'_>>::spec_parser().spec_parse(
                s,
                pos,
            ) == shifted(<LogLine as Parsable<'_>>::spec_parser().spec_parse(s.skip(pos), 0), pos),
{
    lemma_system_log_kind_parser_reads_rest();
    lemma_app_log_kind_parser_reads_rest();
    let k = spec_log_kind_parser();
    lemma_mapped_reads_rest(k.parser.parser.0);
    lemma_mapped_reads_rest(k.parser.parser.1);
    lemma_alt2_reads_rest(k.parser);
    lemma_strip_whitespace_reads_rest(k);
    reveal(spec_log_line_parser);
    let l = spec_log_line_parser();
    lemma_non_zero_u32_reads_rest();
    lemma_tag_then_reads_rest(l.parser.parser.1.parser);
    lemma_strip_whitespace_reads_rest(l.parser.parser.1);
    lemma_all2_reads_rest(l.parser);
    lemma_mapped_reads_rest(l);
    let p = <LogLine as Parsable<'_>>::spec_parser();
    assert forall|s: Seq<char>, pos: int| 0 <= pos <= s.len() implies #[trigger] p.spec_parse(s, pos)
        == shifted(p.spec_parse(s.skip(pos), 0), pos) by {
        lemma_reads_the_rest(&p, s, pos);
    }
}

proof fn lemma_connect_text(d: Seq<u8>, t: Seq<char>)
    ensures
        ({
            let s = "Trace Connect "@ + bytes_hex(d) + t;
            &&& s.len() == 14 + 2 * d.len() + t.len()
            &&& s.subrange(0, 5) == "Trace"@
            &&& s.subrange(6, 13) == "Connect"@
            &&& is_ws(s[5]) && is_ws(s[13]) && !is_ws(s[6])
            &&& s[6] == 'C' && s[7] == 'o'
            &&& d.len() > 0 ==> is_hex_digit(s[14]) && !is_ws(s[14])
            &&& d.len() == 0 && t.len() > 0 ==> s[14] == t[0]
            &&& s.skip(14) == bytes_hex(d) + t
        }),
{
    reveal_strlit("Trace Connect ");
    reveal_strlit("Trace");
    reveal_strlit("Connect");
    let h = bytes_hex(d) + t;
    let s = "Trace Connect "@ + h;
    lemma_bytes_hex_index(d);
    if d.len() > 0 {
        lemma_bytes_hex_first(d);
    }
    assert("Trace Connect "@.len() == 14);
    assert(s[5] == "Trace Connect "@[5]);
    assert(s[5] == ' ');
    assert(s[6] == 'C');
    assert(s[7] == 'o');
    assert(s[13] == ' ');
    if s.len() > 14 {
        assert(s[14] == h[0]);
    }
    assert(is_ws(' '));
    assert(!is_ws('C'));
    assert(s.subrange(0, 5) =~= "Trace"@);
    assert(s.subrange(6, 13) =~= "Connect"@);
    assert(s.skip(14) =~= h);
}

proof fn lemma_connect_auth(d: Seq<u8>, t: Seq<char>)
    requires
        d.len() == AUTHDATA_SIZE,
    ensures
        ({
            let s = "Trace Connect "@ + bytes_hex(d) + t;
            (StripWhitespace { parser: <AuthData as Parsable<'_>>::spec_parser() }).spec_parse(s, 14)
                == Ok::<(int, Seq<u8>), ParsingError>((skip_ws(s, 14 + 2 * AUTHDATA_SIZE), d))
        }),
{
    let s = "Trace Connect "@ + bytes_hex(d) + t;
    lemma_connect_text(d, t);
    let auth = <AuthData as Parsable<'_>>::spec_parser();
    lemma_authdata_reads_hex_pairs(d, t);
    lemma_authdata_parser_reads_rest();
    lemma_reads_the_rest(&auth, s, 14);
    assert(skip_ws(s, 14) == 14);
}

/// A `Connect` trace with [AUTHDATA_SIZE] bytes written as hexadecimal pairs, as in
/// `Trace Connect 0a1b...`, reads as the connection with exactly those bytes, and stops
/// where the text after the digits starts (after any whitespace there).
pub proof fn lemma_connect_reads_hex_pairs(d: Seq<u8>, t: Seq<char>)
    requires
        d.len() == AUTHDATA_SIZE,
    ensures
        ({
            let s = "Trace Connect "@ + bytes_hex(d) + t;
            spec_app_log_trace_kind_parser().spec_parse(s, 0) == Ok::<
                (int, SpecAppLogTraceKind),
                ParsingError,
            >((skip_ws(s, 14 + 2 * AUTHDATA_SIZE), SpecAppLogTraceKind::Connect(d)))
        }),
{
    let s = "Trace Connect "@ + bytes_hex(d) + t;
    lemma_connect_text(d, t);
    lemma_connect_auth(d, t);
    let trace = spec_app_log_trace_kind_parser();
    let connect = trace.dest_parser.parser.0;
    assert(skip_ws(s, 6) == 6);
    assert(skip_ws(s, 5) == 6);
    assert(skip_ws(s, 14) == 14);
    assert(skip_ws(s, 13) == 14);
    assert(connect.parser.prefix_to_ignore.spec_parse(s, 5) == Ok::<(int, ()), ParsingError>(
        (14, ()),
    ));
    assert(connect.spec_parse(s, 5) == Ok::<(int, SpecAppLogTraceKind), ParsingError>(
        (skip_ws(s, 14 + 2 * AUTHDATA_SIZE), SpecAppLogTraceKind::Connect(d)),
    ));
}

proof fn lemma_bytes_hex_first(d: Seq<u8>)
    requires
        d.len() > 0,
    ensures
        bytes_hex(d).len() > 0,
        is_hex_digit(bytes_hex(d)[0]),
        !is_ws(bytes_hex(d)[0]),
{
    lemma_bytes_hex_index(d);
    assert(bytes_hex(d)[2 * 0int] == digit_char(d[0] as nat / 16));
    lemma_digit_char(d[0] as nat / 16);
}

/// With fewer than [AUTHDATA_SIZE] bytes written as hexadecimal pairs after
/// `Trace Connect `, followed by the end of the text or by a character that is neither
/// a hexadecimal digit nor whitespace, the trace is refused.
pub proof fn lemma_connect_refuses_short_data(d: Seq<u8>, t: Seq<char>)
    requires
        d.len() < AUTHDATA_SIZE,
        t.len() == 0 || (!is_hex_digit(t[0]) && !is_ws(t[0])),
    ensures
        spec_app_log_trace_kind_parser().spec_parse("Trace Connect "@ + bytes_hex(d) + t, 0) is Err,
{
    reveal_strlit("SendRequest");
    reveal_strlit("Check");
    reveal_strlit("GetResponse");
    let s = "Trace Connect "@ + bytes_hex(d) + t;
    lemma_connect_text(d, t);
    let trace = spec_app_log_trace_kind_parser();
    let alts = trace.dest_parser.parser;
    let auth = <AuthData as Parsable<'_>>::spec_parser();
    assert(skip_ws(s, 6) == 6);
    assert(skip_ws(s, 5) == 6);
    assert(skip_ws(s, 14) == 14);
    assert(skip_ws(s, 13) == 14);
    assert(auth.spec_parse(s, 14) is Err) by {
        lemma_authdata_reads_hex_pairs(d, t);
        lemma_authdata_parser_reads_rest();
        lemma_reads_the_rest(&auth, s, 14);
    }
    assert(alts.0.spec_parse(s, 5) is Err);
    assert(!occurs_at(s, 6, "SendRequest"@)) by {
        if occurs_at(s, 6, "SendRequest"@) {
            assert(s.subrange(6, 6int + "SendRequest"@.len())[0] == s[6]);
        }
    }
    assert(alts.1.spec_parse(s, 5) is Err);
    assert(!occurs_at(s, 6, "Check"@)) by {
        if occurs_at(s, 6, "Check"@) {
            assert(s.subrange(6, 6int + "Check"@.len())[1] == s[7]);
        }
    }
    assert(alts.2.spec_parse(s, 5) is Err);
    assert(!occurs_at(s, 6, "GetResponse"@)) by {
        if occurs_at(s, 6, "GetResponse"@) {
            assert(s.subrange(6, 6int + "GetResponse"@.len())[0] == s[6]);
        }
    }
    assert(alts.3.spec_parse(s, 5) is Err);
}

// ----- What each value read holds -----

/// A bucket holds the asset and the count that its record reads.
pub proof fn lemma_bucket_holds_its_fields(s: Seq<char>, pos: int)
    ensures
        spec_bucket_parser().spec_parse(s, pos) == match spec_record(
            "Bucket",
            "asset_id",
            ParseAssetIdentifier,
            "count",
            NonZeroU32Parser,
        ).spec_parse(s, pos) {
            Ok((e, (a, c))) => Ok::<(int, SpecBucket), ParsingError>(
                (e, SpecBucket { asset_id: a, count: c }),
            ),
            Err(err) => Err(err),
        },
{
}

/// A user's cash holds the user and the count that its record reads.
pub proof fn lemma_user_cash_holds_its_fields(s: Seq<char>, pos: int)
    ensures
        spec_user_cash_parser().spec_parse(s, pos) == match spec_record(
            "UserCash",
            "user_id",
            ParseUserId,
            "count",
            NonZeroU32Parser,
        ).spec_parse(s, pos) {
            Ok((e, (u, c))) => Ok::<(int, SpecUserCash), ParsingError>(
                (e, SpecUserCash { user_id: u, count: c }),
            ),
            Err(err) => Err(err),
        },
{
}

/// A user's bucket holds the user and the bucket that its record reads.
pub proof fn lemma_user_bucket_holds_its_fields(s: Seq<char>, pos: int)
    ensures
        spec_user_bucket_parser().spec_parse(s, pos) == match spec_record(
            "UserBucket",
            "user_id",
            ParseUserId,
            "Bucket",
            spec_bucket_parser(),
        ).spec_parse(s, pos) {
            Ok((e, (u, b))) => Ok::<(int, SpecUserBucket), ParsingError>(
                (e, SpecUserBucket { user_id: u, bucket: b }),
            ),
            Err(err) => Err(err),
        },
{
}

/// A user's buckets hold the user and every bucket of the list that the record reads,
/// in order.
pub proof fn lemma_user_buckets_hold_their_fields(s: Seq<char>, pos: int)
    ensures
        spec_user_buckets_parser().spec_parse(s, pos) == match spec_record(
            "UserBuckets",
            "user_id",
            ParseUserId,
            "buckets",
            List { parser: spec_bucket_parser() },
        ).spec_parse(s, pos) {
            Ok((e, (u, b))) => Ok::<(int, SpecUserBuckets), ParsingError>(
                (e, SpecUserBuckets { user_id: u, buckets: b }),
            ),
            Err(err) => Err(err),
        },
{
}

/// Announcements hold every item of the list read, in order, and nothing else.
pub proof fn lemma_announcements_hold_the_list(s: Seq<char>, pos: int)
    ensures
        spec_announcements_parser().spec_parse(s, pos) == (List {
            parser: spec_user_buckets_parser(),
        }).spec_parse(s, pos),
{
}

/// An asset description holds the id and the description that its record reads.
pub proof fn lemma_asset_dsc_holds_its_fields(s: Seq<char>, pos: int)
    ensures
        <AssetDsc as Parsable<'_>>::spec_parser().spec_parse(s, pos) == match spec_record(
            "AssetDsc",
            "id",
            Unquote,
            "dsc",
            Unquote,
        ).spec_parse(s, pos) {
            Ok((e, (i, d))) => Ok::<(int, SpecAssetDsc), ParsingError>(
                (e, SpecAssetDsc { id: i, dsc: d }),
            ),
            Err(err) => Err(err),
        },
{
}

/// A status read is a success only where `Ok` stands, and a failure only where
/// `Err("message")` stands, with that message.
pub proof fn lemma_status_names_its_kind(s: Seq<char>, pos: int)
    ensures
        match <Status as Parsable<'_>>::spec_parser().spec_parse(s, pos) {
            Ok((e, SpecStatus::Success)) => Tag("Ok").spec_parse(s, pos) == Ok::<
                (int, ()),
                ParsingError,
            >((e, ())),
            Ok((e, SpecStatus::Failure(m))) => (Delimited {
                prefix_to_ignore: Tag("Err("),
                dest_parser: Unquote,
                suffix_to_ignore: Tag(")"),
            }).spec_parse(s, pos) == Ok::<(int, Seq<char>), ParsingError>((e, m)),
            Err(_) => true,
        },
{
}

/// A system error names its kind: it is a network error only where `Error` is followed
/// by the label `NetworkError` and a quoted text, an access refusal only where it is
/// followed by `AccessDenied` and a quoted text; and it holds that text.
pub proof fn lemma_system_error_names_its_kind(s: Seq<char>, pos: int)
    ensures
        match spec_system_log_error_kind_parser().spec_parse(s, pos) {
            Ok((e, SpecSystemLogErrorKind::NetworkError(t))) => occurs_at(s, pos, "Error"@)
                && spec_labelled_text("NetworkError").spec_parse(s, pos + "Error"@.len()) == Ok::<
                (int, Seq<char>),
                ParsingError,
            >((e, t)),
            Ok((e, SpecSystemLogErrorKind::AccessDenied(t))) => occurs_at(s, pos, "Error"@)
                && spec_labelled_text("AccessDenied").spec_parse(s, pos + "Error"@.len()) == Ok::<
                (int, Seq<char>),
                ParsingError,
            >((e, t)),
            Err(_) => true,
        },
{
}

/// A system trace names its kind: a request sent only after the label `SendRequest`, a
/// response got only after `GetResponse`; and it holds the quoted text after the label.
pub proof fn lemma_system_trace_names_its_kind(s: Seq<char>, pos: int)
    ensures
        match spec_system_log_trace_kind_parser().spec_parse(s, pos) {
            Ok((e, SpecSystemLogTraceKind::SendRequest(t))) => occurs_at(s, pos, "Trace"@)
                && spec_labelled_text("SendRequest").spec_parse(s, pos + "Trace"@.len()) == Ok::<
                (int, Seq<char>),
                ParsingError,
            >((e, t)),
            Ok((e, SpecSystemLogTraceKind::GetResponse(t))) => occurs_at(s, pos, "Trace"@)
                && spec_labelled_text("GetResponse").spec_parse(s, pos + "Trace"@.len()) == Ok::<
                (int, Seq<char>),
                ParsingError,
            >((e, t)),
            Err(_) => true,
        },
{
}

/// An application error names its kind: a lack only after the label `LackOf`, a system
/// error only after `SystemError`; and it holds the quoted text after the label.
pub proof fn lemma_app_error_names_its_kind(s: Seq<char>, pos: int)
    ensures
        match spec_app_log_error_kind_parser().spec_parse(s, pos) {
            Ok((e, SpecAppLogErrorKind::LackOf(t))) => occurs_at(s, pos, "Error"@)
                && spec_labelled_text("LackOf").spec_parse(s, pos + "Error"@.len()) == Ok::<
                (int, Seq<char>),
                ParsingError,
            >((e, t)),
            Ok((e, SpecAppLogErrorKind::SystemError(t))) => occurs_at(s, pos, "Error"@)
                && spec_labelled_text("SystemError").spec_parse(s, pos + "Error"@.len()) == Ok::<
                (int, Seq<char>),
                ParsingError,
            >((e, t)),
            Err(_) => true,
        },
{
}

/// An application trace names its kind and holds what follows its label: the
/// authorization data after `Connect`, the text after `SendRequest` or `GetResponse`,
/// the announcements after `Check`.
pub proof fn lemma_app_trace_names_its_kind(s: Seq<char>, pos: int)
    ensures
        match spec_app_log_trace_kind_parser().spec_parse(s, pos) {
            Ok((e, SpecAppLogTraceKind::Connect(d))) => occurs_at(s, pos, "Trace"@)
                && spec_labelled("Connect", <AuthData as Parsable<'_>>::spec_parser()).spec_parse(
                s,
                pos + "Trace"@.len(),
            ) == Ok::<(int, Seq<u8>), ParsingError>((e, d)),
            Ok((e, SpecAppLogTraceKind::SendRequest(t))) => occurs_at(s, pos, "Trace"@)
                && spec_labelled_text("SendRequest").spec_parse(s, pos + "Trace"@.len()) == Ok::<
                (int, Seq<char>),
                ParsingError,
            >((e, t)),
            Ok((e, SpecAppLogTraceKind::Check(a))) => occurs_at(s, pos, "Trace"@) && spec_labelled(
                "Check",
                spec_announcements_parser(),
            ).spec_parse(s, pos + "Trace"@.len()) == Ok::<
                (int, Seq<SpecUserBuckets>),
                ParsingError,
            >((e, a)),
            Ok((e, SpecAppLogTraceKind::GetResponse(t))) => occurs_at(s, pos, "Trace"@)
                && spec_labelled_text("GetResponse").spec_parse(s, pos + "Trace"@.len()) == Ok::<
                (int, Seq<char>),
                ParsingError,
            >((e, t)),
            Err(_) => true,
        },
{
}

/// A system entry is a trace only where `System::` is followed by a trace, an error only
/// where it is followed by an error, and holds what that part reads.
pub proof fn lemma_system_kind_names_its_kind(s: Seq<char>, pos: int)
    ensures
        ({
            let q = skip_ws(s, pos) + "System::"@.len();
            match spec_system_log_kind_parser().spec_parse(s, pos) {
                Ok((e, SpecSystemLogKind::Trace(k))) => occurs_at(s, skip_ws(s, pos), "System::"@)
                    && (spec_system_log_trace_kind_parser().spec_parse(s, q) matches Ok((e2, k2))
                    && k2 == k && e == skip_ws(s, e2)),
                Ok((e, SpecSystemLogKind::Error(k))) => occurs_at(s, skip_ws(s, pos), "System::"@)
                    && (spec_system_log_error_kind_parser().spec_parse(s, q) matches Ok((e2, k2))
                    && k2 == k && e == skip_ws(s, e2)),
                Err(_) => true,
            }
        }),
{
}

/// An application entry is an error, a trace or a journal entry only where `App::` is
/// followed by one, and holds what that part reads.
pub proof fn lemma_app_kind_names_its_kind(s: Seq<char>, pos: int)
    ensures
        ({
            let q = skip_ws(s, pos) + "App::"@.len();
            match spec_app_log_kind_parser().spec_parse(s, pos) {
                Ok((e, SpecAppLogKind::Error(k))) => occurs_at(s, skip_ws(s, pos), "App::"@)
                    && (spec_app_log_error_kind_parser().spec_parse(s, q) matches Ok((e2, k2))
                    && k2 == k && e == skip_ws(s, e2)),
                Ok((e, SpecAppLogKind::Trace(k))) => occurs_at(s, skip_ws(s, pos), "App::"@)
                    && (spec_app_log_trace_kind_parser().spec_parse(s, q) matches Ok((e2, k2))
                    && k2 == k && e == skip_ws(s, e2)),
                Ok((e, SpecAppLogKind::Journal(k))) => occurs_at(s, skip_ws(s, pos), "App::"@)
                    && (spec_app_log_journal_kind_parser().spec_parse(s, q) matches Ok((e2, k2))
                    && k2 == k && e == skip_ws(s, e2)),
                Err(_) => true,
            }
        }),
{
}

/// A log entry is a system entry only where the system parser reads one, an
/// application entry only where the application parser reads one, and holds it.
pub proof fn lemma_log_kind_names_its_kind(s: Seq<char>, pos: int)
    ensures
        match spec_log_kind_parser().spec_parse(s, pos) {
            Ok((e, SpecLogKind::System(k))) => spec_system_log_kind_parser().spec_parse(
                s,
                skip_ws(s, pos),
            ) matches Ok((e2, k2)) && k2 == k && e == skip_ws(s, e2),
            Ok((e, SpecLogKind::App(k))) => spec_app_log_kind_parser().spec_parse(
                s,
                skip_ws(s, pos),
            ) matches Ok((e2, k2)) && k2 == k && e == skip_ws(s, e2),
            Err(_) => true,
        },
{
}

/// A log line holds the entry read first and the request id read after
/// `requestid=`.
pub proof fn lemma_log_line_holds_kind_and_request_id(s: Seq<char>, pos: int)
    ensures
        <LogLine as Parsable<'_>>::spec_parser().spec_parse(s, pos) matches Ok((e, line)) ==> (
        spec_log_kind_parser().spec_parse(s, pos) matches Ok((e1, k)) && k == line.kind && (
        StripWhitespace {
            parser: Preceded { prefix_to_ignore: Tag("requestid="), dest_parser: NonZeroU32Parser },
        }).spec_parse(s, e1) == Ok::<(int, u32), ParsingError>((e, line.request_id))),
{
    reveal(spec_log_line_parser);
}

/// The amount check, on any journal entry: a user created with less than 10 usd of
/// capital is refused with `CapitalTooLow`, an asset registered with less than 50 usd
/// of liquidity with `LiquidityTooLow`, and every other entry passes.
pub proof fn lemma_journal_amounts_check_entries(v: SpecAppLogJournalKind)
    ensures
        (v matches SpecAppLogJournalKind::CreateUser { authorized_capital: c, .. } && c < 10)
            ==> JournalAmounts.spec_check(v) == Some(ParsingError::CapitalTooLow),
        (v matches SpecAppLogJournalKind::RegisterAsset { liquidity: l, .. } && l < 50)
            ==> JournalAmounts.spec_check(v) == Some(ParsingError::LiquidityTooLow),
        !(v matches SpecAppLogJournalKind::CreateUser { authorized_capital: c, .. } && c < 10)
            && !(v matches SpecAppLogJournalKind::RegisterAsset { liquidity: l, .. } && l < 50)
            ==> JournalAmounts.spec_check(v) is None,
{
}

/// The amount check refuses only a user created with less than [MIN_CAPITAL] usd
/// (`CapitalTooLow`) and an asset registered with less than [MIN_LIQUIDITY] usd
/// (`LiquidityTooLow`); every other outcome of reading a journal entry, success or
/// error, is left as it is.
pub proof fn lemma_journal_check_refuses_only_low_amounts(s: Seq<char>, pos: int)
    ensures
        ({
            let entry = spec_journal_entry_parser().spec_parse(s, pos);
            let r = spec_app_log_journal_kind_parser().spec_parse(s, pos);
            let low_capital = entry matches Ok(
                (_, SpecAppLogJournalKind::CreateUser { authorized_capital: c, .. }),
            ) && c < 10;
            let low_liquidity = entry matches Ok(
                (_, SpecAppLogJournalKind::RegisterAsset { liquidity: l, .. }),
            ) && l < 50;
            &&& low_capital ==> r == Err::<(int, SpecAppLogJournalKind), ParsingError>(
                ParsingError::CapitalTooLow,
            )
            &&& low_liquidity ==> r == Err::<(int, SpecAppLogJournalKind), ParsingError>(
                ParsingError::LiquidityTooLow,
            )
            &&& !low_capital && !low_liquidity ==> r == entry
        }),
{
    if let Ok((_, v)) = spec_journal_entry_parser().spec_parse(s, pos) {
        lemma_journal_amounts_check_entries(v);
    }
}

/// A journal entry holds what its body reads: the fields of the braced body after
/// `CreateUser`, `DeleteUser`, `RegisterAsset` or `UnregisterAsset`, in the order of
/// the entry whatever their order in the text, and the record after `DepositCash`,
/// `WithdrawCash`, `BuyAsset` or `SellAsset`.
#[verifier::spinoff_prover]
#[verifier::rlimit(60)]
pub proof fn lemma_journal_entry_holds_its_body(s: Seq<char>, pos: int)
    ensures
        ({
            let p1 = pos + "Journal"@.len();
            match spec_app_log_journal_kind_parser().spec_parse(s, pos) {
                Ok((e, SpecAppLogJournalKind::CreateUser { user_id, authorized_capital })) =>
                    spec_braced(
                    "CreateUser",
                    Permutation {
                        parsers: (
                            spec_key_value("user_id", ParseUserId),
                            spec_key_value("authorized_capital", NonZeroU32Parser),
                        ),
                    },
                ).spec_parse(s, p1) == Ok::<(int, (Seq<char>, u32)), ParsingError>(
                    (e, (user_id, authorized_capital)),
                ),
                Ok((e, SpecAppLogJournalKind::DeleteUser { user_id })) => spec_braced(
                    "DeleteUser",
                    spec_key_value("user_id", ParseUserId),
                ).spec_parse(s, p1) == Ok::<(int, Seq<char>), ParsingError>((e, user_id)),
                Ok((e, SpecAppLogJournalKind::RegisterAsset { asset_id, user_id, liquidity })) =>
                    spec_braced(
                    "RegisterAsset",
                    Permutation {
                        parsers: (
                            spec_key_value("asset_id", ParseAssetIdentifier),
                            spec_key_value("user_id", ParseUserId),
                            spec_key_value("liquidity", NonZeroU32Parser),
                        ),
                    },
                ).spec_parse(s, p1) == Ok::<(int, (Seq<char>, Seq<char>, u32)), ParsingError>(
                    (e, (asset_id, user_id, liquidity)),
                ),
                Ok((e, SpecAppLogJournalKind::UnregisterAsset { asset_id, user_id })) =>
                    spec_braced(
                    "UnregisterAsset",
                    Permutation {
                        parsers: (
                            spec_key_value("asset_id", ParseAssetIdentifier),
                            spec_key_value("user_id", ParseUserId),
                        ),
                    },
                ).spec_parse(s, p1) == Ok::<(int, (Seq<char>, Seq<char>)), ParsingError>(
                    (e, (asset_id, user_id)),
                ),
                Ok((e, SpecAppLogJournalKind::DepositCash(c))) => spec_prefixed(
                    "DepositCash",
                    spec_user_cash_parser(),
                ).spec_parse(s, p1) == Ok::<(int, SpecUserCash), ParsingError>((e, c)),
                Ok((e, SpecAppLogJournalKind::WithdrawCash(c))) => spec_prefixed(
                    "WithdrawCash",
                    spec_user_cash_parser(),
                ).spec_parse(s, p1) == Ok::<(int, SpecUserCash), ParsingError>((e, c)),
                Ok((e, SpecAppLogJournalKind::BuyAsset(b))) => spec_prefixed(
                    "BuyAsset",
                    spec_user_bucket_parser(),
                ).spec_parse(s, p1) == Ok::<(int, SpecUserBucket), ParsingError>((e, b)),
                Ok((e, SpecAppLogJournalKind::SellAsset(b))) => spec_prefixed(
                    "SellAsset",
                    spec_user_bucket_parser(),
                ).spec_parse(s, p1) == Ok::<(int, SpecUserBucket), ParsingError>((e, b)),
                Err(_) => true,
            }
        }),
{
    let entries = spec_journal_entry_parser();
    if spec_app_log_journal_kind_parser().spec_parse(s, pos) is Ok {
        assert(entries.spec_parse(s, pos) is Ok);
        let p1 = pos + "Journal"@.len();
        let alts = entries.dest_parser.parser;
        assert(entries.dest_parser.spec_parse(s, p1) == entries.spec_parse(s, pos));
        if alts.0.spec_parse(s, p1) is Ok {
        } else if alts.1.spec_parse(s, p1) is Ok {
        } else if alts.2.spec_parse(s, p1) is Ok {
        } else if alts.3.spec_parse(s, p1) is Ok {
        } else if alts.4.spec_parse(s, p1) is Ok {
        } else if alts.5.spec_parse(s, p1) is Ok {
        } else if alts.6.spec_parse(s, p1) is Ok {
        } else {
        }
    }
}

/// Two texts that differ at `i` do not both stand at the same place.
proof fn lemma_labels_exclusive(s: Seq<char>, q: int, a: Seq<char>, b: Seq<char>, i: int)
    requires
        occurs_at(s, q, b),
        0 <= i < a.len(),
        i < b.len(),
        a[i] != b[i],
    ensures
        !occurs_at(s, q, a),
{
    if occurs_at(s, q, a) {
        assert(s.subrange(q, q + a.len())[i] == s[q + i]);
        assert(s.subrange(q, q + b.len())[i] == s[q + i]);
    }
}

/// Where `Error` is followed by the label `NetworkError` (or `AccessDenied`) and a
/// quoted text, the system error read is a network error (or an access refusal)
/// holding that text.
pub proof fn lemma_system_error_reads_its_label(s: Seq<char>, pos: int)
    ensures
        spec_labelled_text("NetworkError").spec_parse(s, pos + "Error"@.len()) matches Ok((e, t)) ==> (occurs_at(
            s,
            pos,
            "Error"@,
        ) ==> spec_system_log_error_kind_parser().spec_parse(s, pos) == Ok::<(int, SpecSystemLogErrorKind), ParsingError>((e, SpecSystemLogErrorKind::NetworkError(t)))),
        spec_labelled_text("AccessDenied").spec_parse(s, pos + "Error"@.len()) matches Ok((e, t)) ==> (occurs_at(
            s,
            pos,
            "Error"@,
        ) ==> spec_system_log_error_kind_parser().spec_parse(s, pos) == Ok::<(int, SpecSystemLogErrorKind), ParsingError>((e, SpecSystemLogErrorKind::AccessDenied(t)))),
{
    reveal_strlit("NetworkError");
    reveal_strlit("AccessDenied");
    let p1 = pos + "Error"@.len();
    let q = skip_ws(s, p1);
    if spec_labelled_text("AccessDenied").spec_parse(s, p1) is Ok {
        lemma_labels_exclusive(s, q, "NetworkError"@, "AccessDenied"@, 0);
    }
}

/// Where `Trace` is followed by the label `SendRequest` (or `GetResponse`) and a quoted
/// text, the system trace read is that kind holding that text.
pub proof fn lemma_system_trace_reads_its_label(s: Seq<char>, pos: int)
    ensures
        spec_labelled_text("SendRequest").spec_parse(s, pos + "Trace"@.len()) matches Ok((e, t)) ==> (occurs_at(
            s,
            pos,
            "Trace"@,
        ) ==> spec_system_log_trace_kind_parser().spec_parse(s, pos) == Ok::<(int, SpecSystemLogTraceKind), ParsingError>((e, SpecSystemLogTraceKind::SendRequest(t)))),
        spec_labelled_text("GetResponse").spec_parse(s, pos + "Trace"@.len()) matches Ok((e, t)) ==> (occurs_at(
            s,
            pos,
            "Trace"@,
        ) ==> spec_system_log_trace_kind_parser().spec_parse(s, pos) == Ok::<(int, SpecSystemLogTraceKind), ParsingError>((e, SpecSystemLogTraceKind::GetResponse(t)))),
{
    reveal_strlit("SendRequest");
    reveal_strlit("GetResponse");
    let p1 = pos + "Trace"@.len();
    let q = skip_ws(s, p1);
    if spec_labelled_text("GetResponse").spec_parse(s, p1) is Ok {
        lemma_labels_exclusive(s, q, "SendRequest"@, "GetResponse"@, 0);
    }
}

/// Where `Error` is followed by the label `LackOf` (or `SystemError`) and a quoted text,
/// the application error read is that kind holding that text.
pub proof fn lemma_app_error_reads_its_label(s: Seq<char>, pos: int)
    ensures
        spec_labelled_text("LackOf").spec_parse(s, pos + "Error"@.len()) matches Ok((e, t)) ==> (occurs_at(
            s,
            pos,
            "Error"@,
        ) ==> spec_app_log_error_kind_parser().spec_parse(s, pos) == Ok::<(int, SpecAppLogErrorKind), ParsingError>((e, SpecAppLogErrorKind::LackOf(t)))),
        spec_labelled_text("SystemError").spec_parse(s, pos + "Error"@.len()) matches Ok((e, t)) ==> (occurs_at(
            s,
            pos,
            "Error"@,
        ) ==> spec_app_log_error_kind_parser().spec_parse(s, pos) == Ok::<(int, SpecAppLogErrorKind), ParsingError>((e, SpecAppLogErrorKind::SystemError(t)))),
{
    reveal_strlit("LackOf");
    reveal_strlit("SystemError");
    let p1 = pos + "Error"@.len();
    let q = skip_ws(s, p1);
    if spec_labelled_text("SystemError").spec_parse(s, p1) is Ok {
        lemma_labels_exclusive(s, q, "LackOf"@, "SystemError"@, 0);
    }
}

/// Where `Trace` is followed by `Connect`, `SendRequest`, `Check` or `GetResponse` and
/// what that label takes, the application trace read is that kind holding it.
pub proof fn lemma_app_trace_reads_its_label(s: Seq<char>, pos: int)
    ensures
        spec_labelled("Connect", <AuthData as Parsable<'_>>::spec_parser()).spec_parse(s, pos + "Trace"@.len()) matches Ok((e, d)) ==> (occurs_at(
            s,
            pos,
            "Trace"@,
        ) ==> spec_app_log_trace_kind_parser().spec_parse(s, pos) == Ok::<(int, SpecAppLogTraceKind), ParsingError>((e, SpecAppLogTraceKind::Connect(d)))),
        spec_labelled_text("SendRequest").spec_parse(s, pos + "Trace"@.len()) matches Ok((e, t)) ==> (occurs_at(
            s,
            pos,
            "Trace"@,
        ) ==> spec_app_log_trace_kind_parser().spec_parse(s, pos) == Ok::<(int, SpecAppLogTraceKind), ParsingError>((e, SpecAppLogTraceKind::SendRequest(t)))),
        spec_labelled("Check", spec_announcements_parser()).spec_parse(s, pos + "Trace"@.len()) matches Ok((e, a)) ==> (occurs_at(
            s,
            pos,
            "Trace"@,
        ) ==> spec_app_log_trace_kind_parser().spec_parse(s, pos) == Ok::<(int, SpecAppLogTraceKind), ParsingError>((e, SpecAppLogTraceKind::Check(a)))),
        spec_labelled_text("GetResponse").spec_parse(s, pos + "Trace"@.len()) matches Ok((e, t)) ==> (occurs_at(
            s,
            pos,
            "Trace"@,
        ) ==> spec_app_log_trace_kind_parser().spec_parse(s, pos) == Ok::<(int, SpecAppLogTraceKind), ParsingError>((e, SpecAppLogTraceKind::GetResponse(t)))),
{
    reveal_strlit("Connect");
    reveal_strlit("SendRequest");
    reveal_strlit("Check");
    reveal_strlit("GetResponse");
    let p1 = pos + "Trace"@.len();
    let q = skip_ws(s, p1);
    if spec_labelled_text("SendRequest").spec_parse(s, p1) is Ok {
        lemma_labels_exclusive(s, q, "Connect"@, "SendRequest"@, 0);
    }
    if spec_labelled("Check", spec_announcements_parser()).spec_parse(s, p1) is Ok {
        lemma_labels_exclusive(s, q, "Connect"@, "Check"@, 1);
        lemma_labels_exclusive(s, q, "SendRequest"@, "Check"@, 0);
    }
    if spec_labelled_text("GetResponse").spec_parse(s, p1) is Ok {
        lemma_labels_exclusive(s, q, "Connect"@, "GetResponse"@, 0);
        lemma_labels_exclusive(s, q, "SendRequest"@, "GetResponse"@, 0);
        lemma_labels_exclusive(s, q, "Check"@, "GetResponse"@, 0);
    }
}

/// Where `Ok` stands the status read is a success; where `Err("message")` stands it is
/// a failure with that message.
pub proof fn lemma_status_reads_its_label(s: Seq<char>, pos: int)
    ensures
        Tag("Ok").spec_parse(s, pos) matches Ok((e, _)) ==> <Status as Parsable<
            '_,
        >>::spec_parser().spec_parse(s, pos) == Ok::<(int, SpecStatus), ParsingError>(
            (e, SpecStatus::Success),
        ),
        (Delimited {
            prefix_to_ignore: Tag("Err("),
            dest_parser: Unquote,
            suffix_to_ignore: Tag(")"),
        }).spec_parse(s, pos) matches Ok((e, m)) ==> <Status as Parsable<
            '_,
        >>::spec_parser().spec_parse(s, pos) == Ok::<(int, SpecStatus), ParsingError>(
            (e, SpecStatus::Failure(m)),
        ),
{
    reveal_strlit("Ok");
    reveal_strlit("Err(");
    if Tag("Err(").spec_parse(s, pos) is Ok {
        lemma_labels_exclusive(s, pos, "Ok"@, "Err("@, 0);
    }
}

/// Where `Journal` is followed by the name of an entry's kind and its body, the entry
/// read is of that kind and holds what the body reads (before the amounts are
/// checked, see [lemma_journal_check_refuses_only_low_amounts]).
#[verifier::spinoff_prover]
#[verifier::rlimit(80)]
pub proof fn lemma_journal_entry_reads_its_label(s: Seq<char>, pos: int)
    ensures
        (spec_braced("CreateUser", Permutation { parsers: (spec_key_value("user_id", ParseUserId), spec_key_value("authorized_capital", NonZeroU32Parser)) })).spec_parse(s, pos + "Journal"@.len()) matches Ok((e, (u, c))) ==> (occurs_at(
            s,
            pos,
            "Journal"@,
        ) ==> spec_journal_entry_parser().spec_parse(s, pos) == Ok::<
            (int, SpecAppLogJournalKind),
            ParsingError,
        >((e, SpecAppLogJournalKind::CreateUser { user_id: u, authorized_capital: c }))),
        (spec_braced("DeleteUser", spec_key_value("user_id", ParseUserId))).spec_parse(s, pos + "Journal"@.len()) matches Ok((e, u)) ==> (occurs_at(
            s,
            pos,
            "Journal"@,
        ) ==> spec_journal_entry_parser().spec_parse(s, pos) == Ok::<
            (int, SpecAppLogJournalKind),
            ParsingError,
        >((e, SpecAppLogJournalKind::DeleteUser { user_id: u }))),
        (spec_braced("RegisterAsset", Permutation { parsers: (spec_key_value("asset_id", ParseAssetIdentifier), spec_key_value("user_id", ParseUserId), spec_key_value("liquidity", NonZeroU32Parser)) })).spec_parse(s, pos + "Journal"@.len()) matches Ok((e, (a, u, l))) ==> (occurs_at(
            s,
            pos,
            "Journal"@,
        ) ==> spec_journal_entry_parser().spec_parse(s, pos) == Ok::<
            (int, SpecAppLogJournalKind),
            ParsingError,
        >((e, SpecAppLogJournalKind::RegisterAsset { asset_id: a, user_id: u, liquidity: l }))),
        (spec_braced("UnregisterAsset", Permutation { parsers: (spec_key_value("asset_id", ParseAssetIdentifier), spec_key_value("user_id", ParseUserId)) })).spec_parse(s, pos + "Journal"@.len()) matches Ok((e, (a, u))) ==> (occurs_at(
            s,
            pos,
            "Journal"@,
        ) ==> spec_journal_entry_parser().spec_parse(s, pos) == Ok::<
            (int, SpecAppLogJournalKind),
            ParsingError,
        >((e, SpecAppLogJournalKind::UnregisterAsset { asset_id: a, user_id: u }))),
        (spec_prefixed("DepositCash", spec_user_cash_parser())).spec_parse(s, pos + "Journal"@.len()) matches Ok((e, c)) ==> (occurs_at(
            s,
            pos,
            "Journal"@,
        ) ==> spec_journal_entry_parser().spec_parse(s, pos) == Ok::<
            (int, SpecAppLogJournalKind),
            ParsingError,
        >((e, SpecAppLogJournalKind::DepositCash(c)))),
        (spec_prefixed("WithdrawCash", spec_user_cash_parser())).spec_parse(s, pos + "Journal"@.len()) matches Ok((e, c)) ==> (occurs_at(
            s,
            pos,
            "Journal"@,
        ) ==> spec_journal_entry_parser().spec_parse(s, pos) == Ok::<
            (int, SpecAppLogJournalKind),
            ParsingError,
        >((e, SpecAppLogJournalKind::WithdrawCash(c)))),
        (spec_prefixed("BuyAsset", spec_user_bucket_parser())).spec_parse(s, pos + "Journal"@.len()) matches Ok((e, b)) ==> (occurs_at(
            s,
            pos,
            "Journal"@,
        ) ==> spec_journal_entry_parser().spec_parse(s, pos) == Ok::<
            (int, SpecAppLogJournalKind),
            ParsingError,
        >((e, SpecAppLogJournalKind::BuyAsset(b)))),
        (spec_prefixed("SellAsset", spec_user_bucket_parser())).spec_parse(s, pos + "Journal"@.len()) matches Ok((e, b)) ==> (occurs_at(
            s,
            pos,
            "Journal"@,
        ) ==> spec_journal_entry_parser().spec_parse(s, pos) == Ok::<
            (int, SpecAppLogJournalKind),
            ParsingError,
        >((e, SpecAppLogJournalKind::SellAsset(b)))),
{
    let p1 = pos + "Journal"@.len();
    let q = skip_ws(s, p1);
    let alts = spec_journal_entry_parser().dest_parser.parser;
    reveal_strlit("CreateUser");
    reveal_strlit("DeleteUser");
    reveal_strlit("RegisterAsset");
    reveal_strlit("UnregisterAsset");
    reveal_strlit("DepositCash");
    reveal_strlit("WithdrawCash");
    reveal_strlit("BuyAsset");
    reveal_strlit("SellAsset");
    if alts.1.spec_parse(s, p1) is Ok {
        assert(alts.1.parser.prefix_to_ignore.spec_parse(s, p1) is Ok);
        lemma_labels_exclusive(s, q, "CreateUser"@, "DeleteUser"@, 0);
    }
    if alts.2.spec_parse(s, p1) is Ok {
        assert(alts.2.parser.prefix_to_ignore.spec_parse(s, p1) is Ok);
        lemma_labels_exclusive(s, q, "CreateUser"@, "RegisterAsset"@, 0);
        lemma_labels_exclusive(s, q, "DeleteUser"@, "RegisterAsset"@, 0);
    }
    if alts.3.spec_parse(s, p1) is Ok {
        assert(alts.3.parser.prefix_to_ignore.spec_parse(s, p1) is Ok);
        lemma_labels_exclusive(s, q, "CreateUser"@, "UnregisterAsset"@, 0);
        lemma_labels_exclusive(s, q, "DeleteUser"@, "UnregisterAsset"@, 0);
        lemma_labels_exclusive(s, q, "RegisterAsset"@, "UnregisterAsset"@, 0);
    }
    if alts.4.spec_parse(s, p1) is Ok {
        assert(alts.4.parser.prefix_to_ignore.spec_parse(s, p1) is Ok);
        lemma_labels_exclusive(s, q, "CreateUser"@, "DepositCash"@, 0);
        lemma_labels_exclusive(s, q, "DeleteUser"@, "DepositCash"@, 2);
        lemma_labels_exclusive(s, q, "RegisterAsset"@, "DepositCash"@, 0);
        lemma_labels_exclusive(s, q, "UnregisterAsset"@, "DepositCash"@, 0);
    }
    if alts.5.spec_parse(s, p1) is Ok {
        assert(alts.5.parser.prefix_to_ignore.spec_parse(s, p1) is Ok);
        lemma_labels_exclusive(s, q, "CreateUser"@, "WithdrawCash"@, 0);
        lemma_labels_exclusive(s, q, "DeleteUser"@, "WithdrawCash"@, 0);
        lemma_labels_exclusive(s, q, "RegisterAsset"@, "WithdrawCash"@, 0);
        lemma_labels_exclusive(s, q, "UnregisterAsset"@, "WithdrawCash"@, 0);
        lemma_labels_exclusive(s, q, "DepositCash"@, "WithdrawCash"@, 0);
    }
    if alts.6.spec_parse(s, p1) is Ok {
        assert(alts.6.parser.prefix_to_ignore.spec_parse(s, p1) is Ok);
        lemma_labels_exclusive(s, q, "CreateUser"@, "BuyAsset"@, 0);
        lemma_labels_exclusive(s, q, "DeleteUser"@, "BuyAsset"@, 0);
        lemma_labels_exclusive(s, q, "RegisterAsset"@, "BuyAsset"@, 0);
        lemma_labels_exclusive(s, q, "UnregisterAsset"@, "BuyAsset"@, 0);
        lemma_labels_exclusive(s, q, "DepositCash"@, "BuyAsset"@, 0);
        lemma_labels_exclusive(s, q, "WithdrawCash"@, "BuyAsset"@, 0);
    }
    if alts.7.spec_parse(s, p1) is Ok {
        assert(alts.7.parser.prefix_to_ignore.spec_parse(s, p1) is Ok);
        lemma_labels_exclusive(s, q, "CreateUser"@, "SellAsset"@, 0);
        lemma_labels_exclusive(s, q, "DeleteUser"@, "SellAsset"@, 0);
        lemma_labels_exclusive(s, q, "RegisterAsset"@, "SellAsset"@, 0);
        lemma_labels_exclusive(s, q, "UnregisterAsset"@, "SellAsset"@, 0);
        lemma_labels_exclusive(s, q, "DepositCash"@, "SellAsset"@, 0);
        lemma_labels_exclusive(s, q, "WithdrawCash"@, "SellAsset"@, 0);
        lemma_labels_exclusive(s, q, "BuyAsset"@, "SellAsset"@, 0);
    }
}

/// Where `System::` is followed by a trace (or an error), the system entry read is
/// that trace (or that error).
pub proof fn lemma_system_kind_reads_its_part(s: Seq<char>, pos: int)
    ensures
        spec_system_log_trace_kind_parser().spec_parse(s, skip_ws(s, pos) + "System::"@.len())
            matches Ok((e, k)) ==> (occurs_at(s, skip_ws(s, pos), "System::"@)
            ==> spec_system_log_kind_parser().spec_parse(s, pos) == Ok::<
            (int, SpecSystemLogKind),
            ParsingError,
        >((skip_ws(s, e), SpecSystemLogKind::Trace(k)))),
        spec_system_log_error_kind_parser().spec_parse(s, skip_ws(s, pos) + "System::"@.len())
            matches Ok((e, k)) ==> (occurs_at(s, skip_ws(s, pos), "System::"@)
            ==> spec_system_log_kind_parser().spec_parse(s, pos) == Ok::<
            (int, SpecSystemLogKind),
            ParsingError,
        >((skip_ws(s, e), SpecSystemLogKind::Error(k)))),
{
    reveal_strlit("Trace");
    reveal_strlit("Error");
    let q = skip_ws(s, pos) + "System::"@.len();
    if spec_system_log_error_kind_parser().spec_parse(s, q) is Ok {
        lemma_labels_exclusive(s, q, "Trace"@, "Error"@, 0);
    }
}

/// Where `App::` is followed by an error, a trace or a journal entry, the application
/// entry read is that one.
pub proof fn lemma_app_kind_reads_its_part(s: Seq<char>, pos: int)
    ensures
        spec_app_log_error_kind_parser().spec_parse(s, skip_ws(s, pos) + "App::"@.len())
            matches Ok((e, k)) ==> (occurs_at(s, skip_ws(s, pos), "App::"@)
            ==> spec_app_log_kind_parser().spec_parse(s, pos) == Ok::<
            (int, SpecAppLogKind),
            ParsingError,
        >((skip_ws(s, e), SpecAppLogKind::Error(k)))),
        spec_app_log_trace_kind_parser().spec_parse(s, skip_ws(s, pos) + "App::"@.len())
            matches Ok((e, k)) ==> (occurs_at(s, skip_ws(s, pos), "App::"@)
            ==> spec_app_log_kind_parser().spec_parse(s, pos) == Ok::<
            (int, SpecAppLogKind),
            ParsingError,
        >((skip_ws(s, e), SpecAppLogKind::Trace(k)))),
        spec_app_log_journal_kind_parser().spec_parse(s, skip_ws(s, pos) + "App::"@.len())
            matches Ok((e, k)) ==> (occurs_at(s, skip_ws(s, pos), "App::"@)
            ==> spec_app_log_kind_parser().spec_parse(s, pos) == Ok::<
            (int, SpecAppLogKind),
            ParsingError,
        >((skip_ws(s, e), SpecAppLogKind::Journal(k)))),
{
    reveal_strlit("Trace");
    reveal_strlit("Error");
    reveal_strlit("Journal");
    let q = skip_ws(s, pos) + "App::"@.len();
    if spec_app_log_trace_kind_parser().spec_parse(s, q) is Ok {
        lemma_labels_exclusive(s, q, "Error"@, "Trace"@, 0);
    }
    if spec_app_log_journal_kind_parser().spec_parse(s, q) is Ok {
        assert(spec_journal_entry_parser().spec_parse(s, q) is Ok);
        lemma_labels_exclusive(s, q, "Error"@, "Journal"@, 0);
        lemma_labels_exclusive(s, q, "Trace"@, "Journal"@, 0);
    }
}

/// A system entry read where the log entry starts makes the log entry a system one,
/// and an application entry makes it an application one.
pub proof fn lemma_log_kind_reads_its_part(s: Seq<char>, pos: int)
    requires
        0 <= pos <= s.len(),
    ensures
        spec_system_log_kind_parser().spec_parse(s, skip_ws(s, pos)) matches Ok((e, k))
            ==> spec_log_kind_parser().spec_parse(s, pos) == Ok::<(int, SpecLogKind), ParsingError>(
            (skip_ws(s, e), SpecLogKind::System(k)),
        ),
        spec_app_log_kind_parser().spec_parse(s, skip_ws(s, pos)) matches Ok((e, k))
            ==> spec_log_kind_parser().spec_parse(s, pos) == Ok::<(int, SpecLogKind), ParsingError>(
            (skip_ws(s, e), SpecLogKind::App(k)),
        ),
{
    reveal_strlit("System::");
    reveal_strlit("App::");
    let p = skip_ws(s, pos);
    let q = skip_ws(s, p);
    if spec_app_log_kind_parser().spec_parse(s, p) is Ok {
        lemma_labels_exclusive(s, q, "System::"@, "App::"@, 0);
    }
}

} // verus!
