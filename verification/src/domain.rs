//! The data that the logs speak of: users, assets, amounts.
use vstd::prelude::*;
use crate::error::ParsingError;

verus! {

/// Identifier of an asset: a non-empty string.
#[derive(Debug, PartialEq)]
pub struct AssetIdentifier(String);

impl AssetIdentifier {
    #[verifier::type_invariant]
    spec fn non_empty(self) -> bool {
        self.0@.len() > 0
    }

    pub closed spec fn spec_text(&self) -> Seq<char> {
        self.0@
    }

    /// Reads an identifier: `Ok` exactly when `s` is not empty.
    pub fn parse_str(s: &str) -> (r: Result<AssetIdentifier, ParsingError>)
        ensures
            s@.len() == 0 ==> r == Err::<AssetIdentifier, ParsingError>(ParsingError::ParseUserIdError),
            s@.len() > 0 ==> (r matches Ok(id) && id.deep_view() == s@),
    {
        if s.is_empty() {
            Err(ParsingError::ParseUserIdError)
        } else {
            Ok(AssetIdentifier(s.to_owned()))
        }
    }

    /// The identifier as text.
    pub fn as_str(&self) -> (r: &str)
        ensures
            r@ == self.deep_view(),
            r@.len() > 0,
    {
        proof {
            use_type_invariant(self);
        }
        self.0.as_str()
    }
}

impl DeepView for AssetIdentifier {
    type V = Seq<char>;

    open spec fn deep_view(&self) -> Seq<char> {
        self.spec_text()
    }
}

impl Clone for AssetIdentifier {
    fn clone(&self) -> (r: AssetIdentifier)
        ensures
            r == *self,
    {
        proof {
            use_type_invariant(self);
        }
        AssetIdentifier(self.0.clone())
    }
}

impl AsRef<str> for AssetIdentifier {
    fn as_ref(&self) -> (r: &str)
        ensures
            r@ == self.deep_view(),
    {
        self.0.as_str()
    }
}

impl std::ops::Deref for AssetIdentifier {
    type Target = String;

    fn deref(&self) -> (r: &String)
        ensures
            r@ == self.deep_view(),
    {
        &self.0
    }
}

impl std::str::FromStr for AssetIdentifier {
    type Err = ParsingError;

    fn from_str(s: &str) -> (r: Result<Self, Self::Err>)
        ensures
            s@.len() == 0 ==> r == Err::<AssetIdentifier, ParsingError>(ParsingError::ParseUserIdError),
            s@.len() > 0 ==> (r matches Ok(id) && id.deep_view() == s@),
    {
        AssetIdentifier::parse_str(s)
    }
}

/// Identifier of a user: a non-empty string.
#[derive(Debug, PartialEq)]
pub struct UserId(String);

impl UserId {
    #[verifier::type_invariant]
    spec fn non_empty(self) -> bool {
        self.0@.len() > 0
    }

    pub closed spec fn spec_text(&self) -> Seq<char> {
        self.0@
    }

    /// Reads an identifier: `Ok` exactly when `s` is not empty.
    pub fn parse_str(s: &str) -> (r: Result<UserId, ParsingError>)
        ensures
            s@.len() == 0 ==> r == Err::<UserId, ParsingError>(ParsingError::ParseUserIdError),
            s@.len() > 0 ==> (r matches Ok(id) && id.deep_view() == s@),
    {
        if s.is_empty() {
            Err(ParsingError::ParseUserIdError)
        } else {
            Ok(UserId(s.to_owned()))
        }
    }

    /// The identifier as text.
    pub fn as_str(&self) -> (r: &str)
        ensures
            r@ == self.deep_view(),
            r@.len() > 0,
    {
        proof {
            use_type_invariant(self);
        }
        self.0.as_str()
    }

    /// The identifier as an owned string.
    pub fn into_string(self) -> (r: String)
        ensures
            r@ == self.deep_view(),
    {
        self.0
    }
}

impl DeepView for UserId {
    type V = Seq<char>;

    open spec fn deep_view(&self) -> Seq<char> {
        self.spec_text()
    }
}

impl Clone for UserId {
    fn clone(&self) -> (r: UserId)
        ensures
            r == *self,
    {
        proof {
            use_type_invariant(self);
        }
        UserId(self.0.clone())
    }
}

impl AsRef<str> for UserId {
    fn as_ref(&self) -> (r: &str)
        ensures
            r@ == self.deep_view(),
    {
        self.0.as_str()
    }
}

impl std::ops::Deref for UserId {
    type Target = String;

    fn deref(&self) -> (r: &String)
        ensures
            r@ == self.deep_view(),
    {
        &self.0
    }
}

impl std::str::FromStr for UserId {
    type Err = ParsingError;

    fn from_str(s: &str) -> (r: Result<Self, Self::Err>)
        ensures
            s@.len() == 0 ==> r == Err::<UserId, ParsingError>(ParsingError::ParseUserIdError),
            s@.len() > 0 ==> (r matches Ok(id) && id.deep_view() == s@),
    {
        UserId::parse_str(s)
    }
}

/// What a [Bucket] is: an asset and a number of it.
pub struct SpecBucket {
    pub asset_id: Seq<char>,
    pub count: u32,
}

/// An asset in some quantity.
#[derive(Debug, Clone, PartialEq)]
pub struct Bucket {
    asset_id: AssetIdentifier,
    count: u32,
}

impl Bucket {
    pub fn new(asset_id: AssetIdentifier, count: u32) -> (r: Bucket)
        ensures
            r.deep_view() == (SpecBucket { asset_id: asset_id.deep_view(), count }),
    {
        Bucket { asset_id, count }
    }

    pub fn count(&self) -> (r: u32)
        ensures
            r == self.deep_view().count,
    {
        self.count
    }

    pub fn asset_id(&self) -> (r: &AssetIdentifier)
        ensures
            r.deep_view() == self.deep_view().asset_id,
    {
        &self.asset_id
    }
}

impl DeepView for Bucket {
    type V = SpecBucket;

    closed spec fn deep_view(&self) -> SpecBucket {
        SpecBucket { asset_id: self.asset_id.deep_view(), count: self.count }
    }
}

/// What a [UserBucket] is.
pub struct SpecUserBucket {
    pub user_id: Seq<char>,
    pub bucket: SpecBucket,
}

/// A [Bucket] of a given user.
#[derive(Debug, Clone, PartialEq)]
pub struct UserBucket {
    pub user_id: UserId,
    pub bucket: Bucket,
}

impl UserBucket {
    pub fn new(user_id: UserId, bucket: Bucket) -> (r: UserBucket)
        ensures
            r.deep_view() == (SpecUserBucket {
                user_id: user_id.deep_view(),
                bucket: bucket.deep_view(),
            }),
    {
        UserBucket { user_id, bucket }
    }
}

impl DeepView for UserBucket {
    type V = SpecUserBucket;

    open spec fn deep_view(&self) -> SpecUserBucket {
        SpecUserBucket { user_id: self.user_id.deep_view(), bucket: self.bucket.deep_view() }
    }
}

/// What a [UserBuckets] is.
pub struct SpecUserBuckets {
    pub user_id: Seq<char>,
    pub buckets: Seq<SpecBucket>,
}

/// The [Buckets](Bucket) of a given user.
#[derive(Debug, Clone, PartialEq)]
pub struct UserBuckets {
    pub user_id: String,
    pub buckets: Vec<Bucket>,
}

impl UserBuckets {
    pub fn new(user_id: UserId, buckets: Vec<Bucket>) -> (r: UserBuckets)
        ensures
            r.deep_view() == (SpecUserBuckets {
                user_id: user_id.deep_view(),
                buckets: buckets.deep_view(),
            }),
    {
        UserBuckets { user_id: user_id.into_string(), buckets }
    }
}

impl DeepView for UserBuckets {
    type V = SpecUserBuckets;

    open spec fn deep_view(&self) -> SpecUserBuckets {
        SpecUserBuckets { user_id: self.user_id@, buckets: self.buckets.deep_view() }
    }
}

/// What a [UserCash] is.
pub struct SpecUserCash {
    pub user_id: Seq<char>,
    pub count: u32,
}

/// Fiat money of a given user.
#[derive(Debug, Clone, PartialEq)]
pub struct UserCash {
    pub user_id: String,
    pub count: u32,
}

impl UserCash {
    pub fn new(user_id: UserId, count: u32) -> (r: UserCash)
        ensures
            r.deep_view() == (SpecUserCash { user_id: user_id.deep_view(), count }),
    {
        UserCash { user_id: user_id.into_string(), count }
    }
}

impl DeepView for UserCash {
    type V = SpecUserCash;

    open spec fn deep_view(&self) -> SpecUserCash {
        SpecUserCash { user_id: self.user_id@, count: self.count }
    }
}

/// The least authorized capital, in usd, that a user is created with.
pub const MIN_CAPITAL: u32 = 10;

/// The least liquidity, in usd, that an asset is registered with.
pub const MIN_LIQUIDITY: u32 = 50;

/// The number of bytes of authorization data.
pub const AUTHDATA_SIZE: usize = 1024;

/// Authorization data.
#[derive(Debug, Clone, PartialEq)]
pub struct AuthData([u8; AUTHDATA_SIZE]);

impl AuthData {
    pub fn new(d: [u8; AUTHDATA_SIZE]) -> (r: AuthData)
        ensures
            r.deep_view() == d@,
    {
        AuthData(d)
    }

    /// The bytes.
    pub fn bytes(&self) -> (r: &[u8; AUTHDATA_SIZE])
        ensures
            r@ == self.deep_view(),
    {
        &self.0
    }
}

impl DeepView for AuthData {
    type V = Seq<u8>;

    closed spec fn deep_view(&self) -> Seq<u8> {
        self.0@
    }
}

/// The published buckets.
#[derive(Debug, Clone, PartialEq)]
pub struct Announcements(Vec<UserBuckets>);

impl Announcements {
    pub fn new(v: Vec<UserBuckets>) -> (r: Announcements)
        ensures
            r.deep_view() == v.deep_view(),
    {
        Announcements(v)
    }

    /// The announced buckets, user by user.
    pub fn user_buckets(&self) -> (r: &Vec<UserBuckets>)
        ensures
            r.deep_view() == self.deep_view(),
    {
        &self.0
    }
}

impl DeepView for Announcements {
    type V = Seq<SpecUserBuckets>;

    closed spec fn deep_view(&self) -> Seq<SpecUserBuckets> {
        self.0.deep_view()
    }
}

impl From<Vec<UserBuckets>> for Announcements {
    fn from(value: Vec<UserBuckets>) -> (r: Announcements) {
        Announcements(value)
    }
}

impl vstd::std_specs::convert::FromSpecImpl<Vec<UserBuckets>> for Announcements {
    open spec fn obeys_from_spec() -> bool {
        true
    }

    closed spec fn from_spec(v: Vec<UserBuckets>) -> Announcements {
        Announcements(v)
    }
}

} // verus!
