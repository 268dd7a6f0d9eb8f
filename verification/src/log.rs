//! Log lines and their kinds.
use vstd::prelude::*;
use crate::domain::{Announcements, AssetIdentifier, AuthData, SpecUserBucket, SpecUserBuckets, SpecUserCash, UserBucket, UserCash, UserId};

verus! {

/// A log line: a [kind](LogKind) and the `request_id` it belongs to.
#[derive(Debug, Clone, PartialEq)]
pub struct LogLine {
    kind: LogKind,
    request_id: u32,
}

/// All kinds of logs.
#[derive(Debug, Clone, PartialEq)]
pub enum LogKind {
    System(SystemLogKind),
    App(AppLogKind),
}

impl LogLine {
    pub fn new(kind: LogKind, request_id: u32) -> (r: LogLine)
        ensures
            r.kind() == kind,
            r.spec_request_id() == request_id,
    {
        LogLine { kind, request_id }
    }

    pub closed spec fn kind(&self) -> LogKind {
        self.kind
    }

    pub closed spec fn spec_request_id(&self) -> u32 {
        self.request_id
    }

    pub fn request_id(&self) -> (r: u32)
        ensures
            r == self.spec_request_id(),
    {
        self.request_id
    }

    /// Whether the line reports an error.
    pub fn is_error(&self) -> (b: bool)
        ensures
            b == self.kind().spec_is_error(),
    {
        self.kind.is_error()
    }

    /// Whether the line records an exchange of money or assets.
    pub fn is_exchange(&self) -> (b: bool)
        ensures
            b == self.kind().spec_is_exchange(),
    {
        self.kind.is_exchange()
    }
}

impl LogKind {
    /// An error of the system or of the application.
    pub open spec fn spec_is_error(&self) -> bool {
        ||| self matches LogKind::System(SystemLogKind::Error(_))
        ||| self matches LogKind::App(AppLogKind::Error(_))
    }

    /// A journal entry that creates or moves money or assets.
    pub open spec fn spec_is_exchange(&self) -> bool {
        &&& self matches LogKind::App(AppLogKind::Journal(j))
        &&& match j {
            AppLogJournalKind::BuyAsset(_) => true,
            AppLogJournalKind::SellAsset(_) => true,
            AppLogJournalKind::CreateUser { .. } => true,
            AppLogJournalKind::RegisterAsset { .. } => true,
            AppLogJournalKind::DepositCash(_) => true,
            AppLogJournalKind::WithdrawCash(_) => true,
            AppLogJournalKind::DeleteUser { .. } => false,
            AppLogJournalKind::UnregisterAsset { .. } => false,
        }
    }

    pub fn is_error(&self) -> (b: bool)
        ensures
            b == self.spec_is_error(),
    {
        match self {
            LogKind::System(SystemLogKind::Error(_)) => true,
            LogKind::App(AppLogKind::Error(_)) => true,
            _ => false,
        }
    }

    pub fn is_exchange(&self) -> (b: bool)
        ensures
            b == self.spec_is_exchange(),
    {
        match self {
            LogKind::App(AppLogKind::Journal(j)) => match j {
                AppLogJournalKind::BuyAsset(_) | AppLogJournalKind::SellAsset(_)
                | AppLogJournalKind::CreateUser { .. } | AppLogJournalKind::RegisterAsset { .. }
                | AppLogJournalKind::DepositCash(_) | AppLogJournalKind::WithdrawCash(_) => true,
                _ => false,
            },
            _ => false,
        }
    }
}

/// The lines that report an error are exactly the errors of the system and the
/// errors of the application, whatever their variant.
pub proof fn lemma_error_kinds(kind: LogKind)
    ensures
        kind.spec_is_error() <==> ((kind matches LogKind::System(sys) && sys is Error) || (
        kind matches LogKind::App(app) && app is Error)),
        forall|e: SystemLogErrorKind| #[trigger] LogKind::System(SystemLogKind::Error(e)).spec_is_error(),
        forall|e: AppLogErrorKind| #[trigger] LogKind::App(AppLogKind::Error(e)).spec_is_error(),
{
}

/// The lines that record an exchange are exactly the journal entries that create a
/// user, register an asset, deposit or withdraw cash, or buy or sell an asset; no
/// other line, and no other journal entry (deleting a user, unregistering an asset),
/// is one.
pub proof fn lemma_exchange_kinds(kind: LogKind)
    ensures
        kind.spec_is_exchange() <==> (kind matches LogKind::App(AppLogKind::Journal(j)) && (
        j is CreateUser || j is RegisterAsset || j is DepositCash || j is WithdrawCash
            || j is BuyAsset || j is SellAsset)),
        forall|c: UserCash| #[trigger] LogKind::App(AppLogKind::Journal(AppLogJournalKind::DepositCash(c))).spec_is_exchange(),
        forall|c: UserCash| #[trigger] LogKind::App(AppLogKind::Journal(AppLogJournalKind::WithdrawCash(c))).spec_is_exchange(),
        forall|b: UserBucket| #[trigger] LogKind::App(AppLogKind::Journal(AppLogJournalKind::BuyAsset(b))).spec_is_exchange(),
        forall|b: UserBucket| #[trigger] LogKind::App(AppLogKind::Journal(AppLogJournalKind::SellAsset(b))).spec_is_exchange(),
{
}

/// No log line both reports an error and records an exchange.
pub proof fn lemma_error_is_not_exchange(kind: LogKind)
    ensures
        !(kind.spec_is_error() && kind.spec_is_exchange()),
{
}

/// All kinds of [system](LogKind) logs.
#[derive(Debug, Clone, PartialEq)]
pub enum SystemLogKind {
    Error(SystemLogErrorKind),
    Trace(SystemLogTraceKind),
}

/// Trace of the [system](SystemLogKind).
#[derive(Debug, Clone, PartialEq)]
pub enum SystemLogTraceKind {
    SendRequest(String),
    GetResponse(String),
}

/// Error of the [system](SystemLogKind).
#[derive(Debug, Clone, PartialEq)]
pub enum SystemLogErrorKind {
    NetworkError(String),
    AccessDenied(String),
}

/// All kinds of [application](LogKind) logs.
#[derive(Debug, Clone, PartialEq)]
pub enum AppLogKind {
    Error(AppLogErrorKind),
    Trace(AppLogTraceKind),
    Journal(AppLogJournalKind),
}

/// Error of the [application](AppLogKind).
#[derive(Debug, Clone, PartialEq)]
pub enum AppLogErrorKind {
    LackOf(String),
    SystemError(String),
}

/// Trace of the [application](AppLogKind).
#[derive(Debug, Clone, PartialEq)]
pub enum AppLogTraceKind {
    Connect(Box<AuthData>),
    SendRequest(String),
    Check(Announcements),
    GetResponse(String),
}

/// Journal of the [application](AppLogKind): the highest-level events.
/// A user is created with at least [MIN_CAPITAL](crate::domain::MIN_CAPITAL) usd of
/// capital, and an asset is registered with at least
/// [MIN_LIQUIDITY](crate::domain::MIN_LIQUIDITY) usd of liquidity: the parser refuses
/// lower amounts.
#[derive(Debug, Clone, PartialEq)]
pub enum AppLogJournalKind {
    CreateUser { user_id: UserId, authorized_capital: u32 },
    DeleteUser { user_id: UserId },
    RegisterAsset { asset_id: AssetIdentifier, user_id: UserId, liquidity: u32 },
    UnregisterAsset { asset_id: AssetIdentifier, user_id: UserId },
    DepositCash(UserCash),
    WithdrawCash(UserCash),
    BuyAsset(UserBucket),
    SellAsset(UserBucket),
}

// What the log values are, with text as character sequences.

pub enum SpecSystemLogTraceKind {
    SendRequest(Seq<char>),
    GetResponse(Seq<char>),
}

pub enum SpecSystemLogErrorKind {
    NetworkError(Seq<char>),
    AccessDenied(Seq<char>),
}

pub enum SpecSystemLogKind {
    Error(SpecSystemLogErrorKind),
    Trace(SpecSystemLogTraceKind),
}

pub enum SpecAppLogErrorKind {
    LackOf(Seq<char>),
    SystemError(Seq<char>),
}

pub enum SpecAppLogTraceKind {
    Connect(Seq<u8>),
    SendRequest(Seq<char>),
    Check(Seq<SpecUserBuckets>),
    GetResponse(Seq<char>),
}

pub enum SpecAppLogJournalKind {
    CreateUser { user_id: Seq<char>, authorized_capital: u32 },
    DeleteUser { user_id: Seq<char> },
    RegisterAsset { asset_id: Seq<char>, user_id: Seq<char>, liquidity: u32 },
    UnregisterAsset { asset_id: Seq<char>, user_id: Seq<char> },
    DepositCash(SpecUserCash),
    WithdrawCash(SpecUserCash),
    BuyAsset(SpecUserBucket),
    SellAsset(SpecUserBucket),
}

pub enum SpecAppLogKind {
    Error(SpecAppLogErrorKind),
    Trace(SpecAppLogTraceKind),
    Journal(SpecAppLogJournalKind),
}

pub enum SpecLogKind {
    System(SpecSystemLogKind),
    App(SpecAppLogKind),
}

pub struct SpecLogLine {
    pub kind: SpecLogKind,
    pub request_id: u32,
}

impl DeepView for SystemLogTraceKind {
    type V = SpecSystemLogTraceKind;

    open spec fn deep_view(&self) -> SpecSystemLogTraceKind {
        match self {
            SystemLogTraceKind::SendRequest(s) => SpecSystemLogTraceKind::SendRequest(s@),
            SystemLogTraceKind::GetResponse(s) => SpecSystemLogTraceKind::GetResponse(s@),
        }
    }
}

impl DeepView for SystemLogErrorKind {
    type V = SpecSystemLogErrorKind;

    open spec fn deep_view(&self) -> SpecSystemLogErrorKind {
        match self {
            SystemLogErrorKind::NetworkError(s) => SpecSystemLogErrorKind::NetworkError(s@),
            SystemLogErrorKind::AccessDenied(s) => SpecSystemLogErrorKind::AccessDenied(s@),
        }
    }
}

impl DeepView for SystemLogKind {
    type V = SpecSystemLogKind;

    open spec fn deep_view(&self) -> SpecSystemLogKind {
        match self {
            SystemLogKind::Error(e) => SpecSystemLogKind::Error(e.deep_view()),
            SystemLogKind::Trace(t) => SpecSystemLogKind::Trace(t.deep_view()),
        }
    }
}

impl DeepView for AppLogErrorKind {
    type V = SpecAppLogErrorKind;

    open spec fn deep_view(&self) -> SpecAppLogErrorKind {
        match self {
            AppLogErrorKind::LackOf(s) => SpecAppLogErrorKind::LackOf(s@),
            AppLogErrorKind::SystemError(s) => SpecAppLogErrorKind::SystemError(s@),
        }
    }
}

impl DeepView for AppLogTraceKind {
    type V = SpecAppLogTraceKind;

    open spec fn deep_view(&self) -> SpecAppLogTraceKind {
        match self {
            AppLogTraceKind::Connect(d) => SpecAppLogTraceKind::Connect(d.deep_view()),
            AppLogTraceKind::SendRequest(s) => SpecAppLogTraceKind::SendRequest(s@),
            AppLogTraceKind::Check(a) => SpecAppLogTraceKind::Check(a.deep_view()),
            AppLogTraceKind::GetResponse(s) => SpecAppLogTraceKind::GetResponse(s@),
        }
    }
}

impl DeepView for AppLogJournalKind {
    type V = SpecAppLogJournalKind;

    open spec fn deep_view(&self) -> SpecAppLogJournalKind {
        match self {
            AppLogJournalKind::CreateUser { user_id, authorized_capital } =>
                SpecAppLogJournalKind::CreateUser {
                user_id: user_id.deep_view(),
                authorized_capital: *authorized_capital,
            },
            AppLogJournalKind::DeleteUser { user_id } => SpecAppLogJournalKind::DeleteUser {
                user_id: user_id.deep_view(),
            },
            AppLogJournalKind::RegisterAsset { asset_id, user_id, liquidity } =>
                SpecAppLogJournalKind::RegisterAsset {
                asset_id: asset_id.deep_view(),
                user_id: user_id.deep_view(),
                liquidity: *liquidity,
            },
            AppLogJournalKind::UnregisterAsset { asset_id, user_id } =>
                SpecAppLogJournalKind::UnregisterAsset {
                asset_id: asset_id.deep_view(),
                user_id: user_id.deep_view(),
            },
            AppLogJournalKind::DepositCash(c) => SpecAppLogJournalKind::DepositCash(c.deep_view()),
            AppLogJournalKind::WithdrawCash(c) => SpecAppLogJournalKind::WithdrawCash(
                c.deep_view(),
            ),
            AppLogJournalKind::BuyAsset(b) => SpecAppLogJournalKind::BuyAsset(b.deep_view()),
            AppLogJournalKind::SellAsset(b) => SpecAppLogJournalKind::SellAsset(b.deep_view()),
        }
    }
}

impl DeepView for AppLogKind {
    type V = SpecAppLogKind;

    open spec fn deep_view(&self) -> SpecAppLogKind {
        match self {
            AppLogKind::Error(e) => SpecAppLogKind::Error(e.deep_view()),
            AppLogKind::Trace(t) => SpecAppLogKind::Trace(t.deep_view()),
            AppLogKind::Journal(j) => SpecAppLogKind::Journal(j.deep_view()),
        }
    }
}

impl DeepView for LogKind {
    type V = SpecLogKind;

    open spec fn deep_view(&self) -> SpecLogKind {
        match self {
            LogKind::System(s) => SpecLogKind::System(s.deep_view()),
            LogKind::App(a) => SpecLogKind::App(a.deep_view()),
        }
    }
}

impl DeepView for LogLine {
    type V = SpecLogLine;

    open spec fn deep_view(&self) -> SpecLogLine {
        SpecLogLine { kind: self.kind().deep_view(), request_id: self.spec_request_id() }
    }
}

} // verus!
