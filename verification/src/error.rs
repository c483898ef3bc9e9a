//! Errors, and how failures of the transport are told apart.

use crate::text::contains;
use crate::text::contains_text;
use vstd::prelude::*;
use vstd::string::StringExecFns;

verus! {

/// What went wrong in the network.
#[derive(Clone, Copy, Debug, PartialEq, Eq, Structural)]
pub enum NetworkErrorKind {
    Offline,
    Timeout,
    ProxyAuth,
    Other,
}

/// A failure of the transport.
#[derive(Debug, PartialEq, Eq)]
pub struct NetworkError {
    pub info: String,
    pub kind: NetworkErrorKind,
}

/// How many objects of each kind one side of a synchronisation holds.
#[derive(Clone, Copy, Debug, PartialEq, Eq, Structural)]
pub struct SanityCheckCounts {
    pub new_cards: u32,
    pub learn_cards: u32,
    pub review_cards: u32,
    pub cards: u32,
    pub notes: u32,
    pub revlog: u32,
    pub graves: u32,
    pub notetypes: u32,
    pub decks: u32,
    pub deck_config: u32,
}

/// Why a synchronisation failed.
#[derive(Clone, Copy, Debug, PartialEq, Eq, Structural)]
pub enum SyncErrorKind {
    Conflict,
    ServerError,
    ClientTooOld,
    AuthFailed,
    ServerMessage,
    ClockIncorrect,
    Other,
    ResyncRequired,
    DatabaseCheckRequired,
    SyncNotStarted,
    UploadTooLarge,
    SanityCheckFailed { client: Option<SanityCheckCounts>, server: Option<SanityCheckCounts> },
}

/// A failure of the synchronisation.
#[derive(Debug, PartialEq, Eq)]
pub struct SyncError {
    pub info: String,
    pub kind: SyncErrorKind,
}

/// What kind of failure the storage met.
#[derive(Clone, Copy, Debug, PartialEq, Eq, Structural)]
pub enum DbErrorKind {
    MissingEntity,
    Other,
}

/// An error of the collection.
#[derive(Debug, PartialEq, Eq)]
pub enum AnkiError {
    InvalidInput { info: String },
    NotFound { id: i64 },
    DbError { info: String, kind: DbErrorKind },
    NetworkError { source: NetworkError },
    SyncError { source: SyncError },
    Interrupted,
}

/// The advice given when the two sides disagree about the shape of the data.
pub open spec fn check_database_advice() -> Seq<char> {
    "Please force a full sync in the Preferences screen to bring your devices into sync. Then, please use the Check Database feature, and sync to your other devices. If problems persist, please post on the support forum.\n\n"@
}

/// What a failure with HTTP status `code` is.
pub enum StatusClass {
    Network(NetworkErrorKind),
    Sync(SyncErrorKind),
}

/// The class of a failure with HTTP status `code`: 407 asks the proxy's
/// user to authenticate, 409 is a conflict, 403 a failed authentication, 501
/// a client that is too old, any other status from 500 to 599 a failure of
/// the server, 400 a database that needs checking; every other status is
/// a network failure of no special kind.
pub open spec fn status_class(code: int) -> StatusClass {
    if code == 407 {
        StatusClass::Network(NetworkErrorKind::ProxyAuth)
    } else if code == 409 {
        StatusClass::Sync(SyncErrorKind::Conflict)
    } else if code == 403 {
        StatusClass::Sync(SyncErrorKind::AuthFailed)
    } else if code == 501 {
        StatusClass::Sync(SyncErrorKind::ClientTooOld)
    } else if 500 <= code <= 599 {
        StatusClass::Sync(SyncErrorKind::ServerError)
    } else if code == 400 {
        StatusClass::Sync(SyncErrorKind::DatabaseCheckRequired)
    } else {
        StatusClass::Network(NetworkErrorKind::Other)
    }
}

/// Whether `err` is of class `class` and carries the text `info`.
pub open spec fn is_classified(err: AnkiError, class: StatusClass, info: Seq<char>) -> bool {
    match class {
        StatusClass::Network(kind) => err matches AnkiError::NetworkError { source }
            && source.kind == kind && source.info@ == info,
        StatusClass::Sync(kind) => err matches AnkiError::SyncError { source } && source.kind
            == kind && source.info@ == info,
    }
}

/// What the text of a failure without a status says about it.
pub enum Guess {
    Interrupted,
    Network(NetworkErrorKind),
    DatabaseCheckRequired,
}

/// The guess made from the text of a failure: a cancelled DNS lookup is an
/// interruption; an unreachable host or any other DNS failure means being
/// offline; a timeout is a timeout; a mismatch of types calls for a check
/// of the database; anything else is a network failure of no special kind.
pub open spec fn guess_from_text(info: Seq<char>) -> Guess {
    if contains_text(info, "dns error: cancelled"@) {
        Guess::Interrupted
    } else if contains_text(info, "unreachable"@) || contains_text(info, "dns"@) {
        Guess::Network(NetworkErrorKind::Offline)
    } else if contains_text(info, "timed out"@) {
        Guess::Network(NetworkErrorKind::Timeout)
    } else if contains_text(info, "invalid type"@) {
        Guess::DatabaseCheckRequired
    } else {
        Guess::Network(NetworkErrorKind::Other)
    }
}

/// What the transport reports of a failed request.
#[derive(Debug, PartialEq, Eq)]
pub struct TransportFailure {
    /// The failure in words, without the address that was asked.
    pub info: String,
    pub is_timeout: bool,
    /// The HTTP status, where the failure is one of status.
    pub status: Option<u16>,
}

impl AnkiError {
    /// A synchronisation error of the given kind.
    pub fn sync_error(info: String, kind: SyncErrorKind) -> (err: AnkiError)
        ensures
            err == (AnkiError::SyncError { source: SyncError { info, kind } }),
    {
        AnkiError::SyncError { source: SyncError { info, kind } }
    }

    /// A message of the server, to be shown as it came.
    pub fn server_message(msg: String) -> (err: AnkiError)
        ensures
            err == (AnkiError::SyncError {
                source: SyncError { info: msg, kind: SyncErrorKind::ServerMessage },
            }),
    {
        AnkiError::sync_error(msg, SyncErrorKind::ServerMessage)
    }

    /// A network error of the given kind.
    pub fn network_error(info: String, kind: NetworkErrorKind) -> (err: AnkiError)
        ensures
            err == (AnkiError::NetworkError { source: NetworkError { info, kind } }),
    {
        AnkiError::NetworkError { source: NetworkError { info, kind } }
    }

    /// The error that a failure of the transport amounts to: a timeout first,
    /// then the class of its status, then the guess from its text.
    pub fn from_transport_failure(failure: TransportFailure) -> (err: AnkiError)
        ensures
            failure.is_timeout ==> is_classified(
                err,
                StatusClass::Network(NetworkErrorKind::Timeout),
                failure.info@,
            ),
            !failure.is_timeout ==> match failure.status {
                Some(code) => is_classified(err, status_class(code as int), failure.info@),
                None => is_guessed(err, failure.info@),
            },
    {
        if failure.is_timeout {
            AnkiError::network_error(failure.info, NetworkErrorKind::Timeout)
        } else {
            match failure.status {
                Some(code) => error_for_status_code(failure.info, code),
                None => guess_reqwest_error(failure.info),
            }
        }
    }
}

/// The error for a failure with HTTP status `code`, carrying `info`.
pub fn error_for_status_code(info: String, code: u16) -> (err: AnkiError)
    ensures
        is_classified(err, status_class(code as int), info@),
{
    if code == 407 {
        AnkiError::network_error(info, NetworkErrorKind::ProxyAuth)
    } else if code == 409 {
        AnkiError::sync_error(info, SyncErrorKind::Conflict)
    } else if code == 403 {
        AnkiError::sync_error(info, SyncErrorKind::AuthFailed)
    } else if code == 501 {
        AnkiError::sync_error(info, SyncErrorKind::ClientTooOld)
    } else if 500 <= code && code <= 599 {
        AnkiError::sync_error(info, SyncErrorKind::ServerError)
    } else if code == 400 {
        AnkiError::sync_error(info, SyncErrorKind::DatabaseCheckRequired)
    } else {
        AnkiError::network_error(info, NetworkErrorKind::Other)
    }
}

/// Whether `err` is what is guessed from the text `info`. Where the database
/// needs checking, the advice stands before the text.
pub open spec fn is_guessed(err: AnkiError, info: Seq<char>) -> bool {
    match guess_from_text(info) {
        Guess::Interrupted => err is Interrupted,
        Guess::Network(kind) => is_classified(err, StatusClass::Network(kind), info),
        Guess::DatabaseCheckRequired => is_classified(
            err,
            StatusClass::Sync(SyncErrorKind::DatabaseCheckRequired),
            check_database_advice() + info,
        ),
    }
}

/// The error for a failure of which only its text `info` is known.
pub fn guess_reqwest_error(info: String) -> (err: AnkiError)
    ensures
        is_guessed(err, info@),
{
    if contains(info.as_str(), "dns error: cancelled") {
        return AnkiError::Interrupted;
    }
    if contains(info.as_str(), "unreachable") || contains(info.as_str(), "dns") {
        AnkiError::network_error(info, NetworkErrorKind::Offline)
    } else if contains(info.as_str(), "timed out") {
        AnkiError::network_error(info, NetworkErrorKind::Timeout)
    } else if contains(info.as_str(), "invalid type") {
        let mut advised = String::from_str(
            "Please force a full sync in the Preferences screen to bring your devices into sync. Then, please use the Check Database feature, and sync to your other devices. If problems persist, please post on the support forum.\n\n",
        );
        advised.append(info.as_str());
        AnkiError::sync_error(advised, SyncErrorKind::DatabaseCheckRequired)
    } else {
        AnkiError::network_error(info, NetworkErrorKind::Other)
    }
}

/// The kind of failure of the synchronisation that a request which ended
/// with HTTP status `code` amounts to.
pub open spec fn sync_kind_for_status(code: int) -> SyncErrorKind {
    if code == 409 {
        SyncErrorKind::Conflict
    } else if code == 501 {
        SyncErrorKind::ClientTooOld
    } else if code == 403 {
        SyncErrorKind::AuthFailed
    } else if 500 <= code <= 599 {
        SyncErrorKind::ServerError
    } else if code == 400 {
        SyncErrorKind::DatabaseCheckRequired
    } else {
        SyncErrorKind::Other
    }
}

/// What is known of a request to the server that failed.
#[derive(Debug, PartialEq, Eq)]
pub struct HttpFailure {
    /// The failure in words.
    pub info: String,
    /// The HTTP status that the request ended with, if it ended with one.
    pub status: Option<u16>,
}

impl AnkiError {
    /// The failure of the synchronisation that a failed request amounts
    /// to: of the kind of its status, or of no special kind where it has
    /// none, and with the failure in words.
    pub fn from_http_failure(failure: HttpFailure) -> (err: AnkiError)
        ensures
            err matches AnkiError::SyncError { source } && source.info@ == failure.info@
                && source.kind == match failure.status {
                Some(code) => sync_kind_for_status(code as int),
                None => SyncErrorKind::Other,
            },
    {
        let kind = match failure.status {
            Some(code) => {
                if code == 409 {
                    SyncErrorKind::Conflict
                } else if code == 501 {
                    SyncErrorKind::ClientTooOld
                } else if code == 403 {
                    SyncErrorKind::AuthFailed
                } else if 500 <= code && code <= 599 {
                    SyncErrorKind::ServerError
                } else if code == 400 {
                    SyncErrorKind::DatabaseCheckRequired
                } else {
                    SyncErrorKind::Other
                }
            },
            None => SyncErrorKind::Other,
        };
        AnkiError::sync_error(failure.info, kind)
    }
}

/// The texts in which failures of a synchronisation are told to the user.
#[derive(Debug, PartialEq, Eq)]
pub struct SyncTexts {
    pub conflict: String,
    pub server_error: String,
    pub client_too_old: String,
    pub wrong_pass: String,
    pub resync_required: String,
    pub clock_off: String,
    pub sanity_check_failed: String,
    /// The text for an upload that is too large, with what the failure says
    /// of it.
    pub upload_too_large: String,
}

/// The texts in which failures of the network are told to the user.
#[derive(Debug, PartialEq, Eq)]
pub struct NetworkTexts {
    pub offline: String,
    pub timeout: String,
    pub proxy_auth: String,
    pub other: String,
    /// The text that gives the details of the failure.
    pub details: String,
}

impl SyncError {
    /// What the user is told: the text of the server or of the failure
    /// itself where it carries one to show, else the text for its kind.
    pub open spec fn spec_message(&self, tr: &SyncTexts) -> Seq<char> {
        match self.kind {
            SyncErrorKind::ServerMessage => self.info@,
            SyncErrorKind::Other => self.info@,
            SyncErrorKind::Conflict => tr.conflict@,
            SyncErrorKind::ServerError => tr.server_error@,
            SyncErrorKind::ClientTooOld => tr.client_too_old@,
            SyncErrorKind::AuthFailed => tr.wrong_pass@,
            SyncErrorKind::ResyncRequired => tr.resync_required@,
            SyncErrorKind::ClockIncorrect => tr.clock_off@,
            SyncErrorKind::DatabaseCheckRequired => tr.sanity_check_failed@,
            SyncErrorKind::SanityCheckFailed { .. } => tr.sanity_check_failed@,
            SyncErrorKind::SyncNotStarted => "sync not started"@,
            SyncErrorKind::UploadTooLarge => tr.upload_too_large@,
        }
    }

    /// What the user is told of this failure.
    pub fn message(&self, tr: &SyncTexts) -> (text: String)
        ensures
            text@ == self.spec_message(tr),
    {
        match self.kind {
            SyncErrorKind::ServerMessage => self.info.clone(),
            SyncErrorKind::Other => self.info.clone(),
            SyncErrorKind::Conflict => tr.conflict.clone(),
            SyncErrorKind::ServerError => tr.server_error.clone(),
            SyncErrorKind::ClientTooOld => tr.client_too_old.clone(),
            SyncErrorKind::AuthFailed => tr.wrong_pass.clone(),
            SyncErrorKind::ResyncRequired => tr.resync_required.clone(),
            SyncErrorKind::ClockIncorrect => tr.clock_off.clone(),
            SyncErrorKind::DatabaseCheckRequired => tr.sanity_check_failed.clone(),
            SyncErrorKind::SanityCheckFailed { .. } => tr.sanity_check_failed.clone(),
            SyncErrorKind::SyncNotStarted => String::from_str("sync not started"),
            SyncErrorKind::UploadTooLarge => tr.upload_too_large.clone(),
        }
    }
}

impl NetworkError {
    /// The text for the kind of this failure.
    pub open spec fn summary(&self, tr: &NetworkTexts) -> Seq<char> {
        match self.kind {
            NetworkErrorKind::Offline => tr.offline@,
            NetworkErrorKind::Timeout => tr.timeout@,
            NetworkErrorKind::ProxyAuth => tr.proxy_auth@,
            NetworkErrorKind::Other => tr.other@,
        }
    }

    /// What the user is told of this failure: the text for its kind, an
    /// empty line, and the details.
    pub fn message(&self, tr: &NetworkTexts) -> (text: String)
        ensures
            text@ == self.summary(tr) + "\n\n"@ + tr.details@,
    {
        let mut text = match self.kind {
            NetworkErrorKind::Offline => tr.offline.clone(),
            NetworkErrorKind::Timeout => tr.timeout.clone(),
            NetworkErrorKind::ProxyAuth => tr.proxy_auth.clone(),
            NetworkErrorKind::Other => tr.other.clone(),
        };
        text.append("\n\n");
        text.append(tr.details.as_str());
        text
    }
}

} // verus!
