//! The library's error type and its stable interface codes.

use vstd::prelude::*;

verus! {

/// Every failure the library reports.
#[derive(Debug, Clone)]
pub enum AppError {
    Validation { field: String, message: String },
    NotFound { entity: String, id: String },
    Conflict { message: String },
    MediaInvalid { message: String },
    MarketDataUnsupported { message: String },
    MarketDataHistoryUnavailable { message: String },
    MarketDataHistoryInvalidRange { message: String },
    ProviderUnavailable { message: String },
    ProviderAuthentication,
    ProviderRateLimit,
    MalformedProviderResponse { message: String },
    UnsupportedProviderSymbol { message: String },
    InvalidPendingActivity { message: String },
    InvalidRecurringRule { message: String },
    InvalidActivity { message: String },
    InvalidCategory { message: String },
    HistoryInitializationFailed,
    HistoryTimezoneConfirmationRequired,
    SnapshotRebuildFailed,
    SnapshotRebuildRequired,
    DatabaseUnavailable,
    UnsupportedNewerDatabase,
    AlreadyOnboarded,
    DuplicateHolding,
    DecimalOverflow,
    ActivityAlreadyReversed,
    LastActiveMember,
    Internal,
}

/// Stable machine-readable codes handed to the interface layer.
#[derive(Debug, Clone, Copy, PartialEq, Eq, Structural)]
pub enum ErrorCode {
    Validation,
    NotFound,
    Conflict,
    MediaInvalid,
    MarketDataUnsupported,
    MarketDataHistoryUnavailable,
    MarketDataHistoryInvalidRange,
    ProviderUnavailable,
    ProviderAuthentication,
    ProviderRateLimit,
    MalformedProviderResponse,
    UnsupportedProviderSymbol,
    InvalidPendingActivity,
    InvalidRecurringRule,
    InvalidActivity,
    InvalidCategory,
    HistoryInitializationFailed,
    HistoryTimezoneConfirmationRequired,
    SnapshotRebuildFailed,
    SnapshotRebuildRequired,
    DatabaseUnavailable,
    UnsupportedNewerDatabase,
    AlreadyOnboarded,
    DuplicateHolding,
    DecimalOverflow,
    ActivityAlreadyReversed,
    LastActiveMember,
    Internal,
}

/// The error shape sent across the interface boundary.
#[derive(Debug, Clone)]
pub struct CommandError {
    pub code: ErrorCode,
    pub message: String,
    pub field: Option<String>,
}

/// The code that belongs to each error.
pub open spec fn code_of(error: AppError) -> ErrorCode {
    match error {
        AppError::Validation { .. } => ErrorCode::Validation,
        AppError::NotFound { .. } => ErrorCode::NotFound,
        AppError::Conflict { .. } => ErrorCode::Conflict,
        AppError::MediaInvalid { .. } => ErrorCode::MediaInvalid,
        AppError::MarketDataUnsupported { .. } => ErrorCode::MarketDataUnsupported,
        AppError::MarketDataHistoryUnavailable { .. } => ErrorCode::MarketDataHistoryUnavailable,
        AppError::MarketDataHistoryInvalidRange { .. } => ErrorCode::MarketDataHistoryInvalidRange,
        AppError::ProviderUnavailable { .. } => ErrorCode::ProviderUnavailable,
        AppError::ProviderAuthentication => ErrorCode::ProviderAuthentication,
        AppError::ProviderRateLimit => ErrorCode::ProviderRateLimit,
        AppError::MalformedProviderResponse { .. } => ErrorCode::MalformedProviderResponse,
        AppError::UnsupportedProviderSymbol { .. } => ErrorCode::UnsupportedProviderSymbol,
        AppError::InvalidPendingActivity { .. } => ErrorCode::InvalidPendingActivity,
        AppError::InvalidRecurringRule { .. } => ErrorCode::InvalidRecurringRule,
        AppError::InvalidActivity { .. } => ErrorCode::InvalidActivity,
        AppError::InvalidCategory { .. } => ErrorCode::InvalidCategory,
        AppError::HistoryInitializationFailed => ErrorCode::HistoryInitializationFailed,
        AppError::HistoryTimezoneConfirmationRequired => ErrorCode::HistoryTimezoneConfirmationRequired,
        AppError::SnapshotRebuildFailed => ErrorCode::SnapshotRebuildFailed,
        AppError::SnapshotRebuildRequired => ErrorCode::SnapshotRebuildRequired,
        AppError::DatabaseUnavailable => ErrorCode::DatabaseUnavailable,
        AppError::UnsupportedNewerDatabase => ErrorCode::UnsupportedNewerDatabase,
        AppError::AlreadyOnboarded => ErrorCode::AlreadyOnboarded,
        AppError::DuplicateHolding => ErrorCode::DuplicateHolding,
        AppError::DecimalOverflow => ErrorCode::DecimalOverflow,
        AppError::ActivityAlreadyReversed => ErrorCode::ActivityAlreadyReversed,
        AppError::LastActiveMember => ErrorCode::LastActiveMember,
        AppError::Internal => ErrorCode::Internal,
    }
}

/// The error is a validation failure on the named field.
pub open spec fn is_validation_of(error: AppError, field: Seq<char>) -> bool {
    error matches AppError::Validation { field: f, .. } && f@ == field
}

/// The error is a media failure carrying the given message.
pub open spec fn is_media_invalid_with(error: AppError, message: Seq<char>) -> bool {
    error matches AppError::MediaInvalid { message: m } && m@ == message
}

/// The error reports that the given entity could not be found.
pub open spec fn is_not_found_of(error: AppError, entity: Seq<char>, id: Seq<char>) -> bool {
    error matches AppError::NotFound { entity: e, id: i } && e@ == entity && i@ == id
}

/// The error reported for a problem found while reading a value: a
/// validation failure on the named field, or (for `None`) an internal fault.
pub open spec fn reports(error: AppError, problem: Option<Seq<char>>) -> bool {
    match problem {
        Some(field) => is_validation_of(error, field),
        None => error is Internal,
    }
}

impl AppError {
    pub fn validation(field: &str, message: &str) -> (error: AppError)
        ensures
            error matches AppError::Validation { field: f, message: m } && f@ == field@ && m@ == message@,
    {
        AppError::Validation { field: String::from_str(field), message: String::from_str(message) }
    }

    pub fn not_found(entity: &str, id: &str) -> (error: AppError)
        ensures
            is_not_found_of(error, entity@, id@),
    {
        AppError::NotFound { entity: String::from_str(entity), id: String::from_str(id) }
    }

    pub fn conflict(message: &str) -> (error: AppError)
        ensures
            error matches AppError::Conflict { message: m } && m@ == message@,
    {
        AppError::Conflict { message: String::from_str(message) }
    }

    pub fn media_invalid(message: &str) -> (error: AppError)
        ensures
            is_media_invalid_with(error, message@),
    {
        AppError::MediaInvalid { message: String::from_str(message) }
    }

    pub fn market_data_unsupported(message: &str) -> (error: AppError)
        ensures
            error matches AppError::MarketDataUnsupported { message: m } && m@ == message@,
    {
        AppError::MarketDataUnsupported { message: String::from_str(message) }
    }

    pub fn invalid_pending_activity(message: &str) -> (error: AppError)
        ensures
            error matches AppError::InvalidPendingActivity { message: m } && m@ == message@,
    {
        AppError::InvalidPendingActivity { message: String::from_str(message) }
    }

    pub fn invalid_recurring_rule(message: &str) -> (error: AppError)
        ensures
            error matches AppError::InvalidRecurringRule { message: m } && m@ == message@,
    {
        AppError::InvalidRecurringRule { message: String::from_str(message) }
    }

    /// The interface form of this error: its code, a message, and the field
    /// for a validation failure.
    pub fn into_command_error(self) -> (command: CommandError)
        ensures
            command.code == code_of(self),
            command.field is Some <==> self is Validation,
            self matches AppError::Validation { field: f, message: m } ==> command.field == Some(f) && command.message == m,
            self matches AppError::NotFound { entity: e, .. } ==> command.message@ == e@ + " was not found."@,
            self matches AppError::Conflict { message: m } ==> command.message == m,
            self matches AppError::MediaInvalid { message: m } ==> command.message == m,
            self matches AppError::MarketDataUnsupported { message: m } ==> command.message == m,
            self matches AppError::MarketDataHistoryUnavailable { message: m } ==> command.message == m,
            self matches AppError::MarketDataHistoryInvalidRange { message: m } ==> command.message == m,
            self matches AppError::ProviderUnavailable { message: m } ==> command.message == m,
            self matches AppError::MalformedProviderResponse { message: m } ==> command.message == m,
            self matches AppError::UnsupportedProviderSymbol { message: m } ==> command.message == m,
            self matches AppError::InvalidPendingActivity { message: m } ==> command.message == m,
            self matches AppError::InvalidRecurringRule { message: m } ==> command.message == m,
            self matches AppError::InvalidActivity { message: m } ==> command.message == m,
            self matches AppError::InvalidCategory { message: m } ==> command.message == m,
    {
        match self {
            AppError::Validation { field, message } => CommandError {
                code: ErrorCode::Validation,
                message,
                field: Some(field),
            },
            AppError::NotFound { entity, .. } => CommandError {
                code: ErrorCode::NotFound,
                message: entity.concat(" was not found."),
                field: None,
            },
            AppError::Conflict { message } => CommandError { code: ErrorCode::Conflict, message, field: None },
            AppError::MediaInvalid { message } => CommandError { code: ErrorCode::MediaInvalid, message, field: None },
            AppError::MarketDataUnsupported { message } => CommandError {
                code: ErrorCode::MarketDataUnsupported,
                message,
                field: None,
            },
            AppError::MarketDataHistoryUnavailable { message } => CommandError {
                code: ErrorCode::MarketDataHistoryUnavailable,
                message,
                field: None,
            },
            AppError::MarketDataHistoryInvalidRange { message } => CommandError {
                code: ErrorCode::MarketDataHistoryInvalidRange,
                message,
                field: None,
            },
            AppError::ProviderUnavailable { message } => CommandError {
                code: ErrorCode::ProviderUnavailable,
                message,
                field: None,
            },
            AppError::ProviderAuthentication => CommandError {
                code: ErrorCode::ProviderAuthentication,
                message: String::from_str("The quote provider rejected the credentials."),
                field: None,
            },
            AppError::ProviderRateLimit => CommandError {
                code: ErrorCode::ProviderRateLimit,
                message: String::from_str("The quote provider rate limit was reached."),
                field: None,
            },
            AppError::MalformedProviderResponse { message } => CommandError {
                code: ErrorCode::MalformedProviderResponse,
                message,
                field: None,
            },
            AppError::UnsupportedProviderSymbol { message } => CommandError {
                code: ErrorCode::UnsupportedProviderSymbol,
                message,
                field: None,
            },
            AppError::InvalidPendingActivity { message } => CommandError {
                code: ErrorCode::InvalidPendingActivity,
                message,
                field: None,
            },
            AppError::InvalidRecurringRule { message } => CommandError {
                code: ErrorCode::InvalidRecurringRule,
                message,
                field: None,
            },
            AppError::InvalidActivity { message } => CommandError {
                code: ErrorCode::InvalidActivity,
                message,
                field: None,
            },
            AppError::InvalidCategory { message } => CommandError {
                code: ErrorCode::InvalidCategory,
                message,
                field: None,
            },
            AppError::HistoryInitializationFailed => CommandError {
                code: ErrorCode::HistoryInitializationFailed,
                message: String::from_str("History could not be initialized."),
                field: None,
            },
            AppError::HistoryTimezoneConfirmationRequired => CommandError {
                code: ErrorCode::HistoryTimezoneConfirmationRequired,
                message: String::from_str("The history timezone must be confirmed first."),
                field: None,
            },
            AppError::SnapshotRebuildFailed => CommandError {
                code: ErrorCode::SnapshotRebuildFailed,
                message: String::from_str("History snapshots could not be rebuilt."),
                field: None,
            },
            AppError::SnapshotRebuildRequired => CommandError {
                code: ErrorCode::SnapshotRebuildRequired,
                message: String::from_str("History snapshots must be rebuilt first."),
                field: None,
            },
            AppError::DatabaseUnavailable => CommandError {
                code: ErrorCode::DatabaseUnavailable,
                message: String::from_str("The database is unavailable."),
                field: None,
            },
            AppError::UnsupportedNewerDatabase => CommandError {
                code: ErrorCode::UnsupportedNewerDatabase,
                message: String::from_str("The database was written by a newer version of the application."),
                field: None,
            },
            AppError::AlreadyOnboarded => CommandError {
                code: ErrorCode::AlreadyOnboarded,
                message: String::from_str("The household is already set up."),
                field: None,
            },
            AppError::DuplicateHolding => CommandError {
                code: ErrorCode::DuplicateHolding,
                message: String::from_str("The Account already holds this Instrument."),
                field: None,
            },
            AppError::DecimalOverflow => CommandError {
                code: ErrorCode::DecimalOverflow,
                message: String::from_str("The amount is too large to compute."),
                field: None,
            },
            AppError::ActivityAlreadyReversed => CommandError {
                code: ErrorCode::ActivityAlreadyReversed,
                message: String::from_str("The Activity has already been reversed."),
                field: None,
            },
            AppError::LastActiveMember => CommandError {
                code: ErrorCode::LastActiveMember,
                message: String::from_str("The household must keep at least one active Member."),
                field: None,
            },
            AppError::Internal => CommandError {
                code: ErrorCode::Internal,
                message: String::from_str("An internal error occurred."),
                field: None,
            },
        }
    }
}

} // verus!
