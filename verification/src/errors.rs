//! Error taxonomy shared by the resource-management components, error
//! categorisation by message text, and error statistics.

use vstd::prelude::*;

verus! {

/// The ways an operation on the core can fail.
#[derive(Clone, Copy, Debug, PartialEq, Eq, Structural)]
pub enum ResourceError {
    /// The pool is at capacity with no idle connection, or a bounded
    /// queue is full.
    ResourceExhausted,
    /// A lookup against a record store found nothing under the key.
    NotFound,
    /// An externally imposed deadline elapsed while waiting.
    Timeout,
    /// Reserved for cancellation support.
    Cancelled,
}

impl ResourceError {
    /// A short text for the error, for callers that print it.
    pub fn message(&self) -> (r: &'static str)
        ensures
            *self == ResourceError::ResourceExhausted ==> r@ == "resource exhausted"@,
            *self == ResourceError::NotFound ==> r@ == "not found"@,
            *self == ResourceError::Timeout ==> r@ == "timeout"@,
            *self == ResourceError::Cancelled ==> r@ == "cancelled"@,
    {
        match self {
            ResourceError::ResourceExhausted => "resource exhausted",
            ResourceError::NotFound => "not found",
            ResourceError::Timeout => "timeout",
            ResourceError::Cancelled => "cancelled",
        }
    }
}

/// An application-level error, carrying the message that described it.
#[derive(Clone, Debug)]
pub enum AppError {
    Network(String),
    Database(String),
    FileSystem(String),
    Timeout(String),
    Config(String),
    Business(String),
    Unknown(String),
}

/// The category of an `AppError`, without its message.
#[derive(Clone, Copy, Debug, PartialEq, Eq, Structural)]
pub enum ErrorCategory {
    Network,
    Database,
    FileSystem,
    Timeout,
    Config,
    Business,
    Unknown,
}

impl AppError {
    /// Which category the error belongs to.
    pub open spec fn spec_category(self) -> ErrorCategory {
        match self {
            AppError::Network(_) => ErrorCategory::Network,
            AppError::Database(_) => ErrorCategory::Database,
            AppError::FileSystem(_) => ErrorCategory::FileSystem,
            AppError::Timeout(_) => ErrorCategory::Timeout,
            AppError::Config(_) => ErrorCategory::Config,
            AppError::Business(_) => ErrorCategory::Business,
            AppError::Unknown(_) => ErrorCategory::Unknown,
        }
    }

    /// The message the error carries.
    pub open spec fn spec_message(self) -> Seq<char> {
        match self {
            AppError::Network(m) => m@,
            AppError::Database(m) => m@,
            AppError::FileSystem(m) => m@,
            AppError::Timeout(m) => m@,
            AppError::Config(m) => m@,
            AppError::Business(m) => m@,
            AppError::Unknown(m) => m@,
        }
    }

    /// Which category the error belongs to.
    pub fn category(&self) -> (r: ErrorCategory)
        ensures
            r == self.spec_category(),
    {
        match self {
            AppError::Network(_) => ErrorCategory::Network,
            AppError::Database(_) => ErrorCategory::Database,
            AppError::FileSystem(_) => ErrorCategory::FileSystem,
            AppError::Timeout(_) => ErrorCategory::Timeout,
            AppError::Config(_) => ErrorCategory::Config,
            AppError::Business(_) => ErrorCategory::Business,
            AppError::Unknown(_) => ErrorCategory::Unknown,
        }
    }

    /// Whether a retry could plausibly cure the error: network trouble,
    /// timeouts and database trouble can be retried, the rest cannot.
    pub fn is_recoverable(&self) -> (r: bool)
        ensures
            r == (self.spec_category() == ErrorCategory::Network || self.spec_category()
                == ErrorCategory::Timeout || self.spec_category() == ErrorCategory::Database),
    {
        match self {
            AppError::Network(_) => true,
            AppError::Timeout(_) => true,
            AppError::Database(_) => true,
            _ => false,
        }
    }
}

/// `c` with an ASCII capital letter lowered; anything else is unchanged.
pub open spec fn lower_char(c: char) -> char {
    if 'A' <= c && c <= 'Z' {
        ((c as u8) + 32) as char
    } else {
        c
    }
}

/// `s` with every ASCII capital letter lowered.
pub open spec fn lower_of(s: Seq<char>) -> Seq<char> {
    s.map_values(|c: char| lower_char(c))
}

/// Whether `needle` occurs contiguously in `hay`.
pub open spec fn contains_seq(hay: Seq<char>, needle: Seq<char>) -> bool {
    exists|k: int|
        0 <= k <= hay.len() - needle.len() && #[trigger] hay.subrange(k, k + needle.len())
            == needle
}

/// Relies on `char::from_u32`: it answers the character with the given
/// code point when one exists — every value below the surrogate range has
/// one — and nothing otherwise.
pub assume_specification[ char::from_u32 ](v: u32) -> (r: Option<char>)
    ensures
        r matches Some(c) ==> c as u32 == v,
        v < 0xD800 ==> r is Some,
;

/// `c` with an ASCII capital letter lowered; anything else is unchanged.
pub(crate) fn lower_char_exec(c: char) -> (r: char)
    ensures
        r == lower_char(c),
{
    if 'A' <= c && c <= 'Z' {
        let u: u32 = (c as u32) + 32;
        let r = char::from_u32(u);
        match r {
            Some(l) => {
                proof {
                    vstd::utf8::char_u32_cast(l, u);
                    assert(lower_char(c) as u32 == u);
                    vstd::utf8::char_u32_cast(lower_char(c), u);
                }
                l
            },
            None => c,
        }
    } else {
        c
    }
}

/// Whether `needle` occurs contiguously in `text` once `text`'s ASCII
/// capitals are lowered. The needle is matched as given.
pub fn contains_lowered(text: &str, needle: &str) -> (r: bool)
    ensures
        r == contains_seq(lower_of(text@), needle@),
{
    let n = text.unicode_len();
    let m = needle.unicode_len();
    if m > n {
        return false;
    }
    if m == 0 {
        proof {
            assert(lower_of(text@).subrange(0, 0 + needle@.len() as int) =~= needle@);
        }
        return true;
    }
    let mut k: usize = 0;
    while k <= n - m
        invariant
            0 <= k <= n - m + 1,
            1 <= m <= n,
            n == text@.len(),
            m == needle@.len(),
            forall|kk: int| 0 <= kk < k ==> #[trigger] lower_of(text@).subrange(kk, kk + m) != needle@,
        decreases n - k,
    {
        let mut j: usize = 0;
        let mut mismatch = false;
        while j < m
            invariant
                0 <= j <= m,
                0 <= k <= n - m,
                n == text@.len(),
                m == needle@.len(),
                !mismatch ==> forall|jj: int|
                    0 <= jj < j ==> lower_of(text@)[k + jj] == needle@[jj],
                mismatch ==> lower_of(text@).subrange(k as int, k + m) != needle@,
            decreases m - j,
        {
            if mismatch {
                j = m;
            } else {
                let hc = lower_char_exec(text.get_char(k + j));
                let nc = needle.get_char(j);
                if hc != nc {
                    proof {
                        let jj = j as int;
                        assert(lower_of(text@).subrange(k as int, k + m)[jj] != needle@[jj]);
                    }
                    mismatch = true;
                }
                j = j + 1;
            }
        }
        if !mismatch {
            proof {
                assert(lower_of(text@).subrange(k as int, k + m) =~= needle@);
            }
            return true;
        }
        k = k + 1;
    }
    proof {
        assert forall|kk: int|
            0 <= kk <= lower_of(text@).len() - needle@.len() implies #[trigger] lower_of(
            text@,
        ).subrange(kk, kk + needle@.len()) != needle@ by {
            assert(kk < k);
        }
    }
    false
}

/// Which category a message of view `s` falls into, going by the keywords
/// it contains once lowered.
pub open spec fn spec_categorize(s: Seq<char>) -> ErrorCategory {
    let l = lower_of(s);
    if contains_seq(l, "network"@) || contains_seq(l, "connection"@) {
        ErrorCategory::Network
    } else if contains_seq(l, "database"@) || contains_seq(l, "sql"@) {
        ErrorCategory::Database
    } else if contains_seq(l, "file"@) || contains_seq(l, "io"@) {
        ErrorCategory::FileSystem
    } else if contains_seq(l, "timeout"@) || contains_seq(l, "timed out"@) {
        ErrorCategory::Timeout
    } else if contains_seq(l, "config"@) || contains_seq(l, "configuration"@) {
        ErrorCategory::Config
    } else {
        ErrorCategory::Unknown
    }
}

/// Sorts errors into the taxonomy by their message text.
pub struct ErrorHandler;

impl ErrorHandler {
    /// Categorises an error by the keywords of its message, matched
    /// without regard to ASCII case, and carries the message along.
    pub fn categorize_error(message: &str) -> (r: AppError)
        ensures
            r.spec_category() == spec_categorize(message@),
            r.spec_message() == message@,
    {
        if contains_lowered(message, "network") || contains_lowered(message, "connection") {
            AppError::Network(message.to_owned())
        } else if contains_lowered(message, "database") || contains_lowered(message, "sql") {
            AppError::Database(message.to_owned())
        } else if contains_lowered(message, "file") || contains_lowered(message, "io") {
            AppError::FileSystem(message.to_owned())
        } else if contains_lowered(message, "timeout") || contains_lowered(message, "timed out") {
            AppError::Timeout(message.to_owned())
        } else if contains_lowered(message, "config") || contains_lowered(message, "configuration") {
            AppError::Config(message.to_owned())
        } else {
            AppError::Unknown(message.to_owned())
        }
    }
}

/// Builds the log lines the error tooling prints.
pub struct ErrorLogger;

impl ErrorLogger {
    /// The line logged for an error in some context.
    pub fn format_error(message: &str, context: &str) -> (r: String)
        ensures
            r@ == "[ERROR] "@ + context@ + " - "@ + message@,
    {
        let mut s = "[ERROR] ".to_owned();
        s.append(context);
        s.append(" - ");
        s.append(message);
        s
    }

    /// The line logged for a warning in some context.
    pub fn format_warning(message: &str, context: &str) -> (r: String)
        ensures
            r@ == "[WARNING] "@ + context@ + " - "@ + message@,
    {
        let mut s = "[WARNING] ".to_owned();
        s.append(context);
        s.append(" - ");
        s.append(message);
        s
    }

    /// The line logged for an informational message in some context.
    pub fn format_info(message: &str, context: &str) -> (r: String)
        ensures
            r@ == "[INFO] "@ + context@ + " - "@ + message@,
    {
        let mut s = "[INFO] ".to_owned();
        s.append(context);
        s.append(" - ");
        s.append(message);
        s
    }
}

/// Running totals of errors seen, by category.
#[derive(Clone, Copy, Debug, PartialEq, Eq, Structural)]
pub struct ErrorStats {
    pub total_errors: u64,
    pub network_errors: u64,
    pub database_errors: u64,
    pub file_system_errors: u64,
    pub timeout_errors: u64,
    pub config_errors: u64,
    pub business_errors: u64,
    pub unknown_errors: u64,
}

impl ErrorStats {
    /// All counters at zero.
    pub fn new() -> (r: ErrorStats)
        ensures
            r.total_errors == 0,
            r.network_errors == 0,
            r.database_errors == 0,
            r.file_system_errors == 0,
            r.timeout_errors == 0,
            r.config_errors == 0,
            r.business_errors == 0,
            r.unknown_errors == 0,
    {
        ErrorStats {
            total_errors: 0,
            network_errors: 0,
            database_errors: 0,
            file_system_errors: 0,
            timeout_errors: 0,
            config_errors: 0,
            business_errors: 0,
            unknown_errors: 0,
        }
    }

    /// The counter for one category.
    pub open spec fn spec_count_of(self, c: ErrorCategory) -> u64 {
        match c {
            ErrorCategory::Network => self.network_errors,
            ErrorCategory::Database => self.database_errors,
            ErrorCategory::FileSystem => self.file_system_errors,
            ErrorCategory::Timeout => self.timeout_errors,
            ErrorCategory::Config => self.config_errors,
            ErrorCategory::Business => self.business_errors,
            ErrorCategory::Unknown => self.unknown_errors,
        }
    }

    /// Counts one more error: the total and the counter of the error's
    /// category go up by one, every other counter stays.
    pub fn record_error(&mut self, error: &AppError)
        requires
            old(self).total_errors < u64::MAX,
            old(self).spec_count_of(error.spec_category()) < u64::MAX,
        ensures
            final(self).total_errors == old(self).total_errors + 1,
            final(self).spec_count_of(error.spec_category()) == old(self).spec_count_of(
                error.spec_category(),
            ) + 1,
            forall|c: ErrorCategory|
                c != error.spec_category() ==> final(self).spec_count_of(c) == old(
                    self,
                ).spec_count_of(c),
    {
        self.total_errors = self.total_errors + 1;
        match error {
            AppError::Network(_) => {
                self.network_errors = self.network_errors + 1;
            },
            AppError::Database(_) => {
                self.database_errors = self.database_errors + 1;
            },
            AppError::FileSystem(_) => {
                self.file_system_errors = self.file_system_errors + 1;
            },
            AppError::Timeout(_) => {
                self.timeout_errors = self.timeout_errors + 1;
            },
            AppError::Config(_) => {
                self.config_errors = self.config_errors + 1;
            },
            AppError::Business(_) => {
                self.business_errors = self.business_errors + 1;
            },
            AppError::Unknown(_) => {
                self.unknown_errors = self.unknown_errors + 1;
            },
        }
    }
}

} // verus!
