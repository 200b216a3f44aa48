//! How an encoding is chosen for a file, and what to do when decoding
//! goes wrong.

use crate::encoding::{encoding_label, label_of, EncodingKind};
use crate::text::{
    contains_seq, decimal, push_decimal, push_str, str_contains, string_from_chars,
};
use vstd::prelude::*;

verus! {

/// How the encoding of each file is determined.
#[derive(Clone, Debug)]
pub enum EncodingStrategy {
    /// Detect it from the file's content.
    AutoDetect,
    /// Use this encoding for every file.
    ForceEncoding(EncodingKind),
    /// Take the first of these that decodes the file's sample plausibly.
    TrySequence(Vec<EncodingKind>),
}

/// The names of `encs`, separated by `" → "`.
pub open spec fn joined_labels(encs: Seq<EncodingKind>) -> Seq<char>
    decreases encs.len(),
{
    if encs.len() == 0 {
        Seq::empty()
    } else if encs.len() == 1 {
        label_of(encs[0])
    } else {
        joined_labels(encs.drop_last()) + " → "@ + label_of(encs.last())
    }
}

/// The text that describes a strategy.
pub open spec fn strategy_text(s: EncodingStrategy) -> Seq<char> {
    match s {
        EncodingStrategy::AutoDetect => "auto-detect"@,
        EncodingStrategy::ForceEncoding(e) => "force "@ + label_of(e),
        EncodingStrategy::TrySequence(v) => "try sequence: "@ + joined_labels(v@),
    }
}

impl EncodingStrategy {
    /// Try UTF-8, windows-1252, ISO-8859-15 and ISO-8859-2, in this order.
    pub fn default_wordlist_strategy() -> (r: Self)
        ensures
            r matches EncodingStrategy::TrySequence(v) && v@ == seq![
                EncodingKind::Utf8,
                EncodingKind::Windows1252,
                EncodingKind::Iso8859_15,
                EncodingKind::Iso8859_2,
            ],
    {
        EncodingStrategy::TrySequence(
            vec![
                EncodingKind::Utf8,
                EncodingKind::Windows1252,
                EncodingKind::Iso8859_15,
                EncodingKind::Iso8859_2,
            ],
        )
    }

    /// Read every file as windows-1252.
    pub fn force_windows1252() -> (r: Self)
        ensures
            r == EncodingStrategy::ForceEncoding(EncodingKind::Windows1252),
    {
        EncodingStrategy::ForceEncoding(EncodingKind::Windows1252)
    }

    /// Read every file as UTF-8.
    pub fn force_utf8() -> (r: Self)
        ensures
            r == EncodingStrategy::ForceEncoding(EncodingKind::Utf8),
    {
        EncodingStrategy::ForceEncoding(EncodingKind::Utf8)
    }

    /// A description: `auto-detect`, `force UTF-8`, or
    /// `try sequence: UTF-8 → windows-1252`.
    pub fn to_string(&self) -> (r: String)
        ensures
            r@ == strategy_text(*self),
    {
        let mut out: Vec<char> = Vec::new();
        match self {
            EncodingStrategy::AutoDetect => {
                push_str(&mut out, "auto-detect");
            },
            EncodingStrategy::ForceEncoding(e) => {
                push_str(&mut out, "force ");
                push_str(&mut out, encoding_label(*e));
            },
            EncodingStrategy::TrySequence(encs) => {
                push_str(&mut out, "try sequence: ");
                let ghost start = out@;
                let mut i: usize = 0;
                while i < encs.len()
                    invariant
                        i <= encs@.len(),
                        out@ == start + joined_labels(encs@.take(i as int)),
                    decreases encs.len() - i,
                {
                    assert(encs@.take(i as int + 1).drop_last() =~= encs@.take(i as int));
                    if i > 0 {
                        push_str(&mut out, " → ");
                    } else {
                        assert(encs@.take(0) =~= Seq::<EncodingKind>::empty());
                    }
                    push_str(&mut out, encoding_label(encs[i]));
                    assert(out@ =~= start + joined_labels(encs@.take(i as int + 1)));
                    i += 1;
                }
                assert(encs@.take(encs@.len() as int) =~= encs@);
            },
        }
        string_from_chars(out.as_slice())
    }
}

/// What to do when detection or conversion goes wrong.
#[derive(Clone, Copy, Debug, PartialEq, Eq, Structural)]
pub enum RecoveryAction {
    /// Leave out the offending line or file.
    Skip,
    /// Put U+FFFD in place of what cannot be decoded.
    Replace,
    /// Try this encoding instead.
    Fallback(EncodingKind),
    /// Stop processing with an error.
    Abort,
}

impl RecoveryAction {
    /// A short description of the action.
    pub fn description(&self) -> (r: &'static str)
        ensures
            r@ == match *self {
                RecoveryAction::Skip => "skip invalid content"@,
                RecoveryAction::Replace => "replace with � character"@,
                RecoveryAction::Fallback(_) => "try different encoding"@,
                RecoveryAction::Abort => "abort processing"@,
            },
    {
        match self {
            RecoveryAction::Skip => "skip invalid content",
            RecoveryAction::Replace => "replace with � character",
            RecoveryAction::Fallback(_) => "try different encoding",
            RecoveryAction::Abort => "abort processing",
        }
    }
}

/// Where an encoding problem happened.
#[derive(Debug)]
pub struct ErrorContext {
    pub file_path: String,
    pub line_number: Option<usize>,
    pub error_message: String,
    pub attempted_encoding: String,
}

/// The log message for an encoding problem.
pub open spec fn error_text(c: ErrorContext) -> Seq<char> {
    match c.line_number {
        Some(line) => "Encoding error in "@ + c.file_path@ + " at line "@ + decimal(line as nat)
            + ": "@ + c.error_message@ + " (tried "@ + c.attempted_encoding@ + ")"@,
        None => "Encoding error in "@ + c.file_path@ + ": "@ + c.error_message@ + " (tried "@
            + c.attempted_encoding@ + ")"@,
    }
}

impl ErrorContext {
    pub fn new(
        file_path: String,
        line_number: Option<usize>,
        error_message: String,
        attempted_encoding: String,
    ) -> (r: Self)
        ensures
            r == (ErrorContext { file_path, line_number, error_message, attempted_encoding }),
    {
        ErrorContext { file_path, line_number, error_message, attempted_encoding }
    }

    /// `Encoding error in <file> at line <n>: <message> (tried <encoding>)`,
    /// without the line part when the line is unknown.
    pub fn format_error(&self) -> (r: String)
        ensures
            r@ == error_text(*self),
    {
        let mut out: Vec<char> = Vec::new();
        push_str(&mut out, "Encoding error in ");
        push_str(&mut out, self.file_path.as_str());
        if let Some(line) = self.line_number {
            push_str(&mut out, " at line ");
            push_decimal(&mut out, line as u64);
        }
        push_str(&mut out, ": ");
        push_str(&mut out, self.error_message.as_str());
        push_str(&mut out, " (tried ");
        push_str(&mut out, self.attempted_encoding.as_str());
        push_str(&mut out, ")");
        string_from_chars(out.as_slice())
    }
}

/// Rules for handling encoding problems.
#[derive(Clone, Debug)]
pub struct ErrorRecoveryPolicy {
    /// What to do when detection fails.
    pub detection_failure_action: RecoveryAction,
    /// What to do when conversion replaced characters.
    pub conversion_error_action: RecoveryAction,
    /// What to do when a file looks binary.
    pub binary_file_action: RecoveryAction,
    /// How many fallbacks are tried before giving up.
    pub max_fallback_attempts: usize,
    /// Fail fast rather than carry on.
    pub strict_mode: bool,
}

/// The action a policy takes for an error message after `attempts` tries.
pub open spec fn policy_action(p: ErrorRecoveryPolicy, message: Seq<char>, attempts: usize)
    -> RecoveryAction {
    let otherwise = if p.strict_mode {
        RecoveryAction::Abort
    } else {
        RecoveryAction::Replace
    };
    if attempts >= p.max_fallback_attempts {
        otherwise
    } else if contains_seq(message, "detection"@) {
        p.detection_failure_action
    } else if contains_seq(message, "conversion"@) {
        p.conversion_error_action
    } else if contains_seq(message, "binary"@) {
        p.binary_file_action
    } else {
        otherwise
    }
}

/// The encoding tried after `e` fails.
pub open spec fn next_fallback(e: EncodingKind) -> Option<EncodingKind> {
    match e {
        EncodingKind::Utf8 => Some(EncodingKind::Windows1252),
        EncodingKind::Windows1252 => Some(EncodingKind::Iso8859_15),
        EncodingKind::Iso8859_15 => Some(EncodingKind::Iso8859_2),
        EncodingKind::Iso8859_2 => None,
    }
}

impl ErrorRecoveryPolicy {
    /// Keeps data where it can: falls back to windows-1252, replaces bad
    /// characters, skips binary files, up to three fallbacks.
    pub fn permissive_wordlist_policy() -> (r: Self)
        ensures
            r.detection_failure_action == RecoveryAction::Fallback(EncodingKind::Windows1252),
            r.conversion_error_action == RecoveryAction::Replace,
            r.binary_file_action == RecoveryAction::Skip,
            r.max_fallback_attempts == 3,
            !r.strict_mode,
    {
        ErrorRecoveryPolicy {
            detection_failure_action: RecoveryAction::Fallback(EncodingKind::Windows1252),
            conversion_error_action: RecoveryAction::Replace,
            binary_file_action: RecoveryAction::Skip,
            max_fallback_attempts: 3,
            strict_mode: false,
        }
    }

    /// Aborts on any problem, with no fallbacks.
    pub fn strict_policy() -> (r: Self)
        ensures
            r.detection_failure_action == RecoveryAction::Abort,
            r.conversion_error_action == RecoveryAction::Abort,
            r.binary_file_action == RecoveryAction::Abort,
            r.max_fallback_attempts == 0,
            r.strict_mode,
    {
        ErrorRecoveryPolicy {
            detection_failure_action: RecoveryAction::Abort,
            conversion_error_action: RecoveryAction::Abort,
            binary_file_action: RecoveryAction::Abort,
            max_fallback_attempts: 0,
            strict_mode: true,
        }
    }

    /// Like the permissive policy, with two fallbacks.
    pub fn default_policy() -> (r: Self)
        ensures
            r.detection_failure_action == RecoveryAction::Fallback(EncodingKind::Windows1252),
            r.conversion_error_action == RecoveryAction::Replace,
            r.binary_file_action == RecoveryAction::Skip,
            r.max_fallback_attempts == 2,
            !r.strict_mode,
    {
        ErrorRecoveryPolicy {
            detection_failure_action: RecoveryAction::Fallback(EncodingKind::Windows1252),
            conversion_error_action: RecoveryAction::Replace,
            binary_file_action: RecoveryAction::Skip,
            max_fallback_attempts: 2,
            strict_mode: false,
        }
    }

    /// The action for an error: past the fallback limit, abort (strict) or
    /// replace; otherwise by the kind that the message names.
    pub fn determine_action(&self, context: &ErrorContext, attempt_count: usize) -> (r:
        RecoveryAction)
        ensures
            r == policy_action(*self, context.error_message@, attempt_count),
    {
        let otherwise = if self.strict_mode {
            RecoveryAction::Abort
        } else {
            RecoveryAction::Replace
        };
        if attempt_count >= self.max_fallback_attempts {
            return otherwise;
        }
        let message = context.error_message.as_str();
        if str_contains(message, "detection") {
            self.detection_failure_action
        } else if str_contains(message, "conversion") {
            self.conversion_error_action
        } else if str_contains(message, "binary") {
            self.binary_file_action
        } else {
            otherwise
        }
    }

    /// The next encoding to try after `failed_encoding`: UTF-8, then
    /// windows-1252, then ISO-8859-15, then ISO-8859-2, then none.
    pub fn get_fallback_encoding(&self, failed_encoding: EncodingKind) -> (r: Option<
        EncodingKind,
    >)
        ensures
            r == next_fallback(failed_encoding),
    {
        match failed_encoding {
            EncodingKind::Utf8 => Some(EncodingKind::Windows1252),
            EncodingKind::Windows1252 => Some(EncodingKind::Iso8859_15),
            EncodingKind::Iso8859_15 => Some(EncodingKind::Iso8859_2),
            EncodingKind::Iso8859_2 => None,
        }
    }

    /// Every error is logged.
    pub fn should_log_error(&self, _context: &ErrorContext) -> (r: bool)
        ensures
            r,
    {
        true
    }
}

impl Default for ErrorRecoveryPolicy {
    fn default() -> (r: Self)
        ensures
            r.detection_failure_action == RecoveryAction::Fallback(EncodingKind::Windows1252),
            r.conversion_error_action == RecoveryAction::Replace,
            r.binary_file_action == RecoveryAction::Skip,
            r.max_fallback_attempts == 2,
            !r.strict_mode,
    {
        Self::default_policy()
    }
}

} // verus!
