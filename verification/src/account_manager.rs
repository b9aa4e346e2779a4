//! What the keystore import decides: where the keystores come from, and
//! what an attempt at a password leads to.

use vstd::prelude::*;
use vstd::string::StringExecFns;

verus! {

pub const CMD: &'static str = "import";

pub const KEYSTORE_FLAG: &'static str = "keystore";

pub const DIR_FLAG: &'static str = "directory";

/// Where the keystores to import come from.
#[derive(Clone, Debug)]
pub enum KeystoreSource {
    /// One keystore, at this path.
    Single(String),
    /// Every keystore found under this directory.
    Directory(String),
}

/// What decrypting a keystore with a password came to.
#[derive(Clone, Copy, Debug, PartialEq, Eq, Structural)]
pub enum Decryption {
    Correct,
    InvalidPassword,
    OtherError,
}

/// What follows a line that was read as a password.
#[derive(Clone, Copy, Debug, PartialEq, Eq, Structural)]
pub enum PasswordStep {
    /// The line is empty: go on without a password.
    ContinueWithout,
    /// The line is a password: try to decrypt with it.
    Try,
}

/// What follows an attempt to decrypt.
#[derive(Clone, Copy, Debug, PartialEq, Eq, Structural)]
pub enum AttemptStep {
    /// The password is right: keep it.
    Keep,
    /// The password is wrong: ask again.
    AskAgain,
    /// Decrypting failed for another reason: give up.
    GiveUp,
}

/// Where the keystores come from: exactly one of the two flags must be
/// given.
pub fn keystore_source(keystore: Option<String>, keystores_dir: Option<String>) -> (source: Result<
    KeystoreSource,
    String,
>)
    ensures
        match (keystore, keystores_dir) {
            (Some(path), None) => source == Ok::<KeystoreSource, String>(
                KeystoreSource::Single(path),
            ),
            (None, Some(dir)) => source == Ok::<KeystoreSource, String>(
                KeystoreSource::Directory(dir),
            ),
            _ => source is Err && source.unwrap_err()@
                == "Must supply either --keystore or --directory"@,
        },
{
    match (keystore, keystores_dir) {
        (Some(path), None) => Ok(KeystoreSource::Single(path)),
        (None, Some(dir)) => Ok(KeystoreSource::Directory(dir)),
        _ => Err(String::from_str("Must supply either --keystore or --directory")),
    }
}

/// What to do with a line that was read as a password.
pub fn password_step(line: &str) -> (step: PasswordStep)
    ensures
        step == (if line@.len() == 0 {
            PasswordStep::ContinueWithout
        } else {
            PasswordStep::Try
        }),
{
    if line.is_empty() {
        PasswordStep::ContinueWithout
    } else {
        PasswordStep::Try
    }
}

/// What to do after an attempt to decrypt.
pub fn attempt_step(outcome: Decryption) -> (step: AttemptStep)
    ensures
        step == (match outcome {
            Decryption::Correct => AttemptStep::Keep,
            Decryption::InvalidPassword => AttemptStep::AskAgain,
            Decryption::OtherError => AttemptStep::GiveUp,
        }),
{
    match outcome {
        Decryption::Correct => AttemptStep::Keep,
        Decryption::InvalidPassword => AttemptStep::AskAgain,
        Decryption::OtherError => AttemptStep::GiveUp,
    }
}

} // verus!
