//! What the record store's answers mean.
//!
//! The store itself is a database file that the caller opens, queries and
//! updates. This module holds what is decided around those calls: where the
//! file lies, which record is read, what a set of rows or a count of changed
//! rows amounts to, and which failure a message of the store stands for.

use vstd::prelude::*;
use crate::error::PatchError;
use crate::text::{contains, occurs, remove_all, without};

verus! {

/// The key of the one record that holds the settings.
pub const RECORD_KEY: &'static str = "GameQualitySetting";

/// The name of the game's executable, which the user is asked to point at.
pub const GAME_EXECUTABLE: &'static str = "Wuthering Waves.exe";

/// Where the store lies, from the directory of the game's executable.
pub const STORE_LOCATION: &'static str = "/Client/Saved/LocalStorage/LocalStorage.db";

/// What the store says when another process holds the file.
pub const LOCKED_MESSAGE: &'static str = "attempt to write a readonly database";

/// What the store says when there is no file to open at the path.
pub const MISSING_MESSAGE: &'static str = "unable to open database file";

/// Whether `message` says that another process holds the store.
pub open spec fn says_locked(message: Seq<char>) -> bool {
    occurs(message, LOCKED_MESSAGE@)
}

/// Whether `message` says that the store is not where it was looked for.
pub open spec fn says_missing(message: Seq<char>) -> bool {
    occurs(message, MISSING_MESSAGE@)
}

/// The path of the store, from the path of the game's executable as the user
/// chose it: the path without the executable's name, then the store's
/// location.
pub fn store_path(executable: &str) -> (path: String)
    ensures
        path@ == without(executable@, GAME_EXECUTABLE@) + STORE_LOCATION@,
{
    let mut path = remove_all(executable, GAME_EXECUTABLE);
    path.append(STORE_LOCATION);
    path
}

/// The failure that `message` stands for when the store could not be opened.
pub fn open_failure(message: &str) -> (error: PatchError)
    ensures
        error == if says_locked(message@) {
            PatchError::StoreLocked
        } else {
            PatchError::StoreUnavailable
        },
{
    if contains(message, LOCKED_MESSAGE) {
        PatchError::StoreLocked
    } else {
        PatchError::StoreUnavailable
    }
}

/// The failure that `message` stands for when the query for the record
/// failed.
pub fn query_failure(message: &str) -> (error: PatchError)
    ensures
        error == if says_locked(message@) {
            PatchError::StoreLocked
        } else {
            PatchError::StoreQueryError
        },
{
    if contains(message, LOCKED_MESSAGE) {
        PatchError::StoreLocked
    } else {
        PatchError::StoreQueryError
    }
}

/// The failure that `message` stands for when the store refused the update.
pub fn write_failure(message: &str) -> (error: PatchError)
    ensures
        error == if says_locked(message@) {
            PatchError::StoreLocked
        } else {
            PatchError::StoreWriteError
        },
{
    if contains(message, LOCKED_MESSAGE) {
        PatchError::StoreLocked
    } else {
        PatchError::StoreWriteError
    }
}

/// What to tell the user to do about a failure.
#[derive(Clone, Copy, Debug, PartialEq, Eq, Structural)]
pub struct Remedy {
    /// The game holds the store: close the game first.
    pub close_game: bool,
    /// The store is not at the path: choose the game's location again.
    pub correct_location: bool,
}

/// The remedies that the message of a failure calls for; none where the
/// message matches neither known failure.
pub fn remedy_for(message: &str) -> (remedy: Remedy)
    ensures
        remedy.close_game == says_locked(message@),
        remedy.correct_location == says_missing(message@),
{
    Remedy {
        close_game: contains(message, LOCKED_MESSAGE),
        correct_location: contains(message, MISSING_MESSAGE),
    }
}

/// The record's value, from the rows that the query for its key gave: none
/// where there is no row, the one column of the one row where there is one,
/// and a failure for any other shape.
pub open spec fn selected_value(rows: Seq<Vec<String>>) -> Result<Option<Seq<char>>, PatchError> {
    if rows.len() == 0 {
        Ok(None)
    } else if rows.len() == 1 && rows[0]@.len() == 1 {
        Ok(Some(rows[0]@[0]@))
    } else {
        Err(PatchError::StoreQueryError)
    }
}

/// Reads the record's value off the answer to the query for its key: the
/// rows, each as its columns, or the store's message where the query failed.
///
/// That the store has no record under the key is no failure: the value is
/// then `None`.
pub fn read_value(answer: &Result<Vec<Vec<String>>, String>) -> (outcome: Result<
    Option<String>,
    PatchError,
>)
    ensures
        match answer {
            Ok(rows) => match selected_value(rows@) {
                Ok(Some(value)) => outcome is Ok && outcome->Ok_0 is Some && outcome->Ok_0->0@
                    == value,
                Ok(None) => outcome is Ok && outcome->Ok_0 is None,
                Err(error) => outcome is Err && outcome->Err_0 == error,
            },
            Err(message) => outcome is Err && outcome->Err_0 == if says_locked(message@) {
                PatchError::StoreLocked
            } else {
                PatchError::StoreQueryError
            },
        },
{
    match answer {
        Ok(rows) => {
            if rows.len() == 0 {
                Ok(None)
            } else if rows.len() == 1 && rows[0].len() == 1 {
                Ok(Some(rows[0][0].clone()))
            } else {
                Err(PatchError::StoreQueryError)
            }
        },
        Err(message) => Err(query_failure(message.as_str())),
    }
}

/// Judges the answer to the update of the record: the number of rows that it
/// changed, or the store's message where it failed.
///
/// The write has gone through only if exactly one row changed. No row changed
/// means that the record has gone since it was read.
pub fn confirm_write(answer: &Result<usize, String>) -> (outcome: Result<(), PatchError>)
    ensures
        outcome is Ok <==> answer == Ok::<usize, String>(1),
        outcome is Err ==> outcome->Err_0 == match answer {
            Ok(changed) => if *changed == 0 {
                PatchError::KeyDisappeared
            } else {
                PatchError::StoreWriteError
            },
            Err(message) => if says_locked(message@) {
                PatchError::StoreLocked
            } else {
                PatchError::StoreWriteError
            },
        },
{
    match answer {
        Ok(changed) => {
            if *changed == 1 {
                Ok(())
            } else if *changed == 0 {
                Err(PatchError::KeyDisappeared)
            } else {
                Err(PatchError::StoreWriteError)
            }
        },
        Err(message) => Err(write_failure(message.as_str())),
    }
}

} // verus!
