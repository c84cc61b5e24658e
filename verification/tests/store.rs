use wuwa_fps_unlocker::error::PatchError;
use wuwa_fps_unlocker::store::{
    confirm_write, open_failure, query_failure, read_value, remedy_for, store_path, write_failure,
    Remedy, GAME_EXECUTABLE, LOCKED_MESSAGE, MISSING_MESSAGE, RECORD_KEY, STORE_LOCATION,
};

#[test]
fn store_constants() {
    assert_eq!(RECORD_KEY, "GameQualitySetting");
    assert_eq!(GAME_EXECUTABLE, "Wuthering Waves.exe");
    assert_eq!(STORE_LOCATION, "/Client/Saved/LocalStorage/LocalStorage.db");
    assert_eq!(LOCKED_MESSAGE, "attempt to write a readonly database");
    assert_eq!(MISSING_MESSAGE, "unable to open database file");
}

#[test]
fn store_path_is_derived_from_the_executable() {
    assert_eq!(
        store_path("C:/Games/Wuthering Waves/Wuthering Waves Game/Wuthering Waves.exe"),
        "C:/Games/Wuthering Waves/Wuthering Waves Game//Client/Saved/LocalStorage/LocalStorage.db"
    );
    assert_eq!(store_path(""), "/Client/Saved/LocalStorage/LocalStorage.db");
    assert_eq!(store_path("D:\\other.exe"), "D:\\other.exe/Client/Saved/LocalStorage/LocalStorage.db");
    assert_eq!(
        store_path("Wuthering Waves.exe/x/Wuthering Waves.exe"),
        "/x//Client/Saved/LocalStorage/LocalStorage.db"
    );
}

#[test]
fn failures_are_told_apart_by_the_message() {
    let locked = "attempt to write a readonly database";
    let missing = "unable to open database file: C:/nowhere";
    let other = "disk I/O error";
    assert_eq!(open_failure(locked), PatchError::StoreLocked);
    assert_eq!(open_failure(missing), PatchError::StoreUnavailable);
    assert_eq!(open_failure(other), PatchError::StoreUnavailable);
    assert_eq!(open_failure(""), PatchError::StoreUnavailable);
    assert_eq!(query_failure(locked), PatchError::StoreLocked);
    assert_eq!(query_failure("no such table: LocalStorage"), PatchError::StoreQueryError);
    assert_eq!(write_failure("Error: attempt to write a readonly database (8)"), PatchError::StoreLocked);
    assert_eq!(write_failure("database or disk is full"), PatchError::StoreWriteError);
    assert_eq!(write_failure("Attempt to write a readonly database"), PatchError::StoreWriteError);
}

#[test]
fn remedies_follow_the_message() {
    assert_eq!(
        remedy_for("attempt to write a readonly database"),
        Remedy { close_game: true, correct_location: false }
    );
    assert_eq!(
        remedy_for("unable to open database file"),
        Remedy { close_game: false, correct_location: true }
    );
    assert_eq!(
        remedy_for("unable to open database file; attempt to write a readonly database"),
        Remedy { close_game: true, correct_location: true }
    );
    assert_eq!(remedy_for("something else"), Remedy { close_game: false, correct_location: false });
}

#[test]
fn read_value_of_no_row_is_none() {
    assert_eq!(read_value(&Ok(Vec::new())), Ok(None));
}

#[test]
fn read_value_takes_the_one_column_of_the_one_row() {
    let rows = vec![vec!["{\"a\":1}".to_string()]];
    assert_eq!(read_value(&Ok(rows)), Ok(Some("{\"a\":1}".to_string())));
    let rows = vec![vec![String::new()]];
    assert_eq!(read_value(&Ok(rows)), Ok(Some(String::new())));
}

#[test]
fn read_value_refuses_any_other_shape() {
    let two_rows = vec![vec!["a".to_string()], vec!["b".to_string()]];
    assert_eq!(read_value(&Ok(two_rows)), Err(PatchError::StoreQueryError));
    let two_columns = vec![vec!["a".to_string(), "b".to_string()]];
    assert_eq!(read_value(&Ok(two_columns)), Err(PatchError::StoreQueryError));
    let no_column = vec![Vec::new()];
    assert_eq!(read_value(&Ok(no_column)), Err(PatchError::StoreQueryError));
}

#[test]
fn read_value_reports_a_failed_query() {
    assert_eq!(
        read_value(&Err("no such table: LocalStorage".to_string())),
        Err(PatchError::StoreQueryError)
    );
    assert_eq!(
        read_value(&Err("attempt to write a readonly database".to_string())),
        Err(PatchError::StoreLocked)
    );
}

#[test]
fn confirm_write_wants_exactly_one_row() {
    assert_eq!(confirm_write(&Ok(1)), Ok(()));
    assert_eq!(confirm_write(&Ok(0)), Err(PatchError::KeyDisappeared));
    assert_eq!(confirm_write(&Ok(2)), Err(PatchError::StoreWriteError));
    assert_eq!(confirm_write(&Ok(usize::MAX)), Err(PatchError::StoreWriteError));
}

#[test]
fn confirm_write_reports_a_refused_update() {
    assert_eq!(
        confirm_write(&Err("attempt to write a readonly database".to_string())),
        Err(PatchError::StoreLocked)
    );
    assert_eq!(
        confirm_write(&Err("database or disk is full".to_string())),
        Err(PatchError::StoreWriteError)
    );
    assert_eq!(confirm_write(&Err(String::new())), Err(PatchError::StoreWriteError));
}
