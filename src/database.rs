use vstd::prelude::*;

use crate::merge::{merge_subjects, merged_departments};
use crate::model::{opens_view, todos_view, OpenSubject, TodoSubject};
use crate::render::{db_text, render_db};
use crate::source::{
    is_json, open_entries, parse_json, parsed, read_open_subjects, read_todo_subjects, subject_list,
    todo_entries,
};

verus! {

/// Which of the two exports an error concerns.
#[derive(Clone, Copy, Debug, PartialEq, Eq, Structural)]
pub enum SourceKind {
    /// The open-class export.
    OpenClass,
    /// The syllabus export.
    ClassTodo,
}

/// Why the database could not be built.
#[derive(Clone, Copy, Debug, PartialEq, Eq, Structural)]
pub enum DbError {
    /// The export is not JSON.
    InvalidJson(SourceKind),
    /// The export has no array under `estbLectDtaiList`.
    MissingSubjects(SourceKind),
}

/// Builds the database from the syllabus entries and the open-class entries
/// and writes it as JSON text.
pub fn build_db(
    todos: &Vec<TodoSubject>,
    opens: &Vec<OpenSubject>,
    latest_app_version: &str,
    db_version: &str,
    quick_mode: bool,
) -> (r: String)
    ensures
        r@ == db_text(
            merged_departments(todos_view(todos@), opens_view(opens@)),
            latest_app_version@,
            db_version@,
            quick_mode,
        ),
{
    let db = merge_subjects(todos, opens);
    render_db(&db, latest_app_version, db_version, quick_mode)
}

/// The outcome that the two export texts call for, once both are JSON: a
/// missing subject list (the syllabus's is looked at first), or the database
/// built from the entries of the two lists.
pub open spec fn db_outcome(
    open_class_content: Seq<char>,
    class_todo_content: Seq<char>,
    latest_app_version: Seq<char>,
    db_version: Seq<char>,
    quick_mode: bool,
) -> Result<Seq<char>, DbError> {
    match subject_list(parsed(class_todo_content)) {
        None => Err(DbError::MissingSubjects(SourceKind::ClassTodo)),
        Some(todo_items) => match subject_list(parsed(open_class_content)) {
            None => Err(DbError::MissingSubjects(SourceKind::OpenClass)),
            Some(open_items) => Ok(
                db_text(
                    merged_departments(todo_entries(todo_items), open_entries(open_items)),
                    latest_app_version,
                    db_version,
                    quick_mode,
                ),
            ),
        },
    }
}

/// Builds the database text from the contents of the open-class export and
/// of the syllabus export. Fails where either is not JSON (the open-class
/// export is read first); otherwise the outcome is `db_outcome`.
pub fn make_db_content(
    open_class_content: &str,
    class_todo_content: &str,
    latest_app_version: &str,
    db_version: &str,
    quick_mode: bool,
) -> (r: Result<String, DbError>)
    ensures
        !is_json(open_class_content@) ==> r == Err::<String, DbError>(
            DbError::InvalidJson(SourceKind::OpenClass),
        ),
        is_json(open_class_content@) && !is_json(class_todo_content@) ==> r == Err::<String, DbError>(
            DbError::InvalidJson(SourceKind::ClassTodo),
        ),
        is_json(open_class_content@) && is_json(class_todo_content@) ==> match db_outcome(
            open_class_content@,
            class_todo_content@,
            latest_app_version@,
            db_version@,
            quick_mode,
        ) {
            Ok(t) => r matches Ok(s) && s@ == t,
            Err(e) => r == Err::<String, DbError>(e),
        },
{
    let open_doc = match parse_json(open_class_content) {
        Ok(v) => v,
        Err(_) => {
            return Err(DbError::InvalidJson(SourceKind::OpenClass));
        }
    };
    let todo_doc = match parse_json(class_todo_content) {
        Ok(v) => v,
        Err(_) => {
            return Err(DbError::InvalidJson(SourceKind::ClassTodo));
        }
    };
    let todos = match read_todo_subjects(&todo_doc) {
        Some(t) => t,
        None => {
            return Err(DbError::MissingSubjects(SourceKind::ClassTodo));
        }
    };
    let opens = match read_open_subjects(&open_doc) {
        Some(o) => o,
        None => {
            return Err(DbError::MissingSubjects(SourceKind::OpenClass));
        }
    };
    Ok(build_db(&todos, &opens, latest_app_version, db_version, quick_mode))
}

/// Whether the database is built in quick mode: exactly when the two exports
/// have the same contents.
pub fn is_quick_mode(open_class_content: &str, class_todo_content: &str) -> (r: bool)
    ensures
        r == (open_class_content@ == class_todo_content@),
{
    let a = String::from_str(open_class_content);
    let b = String::from_str(class_todo_content);
    a == b
}

/// The name of the file the database of version `db_version` is written to:
/// `result_<db_version>.json`.
pub fn output_file_name(db_version: &str) -> (r: String)
    ensures
        r@ == "result_"@ + db_version@ + ".json"@,
{
    let mut name = String::from_str("result_");
    name.append(db_version);
    name.append(".json");
    name
}

} // verus!
