use vstd::prelude::*;

use crate::json::{get_member, json_text, member_of, str_of, text_of, Json, JsonView};
use crate::model::{
    opens_view, todos_view, ClassTodo, Field, FieldView, OpenEntry, OpenSubject, TodoEntry, TodoInfo,
    TodoSubject,
};

verus! {

/// serde_json's JSON value.
#[verifier::external_type_specification]
#[verifier::external_body]
pub struct ExValue(serde_json::Value);

/// serde_json's parse error.
#[verifier::external_type_specification]
#[verifier::external_body]
pub struct ExJsonError(serde_json::Error);

/// Whether serde_json reads the text as one JSON value.
pub uninterp spec fn is_json(text: Seq<char>) -> bool;

/// The value that serde_json reads from the text.
pub uninterp spec fn parsed(text: Seq<char>) -> JsonView;

/// Converts a serde_json value into a `Json`, variant for variant; a number
/// becomes its text as serde_json writes it, an object its members in the
/// map's order.
#[verifier::external_body]
fn json_of(v: serde_json::Value) -> Json {
    match v {
        serde_json::Value::Null => Json::Null,
        serde_json::Value::Bool(b) => Json::Bool(b),
        serde_json::Value::Number(n) => Json::Number(n.to_string()),
        serde_json::Value::String(s) => Json::Str(s),
        serde_json::Value::Array(a) => Json::Array(a.into_iter().map(json_of).collect()),
        serde_json::Value::Object(m) => {
            let (ks, vs): (Vec<String>, Vec<Json>) = m.into_iter().map(|(k, x)| (k, json_of(x))).unzip();
            Json::Object(ks, vs)
        }
    }
}

/// Relies on serde_json::from_str into serde_json::Value: fails exactly when
/// the text is not JSON, and otherwise gives the value it reads, which
/// depends on the text alone.
#[verifier::external_body]
pub(crate) fn parse_json(text: &str) -> (r: Result<Json, serde_json::Error>)
    ensures
        r is Ok <==> is_json(text@),
        r matches Ok(j) ==> j@ == parsed(text@),
{
    serde_json::from_str::<serde_json::Value>(text).map(json_of)
}

/// Relies on serde_json::to_string on a `str`: the string as a JSON string
/// literal, escaped as serde_json's escape table says. Serialising a `str`
/// does not fail.
#[verifier::external_body]
pub(crate) fn quote(s: &str) -> (r: String)
    ensures
        r@ == crate::json::json_quoted(s@),
{
    match serde_json::to_string(s) {
        Ok(t) => t,
        Err(_) => String::new(),
    }
}

/// The names of the fields that the database keeps of each open-class entry,
/// in the order in which it writes them.
pub open spec fn kept_field_names() -> Seq<Seq<char>> {
    seq![
        "trgtGrdeCd"@, "subjtNm"@, "ltrPrfsNm"@, "deptNm"@, "facDvnm"@, "timtSmryCn"@,
        "lssnLangNm"@, "subjtCd"@, "diclNo"@, "subjtEstbYear"@, "point"@, "cltTerrNm"@,
        "sexCdNm"@, "hffcStatNm"@, "clsfNm"@, "capprTypeNm"@,
    ]
}

/// The number of kept fields.
pub const KEPT_FIELD_COUNT: usize = 16;

/// The name of the kept field at position `i`.
fn kept_field_name(i: usize) -> (r: &'static str)
    requires
        i < KEPT_FIELD_COUNT,
    ensures
        r@ == kept_field_names()[i as int],
{
    match i {
        0 => "trgtGrdeCd",
        1 => "subjtNm",
        2 => "ltrPrfsNm",
        3 => "deptNm",
        4 => "facDvnm",
        5 => "timtSmryCn",
        6 => "lssnLangNm",
        7 => "subjtCd",
        8 => "diclNo",
        9 => "subjtEstbYear",
        10 => "point",
        11 => "cltTerrNm",
        12 => "sexCdNm",
        13 => "hffcStatNm",
        14 => "clsfNm",
        _ => "capprTypeNm",
    }
}

/// The member `key` of an entry as a key component: the string it holds,
/// or the empty string where it is absent or no string.
pub open spec fn key_text(o: Option<JsonView>) -> Seq<char> {
    match str_of(o) {
        Some(t) => t,
        None => Seq::empty(),
    }
}

/// The syllabus entry that the merge reads from a JSON entry.
pub open spec fn todo_entry_of(j: JsonView) -> TodoEntry {
    TodoEntry {
        subject_code: key_text(member_of(j, "subjtCd"@)),
        dicl_number: key_text(member_of(j, "diclNo"@)),
        info: TodoInfo {
            department: str_of(member_of(j, "estbDpmjNm"@)),
            major: str_of(member_of(j, "estbMjorNm"@)),
            email: str_of(member_of(j, "email"@)),
            phone: str_of(member_of(j, "mpno"@)),
        },
    }
}

/// A kept field of a JSON entry: its JSON text, `null` where it is absent.
pub open spec fn field_of(j: JsonView, name: Seq<char>) -> FieldView {
    FieldView {
        name,
        text: match member_of(j, name) {
            Some(v) => json_text(v),
            None => seq!['n', 'u', 'l', 'l'],
        },
    }
}

/// The open-class entry that the merge reads from a JSON entry.
pub open spec fn open_entry_of(j: JsonView) -> OpenEntry {
    OpenEntry {
        subject_code: key_text(member_of(j, "subjtCd"@)),
        dicl_number: key_text(member_of(j, "diclNo"@)),
        professor: str_of(member_of(j, "ltrPrfsNm"@)),
        fields: kept_field_names().map_values(|n: Seq<char>| field_of(j, n)),
    }
}

/// The syllabus entries read from JSON entries.
pub open spec fn todo_entries(items: Seq<JsonView>) -> Seq<TodoEntry> {
    items.map_values(|j: JsonView| todo_entry_of(j))
}

/// The open-class entries read from JSON entries.
pub open spec fn open_entries(items: Seq<JsonView>) -> Seq<OpenEntry> {
    items.map_values(|j: JsonView| open_entry_of(j))
}

/// The subject list of an export: the array under `estbLectDtaiList`.
pub open spec fn subject_list(doc: JsonView) -> Option<Seq<JsonView>> {
    match member_of(doc, "estbLectDtaiList"@) {
        Some(JsonView::Array(items)) => Some(items),
        _ => None,
    }
}

/// The member `key` of an entry where it is a string.
fn text_member(v: &Json, key: &str) -> (r: Option<String>)
    ensures
        crate::model::opt_view(r) == str_of(member_of(v@, key@)),
{
    text_of(get_member(v, key))
}

/// The member `key` of an entry where it is a string, else the empty string.
fn key_member(v: &Json, key: &str) -> (r: String)
    ensures
        r@ == key_text(member_of(v@, key@)),
{
    match text_member(v, key) {
        Some(t) => t,
        None => String::new(),
    }
}

/// Reads a syllabus entry: the composite key, empty where absent or no
/// string, and the department, major, email and phone where they are strings.
pub fn todo_subject_of(v: &Json) -> (r: TodoSubject)
    ensures
        r@ == todo_entry_of(v@),
{
    TodoSubject {
        subject_code: key_member(v, "subjtCd"),
        dicl_number: key_member(v, "diclNo"),
        info: ClassTodo {
            department: text_member(v, "estbDpmjNm"),
            major: text_member(v, "estbMjorNm"),
            email: text_member(v, "email"),
            phone: text_member(v, "mpno"),
        },
    }
}

/// Reads an open-class entry: the composite key, empty where absent or no
/// string, the instructor's name where it is a string, and the JSON text of
/// each kept field, `null` where the entry lacks it.
pub fn open_subject_of(v: &Json) -> (r: OpenSubject)
    ensures
        r@ == open_entry_of(v@),
{
    let mut fields: Vec<Field> = Vec::new();
    let mut i: usize = 0;
    while i < KEPT_FIELD_COUNT
        invariant
            i <= KEPT_FIELD_COUNT,
            crate::model::fields_view(fields@) =~= Seq::new(i as nat, |q: int| field_of(v@, kept_field_names()[q])),
        decreases KEPT_FIELD_COUNT - i,
    {
        let name = kept_field_name(i);
        let text = match get_member(v, name) {
            Some(m) => crate::json::write_json(m),
            None => {
                proof {
                    reveal_strlit("null");
                    assert("null"@ =~= seq!['n', 'u', 'l', 'l']);
                }
                String::from_str("null")
            }
        };
        let ghost prev = crate::model::fields_view(fields@);
        let f = Field { name: name.to_owned(), text };
        fields.push(f);
        assert(crate::model::fields_view(fields@) =~= prev.push(f@));
        i = i + 1;
    }
    let r = OpenSubject {
        subject_code: key_member(v, "subjtCd"),
        dicl_number: key_member(v, "diclNo"),
        professor: text_member(v, "ltrPrfsNm"),
        fields,
    };
    assert(r@.fields =~= open_entry_of(v@).fields);
    r
}

/// The subject list of an export, as `subject_list` says.
fn subject_items(doc: &Json) -> (r: Option<&Vec<Json>>)
    ensures
        match r {
            Some(l) => subject_list(doc@) matches Some(items) && items.len() == l@.len() && forall|i: int|
                0 <= i < l@.len() ==> items[i] == (#[trigger] l@[i])@,
            None => subject_list(doc@) is None,
        },
{
    match get_member(doc, "estbLectDtaiList") {
        Some(Json::Array(items)) => Some(items),
        _ => None,
    }
}

/// The syllabus entries of a syllabus export, or `None` where it has no
/// subject list.
pub fn read_todo_subjects(doc: &Json) -> (r: Option<Vec<TodoSubject>>)
    ensures
        match subject_list(doc@) {
            Some(items) => r matches Some(v) && todos_view(v@) == todo_entries(items),
            None => r is None,
        },
{
    match subject_items(doc) {
        Some(list) => {
            let ghost items = subject_list(doc@)->Some_0;
            let mut out: Vec<TodoSubject> = Vec::new();
            let mut i: usize = 0;
            while i < list.len()
                invariant
                    i <= list@.len(),
                    items.len() == list@.len(),
                    forall|q: int| 0 <= q < list@.len() ==> items[q] == (#[trigger] list@[q])@,
                    todos_view(out@) =~= todo_entries(items).take(i as int),
                decreases list@.len() - i,
            {
                let ghost prev = todos_view(out@);
                let t = todo_subject_of(&list[i]);
                out.push(t);
                assert(todos_view(out@) =~= prev.push(t@));
                assert(items[i as int] == list@[i as int]@);
                assert(todos_view(out@) =~= todo_entries(items).take(i + 1));
                i = i + 1;
            }
            assert(todo_entries(items).take(i as int) =~= todo_entries(items));
            Some(out)
        }
        None => None,
    }
}

/// The open-class entries of an open-class export, or `None` where it has
/// no subject list.
pub fn read_open_subjects(doc: &Json) -> (r: Option<Vec<OpenSubject>>)
    ensures
        match subject_list(doc@) {
            Some(items) => r matches Some(v) && opens_view(v@) == open_entries(items),
            None => r is None,
        },
{
    match subject_items(doc) {
        Some(list) => {
            let ghost items = subject_list(doc@)->Some_0;
            let mut out: Vec<OpenSubject> = Vec::new();
            let mut i: usize = 0;
            while i < list.len()
                invariant
                    i <= list@.len(),
                    items.len() == list@.len(),
                    forall|q: int| 0 <= q < list@.len() ==> items[q] == (#[trigger] list@[q])@,
                    opens_view(out@) =~= open_entries(items).take(i as int),
                decreases list@.len() - i,
            {
                let ghost prev = opens_view(out@);
                let t = open_subject_of(&list[i]);
                out.push(t);
                assert(opens_view(out@) =~= prev.push(t@));
                assert(items[i as int] == list@[i as int]@);
                assert(opens_view(out@) =~= open_entries(items).take(i + 1));
                i = i + 1;
            }
            assert(open_entries(items).take(i as int) =~= open_entries(items));
            Some(out)
        }
        None => None,
    }
}

} // verus!
