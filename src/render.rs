use vstd::prelude::*;

use crate::model::{
    departments_view, strs_view, MergedDb, Contact, ContactView, Department, DepartmentView, Field, FieldView, MergedCourse,
    MergedView,
};
use crate::json::json_quoted;
use crate::source::quote;

verus! {

/// The items separated by commas.
pub open spec fn joined(items: Seq<Seq<char>>) -> Seq<char>
    decreases items.len(),
{
    if items.len() == 0 {
        Seq::empty()
    } else if items.len() == 1 {
        items[0]
    } else {
        joined(items.drop_last()) + seq![','] + items.last()
    }
}

/// A JSON object with the given members.
pub open spec fn object_text(members: Seq<Seq<char>>) -> Seq<char> {
    seq!['{'] + joined(members) + seq!['}']
}

/// A JSON array with the given items.
pub open spec fn array_text(items: Seq<Seq<char>>) -> Seq<char> {
    seq!['['] + joined(items) + seq![']']
}

/// An object member: the key as a JSON string, a colon, the value.
pub open spec fn member_text(key: Seq<char>, value: Seq<char>) -> Seq<char> {
    json_quoted(key) + seq![':'] + value
}

/// An optional string as JSON: the string, or `null` where it is absent.
pub open spec fn opt_text(o: Option<Seq<char>>) -> Seq<char> {
    match o {
        Some(s) => json_quoted(s),
        None => seq!['n', 'u', 'l', 'l'],
    }
}

/// A kept field as an object member.
pub open spec fn field_text(f: FieldView) -> Seq<char> {
    member_text(f.name, f.text)
}

/// The kept fields as object members.
pub open spec fn field_texts(fs: Seq<FieldView>) -> Seq<Seq<char>> {
    fs.map_values(|f: FieldView| field_text(f))
}

/// Strings as JSON strings.
pub open spec fn quoted_texts(ms: Seq<Seq<char>>) -> Seq<Seq<char>> {
    ms.map_values(|m: Seq<char>| json_quoted(m))
}

/// Courses as JSON objects.
pub open spec fn course_texts(ms: Seq<MergedView>) -> Seq<Seq<char>> {
    ms.map_values(|m: MergedView| course_text(m))
}

/// Contacts as object members.
pub open spec fn contact_texts(cs: Seq<ContactView>) -> Seq<Seq<char>> {
    cs.map_values(|c: ContactView| contact_text(c))
}

/// A course as a JSON object: its kept fields, then its department and major.
pub open spec fn course_text(m: MergedView) -> Seq<char> {
    object_text(
        field_texts(m.fields) + seq![
            member_text("estbDpmjNm"@, opt_text(m.department)),
            member_text("estbMjorNm"@, opt_text(m.major)),
        ],
    )
}

/// A contact as an object member keyed by the instructor's name.
pub open spec fn contact_text(c: ContactView) -> Seq<char> {
    member_text(
        c.name,
        object_text(seq![member_text("email"@, opt_text(c.email)), member_text("mpno"@, opt_text(c.phone))]),
    )
}

/// A department's majors as an object member.
pub open spec fn majors_text(d: DepartmentView) -> Seq<char> {
    member_text(d.name, array_text(quoted_texts(d.majors)))
}

/// The members of the department taxonomy: one for each department with at
/// least one major.
pub open spec fn taxonomy_members(ds: Seq<DepartmentView>) -> Seq<Seq<char>>
    decreases ds.len(),
{
    if ds.len() == 0 {
        Seq::empty()
    } else {
        let prev = taxonomy_members(ds.drop_last());
        if ds.last().majors.len() > 0 {
            prev.push(majors_text(ds.last()))
        } else {
            prev
        }
    }
}

/// A department's courses as an object member.
pub open spec fn subjects_text(d: DepartmentView) -> Seq<char> {
    member_text(d.name, array_text(course_texts(d.subjects)))
}

/// A department's contacts as an object member.
pub open spec fn contacts_text(d: DepartmentView) -> Seq<char> {
    member_text(d.name, object_text(contact_texts(d.contacts)))
}

/// The member of each department in the course lists.
pub open spec fn subjects_members(ds: Seq<DepartmentView>) -> Seq<Seq<char>> {
    ds.map_values(|d: DepartmentView| subjects_text(d))
}

/// The member of each department in the contact lists.
pub open spec fn contacts_members(ds: Seq<DepartmentView>) -> Seq<Seq<char>> {
    ds.map_values(|d: DepartmentView| contacts_text(d))
}

/// The key of the department taxonomy.
pub open spec fn departments_key(quick_mode: bool) -> Seq<char> {
    if quick_mode {
        "departments_quick"@
    } else {
        "departments"@
    }
}

/// The key of the course lists.
pub open spec fn subjects_key(quick_mode: bool) -> Seq<char> {
    if quick_mode {
        "estbLectDtaiList_quick"@
    } else {
        "estbLectDtaiList"@
    }
}

/// The version object. The legacy app version is always "0.0".
pub open spec fn version_text(app_version: Seq<char>, db_version: Seq<char>) -> Seq<char> {
    object_text(
        seq![
            member_text("app_ver"@, json_quoted(app_version)),
            member_text("db_ver"@, json_quoted(db_version)),
            member_text("legacy_app_ver"@, json_quoted("0.0"@)),
        ],
    )
}

/// The database as JSON text: the contacts, the department taxonomy, the
/// course lists and the versions.
pub open spec fn db_text(
    ds: Seq<DepartmentView>,
    app_version: Seq<char>,
    db_version: Seq<char>,
    quick_mode: bool,
) -> Seq<char> {
    object_text(
        seq![
            member_text("contacts"@, object_text(contacts_members(ds))),
            member_text(departments_key(quick_mode), object_text(taxonomy_members(ds))),
            member_text(subjects_key(quick_mode), object_text(subjects_members(ds))),
            member_text("version"@, version_text(app_version, db_version)),
        ],
    )
}

/// Joins the items with commas into a JSON object (`open` '{') or array ('[').
pub(crate) fn enclose(items: &Vec<String>, open: bool) -> (r: String)
    ensures
        open ==> r@ == object_text(strs_view(items@)),
        !open ==> r@ == array_text(strs_view(items@)),
{
    let ghost s = strs_view(items@);
    let mut out = if open {
        String::from_str("{")
    } else {
        String::from_str("[")
    };
    proof {
        reveal_strlit("{");
        reveal_strlit("[");
    }
    let ghost start = out@;
    let mut i: usize = 0;
    while i < items.len()
        invariant
            i <= items@.len(),
            s == strs_view(items@),
            out@ == start + joined(s.take(i as int)),
        decreases items@.len() - i,
    {
        assert(s.take(i + 1).drop_last() =~= s.take(i as int));
        if i > 0 {
            out.append(",");
            proof {
                reveal_strlit(",");
            }
        }
        out.append(items[i].as_str());
        assert(s.take(i + 1).last() == s[i as int]);
        assert(out@ =~= start + joined(s.take(i + 1)));
        i = i + 1;
    }
    assert(s.take(items@.len() as int) =~= s);
    if open {
        out.append("}");
        proof {
            reveal_strlit("}");
        }
    } else {
        out.append("]");
        proof {
            reveal_strlit("]");
        }
    }
    out
}

/// An object member with the given key and value text.
pub(crate) fn member(key: &str, value: &str) -> (r: String)
    ensures
        r@ == member_text(key@, value@),
{
    let mut out = quote(key);
    out.append(":");
    proof {
        reveal_strlit(":");
    }
    out.append(value);
    out
}

/// An optional string as JSON.
fn opt_json(o: &Option<String>) -> (r: String)
    ensures
        r@ == opt_text(crate::model::opt_view(*o)),
{
    match o {
        Some(s) => quote(s.as_str()),
        None => {
            proof {
                reveal_strlit("null");
            }
            String::from_str("null")
        }
    }
}

/// A course as a JSON object.
fn course_json(m: &MergedCourse) -> (r: String)
    ensures
        r@ == course_text(m@),
{
    let ghost fs = m@.fields;
    let mut items: Vec<String> = Vec::new();
    let mut i: usize = 0;
    while i < m.fields.len()
        invariant
            i <= m.fields@.len(),
            fs == m@.fields,
            strs_view(items@) == field_texts(fs.take(i as int)),
        decreases m.fields@.len() - i,
    {
        let f = &m.fields[i];
        let ghost prev = strs_view(items@);
        let t = member(f.name.as_str(), f.text.as_str());
        items.push(t);
        assert(strs_view(items@) =~= prev.push(t@));
        assert(fs[i as int] == m.fields@[i as int]@);
        assert(field_texts(fs.take(i + 1)) =~= field_texts(fs.take(i as int)).push(field_text(fs[i as int])));
        assert(strs_view(items@) =~= field_texts(fs.take(i + 1)));
        i = i + 1;
    }
    assert(fs.take(i as int) =~= fs);
    let ghost head = strs_view(items@);
    items.push(member("estbDpmjNm", opt_json(&m.department).as_str()));
    items.push(member("estbMjorNm", opt_json(&m.major).as_str()));
    assert(strs_view(items@) =~= field_texts(fs) + seq![
        member_text("estbDpmjNm"@, opt_text(m@.department)),
        member_text("estbMjorNm"@, opt_text(m@.major)),
    ]);
    enclose(&items, true)
}

/// A contact as an object member.
fn contact_json(c: &Contact) -> (r: String)
    ensures
        r@ == contact_text(c@),
{
    let mut items: Vec<String> = Vec::new();
    items.push(member("email", opt_json(&c.email).as_str()));
    items.push(member("mpno", opt_json(&c.phone).as_str()));
    assert(strs_view(items@) =~= seq![
        member_text("email"@, opt_text(c@.email)),
        member_text("mpno"@, opt_text(c@.phone)),
    ]);
    let body = enclose(&items, true);
    member(c.name.as_str(), body.as_str())
}

/// A department's majors as an object member.
fn majors_json(d: &Department) -> (r: String)
    ensures
        r@ == majors_text(d@),
{
    let ghost ms = d@.majors;
    let mut items: Vec<String> = Vec::new();
    let mut i: usize = 0;
    while i < d.majors.len()
        invariant
            i <= d.majors@.len(),
            ms == d@.majors,
            strs_view(items@) == quoted_texts(ms.take(i as int)),
        decreases d.majors@.len() - i,
    {
        let ghost prev = strs_view(items@);
        let t = quote(d.majors[i].as_str());
        items.push(t);
        assert(strs_view(items@) =~= prev.push(t@));
        assert(ms[i as int] == d.majors@[i as int]@);
        assert(quoted_texts(ms.take(i + 1)) =~= quoted_texts(ms.take(i as int)).push(json_quoted(ms[i as int])));
        assert(strs_view(items@) =~= quoted_texts(ms.take(i + 1)));
        i = i + 1;
    }
    assert(ms.take(i as int) =~= ms);
    let body = enclose(&items, false);
    member(d.name.as_str(), body.as_str())
}

/// A department's courses as an object member.
fn subjects_json(d: &Department) -> (r: String)
    ensures
        r@ == subjects_text(d@),
{
    let ghost ms = d@.subjects;
    let mut items: Vec<String> = Vec::new();
    let mut i: usize = 0;
    while i < d.subjects.len()
        invariant
            i <= d.subjects@.len(),
            ms == d@.subjects,
            strs_view(items@) == course_texts(ms.take(i as int)),
        decreases d.subjects@.len() - i,
    {
        let ghost prev = strs_view(items@);
        let t = course_json(&d.subjects[i]);
        items.push(t);
        assert(strs_view(items@) =~= prev.push(t@));
        assert(ms[i as int] == d.subjects@[i as int]@);
        assert(course_texts(ms.take(i + 1)) =~= course_texts(ms.take(i as int)).push(course_text(ms[i as int])));
        assert(strs_view(items@) =~= course_texts(ms.take(i + 1)));
        i = i + 1;
    }
    assert(ms.take(i as int) =~= ms);
    let body = enclose(&items, false);
    member(d.name.as_str(), body.as_str())
}

/// A department's contacts as an object member.
fn contacts_json(d: &Department) -> (r: String)
    ensures
        r@ == contacts_text(d@),
{
    let ghost cs = d@.contacts;
    let mut items: Vec<String> = Vec::new();
    let mut i: usize = 0;
    while i < d.contacts.len()
        invariant
            i <= d.contacts@.len(),
            cs == d@.contacts,
            strs_view(items@) == contact_texts(cs.take(i as int)),
        decreases d.contacts@.len() - i,
    {
        let ghost prev = strs_view(items@);
        let t = contact_json(&d.contacts[i]);
        items.push(t);
        assert(strs_view(items@) =~= prev.push(t@));
        assert(cs[i as int] == d.contacts@[i as int]@);
        assert(contact_texts(cs.take(i + 1)) =~= contact_texts(cs.take(i as int)).push(contact_text(cs[i as int])));
        assert(strs_view(items@) =~= contact_texts(cs.take(i + 1)));
        i = i + 1;
    }
    assert(cs.take(i as int) =~= cs);
    let body = enclose(&items, true);
    member(d.name.as_str(), body.as_str())
}

/// The version object.
fn version_json(app_version: &str, db_version: &str) -> (r: String)
    ensures
        r@ == version_text(app_version@, db_version@),
{
    let mut items: Vec<String> = Vec::new();
    items.push(member("app_ver", quote(app_version).as_str()));
    items.push(member("db_ver", quote(db_version).as_str()));
    items.push(member("legacy_app_ver", quote("0.0").as_str()));
    assert(strs_view(items@) =~= seq![
        member_text("app_ver"@, json_quoted(app_version@)),
        member_text("db_ver"@, json_quoted(db_version@)),
        member_text("legacy_app_ver"@, json_quoted("0.0"@)),
    ]);
    enclose(&items, true)
}

/// The department taxonomy as a JSON object.
fn taxonomy_json(ds: &Vec<Department>) -> (r: String)
    ensures
        r@ == object_text(taxonomy_members(departments_view(ds@))),
{
    let ghost dv = departments_view(ds@);
    let mut items: Vec<String> = Vec::new();
    let mut i: usize = 0;
    while i < ds.len()
        invariant
            i <= ds@.len(),
            dv == departments_view(ds@),
            strs_view(items@) == taxonomy_members(dv.take(i as int)),
        decreases ds@.len() - i,
    {
        assert(dv.take(i + 1).drop_last() =~= dv.take(i as int));
        assert(dv[i as int] == ds@[i as int]@);
        if ds[i].majors.len() > 0 {
            let ghost prev = strs_view(items@);
            let t = majors_json(&ds[i]);
            items.push(t);
            assert(strs_view(items@) =~= prev.push(t@));
        }
        i = i + 1;
    }
    assert(dv.take(i as int) =~= dv);
    enclose(&items, true)
}

/// The course lists as a JSON object.
fn subjects_map_json(ds: &Vec<Department>) -> (r: String)
    ensures
        r@ == object_text(subjects_members(departments_view(ds@))),
{
    let ghost dv = departments_view(ds@);
    let mut items: Vec<String> = Vec::new();
    let mut i: usize = 0;
    while i < ds.len()
        invariant
            i <= ds@.len(),
            dv == departments_view(ds@),
            strs_view(items@) == subjects_members(dv.take(i as int)),
        decreases ds@.len() - i,
    {
        let ghost prev = strs_view(items@);
        let t = subjects_json(&ds[i]);
        items.push(t);
        assert(strs_view(items@) =~= prev.push(t@));
        assert(dv[i as int] == ds@[i as int]@);
        assert(subjects_members(dv.take(i + 1)) =~= subjects_members(dv.take(i as int)).push(subjects_text(dv[i as int])));
        i = i + 1;
    }
    assert(dv.take(i as int) =~= dv);
    enclose(&items, true)
}

/// The contact lists as a JSON object.
fn contacts_map_json(ds: &Vec<Department>) -> (r: String)
    ensures
        r@ == object_text(contacts_members(departments_view(ds@))),
{
    let ghost dv = departments_view(ds@);
    let mut items: Vec<String> = Vec::new();
    let mut i: usize = 0;
    while i < ds.len()
        invariant
            i <= ds@.len(),
            dv == departments_view(ds@),
            strs_view(items@) == contacts_members(dv.take(i as int)),
        decreases ds@.len() - i,
    {
        let ghost prev = strs_view(items@);
        let t = contacts_json(&ds[i]);
        items.push(t);
        assert(strs_view(items@) =~= prev.push(t@));
        assert(dv[i as int] == ds@[i as int]@);
        assert(contacts_members(dv.take(i + 1)) =~= contacts_members(dv.take(i as int)).push(contacts_text(dv[i as int])));
        i = i + 1;
    }
    assert(dv.take(i as int) =~= dv);
    enclose(&items, true)
}

/// Writes the merged database as JSON text, under the quick-mode keys where
/// `quick_mode` holds.
pub fn render_db(db: &MergedDb, latest_app_version: &str, db_version: &str, quick_mode: bool) -> (r: String)
    ensures
        r@ == db_text(db@.departments, latest_app_version@, db_version@, quick_mode),
{
    let ds = &db.departments;
    let taxonomy_key = if quick_mode {
        "departments_quick"
    } else {
        "departments"
    };
    let list_key = if quick_mode {
        "estbLectDtaiList_quick"
    } else {
        "estbLectDtaiList"
    };
    let mut items: Vec<String> = Vec::new();
    items.push(member("contacts", contacts_map_json(ds).as_str()));
    items.push(member(taxonomy_key, taxonomy_json(ds).as_str()));
    items.push(member(list_key, subjects_map_json(ds).as_str()));
    items.push(member("version", version_json(latest_app_version, db_version).as_str()));
    let ghost dv = db@.departments;
    assert(strs_view(items@) =~= seq![
        member_text("contacts"@, object_text(contacts_members(dv))),
        member_text(departments_key(quick_mode), object_text(taxonomy_members(dv))),
        member_text(subjects_key(quick_mode), object_text(subjects_members(dv))),
        member_text("version"@, version_text(latest_app_version@, db_version@)),
    ]);
    enclose(&items, true)
}

} // verus!
