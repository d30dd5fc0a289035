use vstd::prelude::*;

use crate::model::{
    absent_info, clone_opt, departments_view, fields_view, opens_view, opt_view, strs_view,
    todos_view, ClassTodo, Contact, ContactView, Department, DepartmentView, Field, MergedCourse,
    MergedDb, MergedView, OpenEntry, OpenSubject, TodoEntry, TodoInfo, TodoSubject,
};

verus! {

/// Whether a syllabus entry carries the composite key (code, section).
pub open spec fn key_matches(t: TodoEntry, code: Seq<char>, dicl: Seq<char>) -> bool {
    t.subject_code == code && t.dicl_number == dicl
}

/// What the syllabus says of the course with the composite key: the
/// information of the last entry that carries the key, or all absent where
/// none does.
pub open spec fn todo_info_of(todos: Seq<TodoEntry>, code: Seq<char>, dicl: Seq<char>) -> TodoInfo
    decreases todos.len(),
{
    if todos.len() == 0 {
        absent_info()
    } else if key_matches(todos.last(), code, dicl) {
        todos.last().info
    } else {
        todo_info_of(todos.drop_last(), code, dicl)
    }
}

impl ClassTodo {
    /// The information of one course.
    pub fn new(
        department: Option<String>,
        major: Option<String>,
        email: Option<String>,
        phone: Option<String>,
    ) -> (r: Self)
        ensures
            r@ == (TodoInfo {
                department: opt_view(department),
                major: opt_view(major),
                email: opt_view(email),
                phone: opt_view(phone),
            }),
    {
        ClassTodo { department, major, email, phone }
    }

    /// Copies the information.
    pub fn copy(&self) -> (r: Self)
        ensures
            r@ == self@,
    {
        ClassTodo::new(
            clone_opt(&self.department),
            clone_opt(&self.major),
            clone_opt(&self.email),
            clone_opt(&self.phone),
        )
    }

    /// Looks the course with the composite key (subject code, section number)
    /// up in the syllabus entries `subjects`. Where several entries carry the
    /// key the last one is taken; where none does, every value is absent.
    pub fn get_department_info(subjects: &Vec<TodoSubject>, subject_code: &str, dicl_number: &str) -> (r: Self)
        ensures
            r@ == todo_info_of(todos_view(subjects@), subject_code@, dicl_number@),
    {
        let code = subject_code.to_owned();
        let dicl = dicl_number.to_owned();
        let ghost tv = todos_view(subjects@);
        let mut i: usize = subjects.len();
        assert(tv.take(i as int) =~= tv);
        while i > 0
            invariant
                i <= subjects@.len(),
                tv == todos_view(subjects@),
                code@ == subject_code@,
                dicl@ == dicl_number@,
                todo_info_of(tv.take(i as int), code@, dicl@) == todo_info_of(tv, code@, dicl@),
            decreases i,
        {
            let s = &subjects[i - 1];
            assert(tv.take(i as int).drop_last() =~= tv.take(i - 1));
            assert(tv.take(i as int).last() == s@);
            if s.subject_code == code && s.dicl_number == dicl {
                return s.info.copy();
            }
            i = i - 1;
        }
        ClassTodo::new(None, None, None, None)
    }
}


/// The position of the last occurrence of `x` in `s`, or -1 where there is none.
pub open spec fn last_index_of(s: Seq<Seq<char>>, x: Seq<char>) -> int
    decreases s.len(),
{
    if s.len() == 0 {
        -1
    } else if s.last() == x {
        s.len() - 1
    } else {
        last_index_of(s.drop_last(), x)
    }
}

/// Where the last occurrence stands, and that none comes after it.
pub proof fn lemma_last_index_of(s: Seq<Seq<char>>, x: Seq<char>)
    ensures
        -1 <= last_index_of(s, x) < s.len(),
        last_index_of(s, x) >= 0 ==> s[last_index_of(s, x)] == x,
        last_index_of(s, x) == -1 <==> !s.contains(x),
        forall|j: int| last_index_of(s, x) < j < s.len() ==> s[j] != x,
    decreases s.len(),
{
    if s.len() > 0 {
        lemma_last_index_of(s.drop_last(), x);
        if s.last() != x {
            if s.contains(x) {
                let j = choose|j: int| 0 <= j < s.len() && s[j] == x;
                assert(s.drop_last()[j] == x);
            }
            assert forall|j: int| last_index_of(s, x) < j < s.len() implies s[j] != x by {
                if j < s.len() - 1 {
                    assert(s.drop_last()[j] == s[j]);
                }
            }
        }
    }
}

/// The names of the departments, in order.
pub open spec fn department_names(ds: Seq<DepartmentView>) -> Seq<Seq<char>> {
    ds.map_values(|d: DepartmentView| d.name)
}

/// The names of the contacts, in order.
pub open spec fn contact_names(cs: Seq<ContactView>) -> Seq<Seq<char>> {
    cs.map_values(|c: ContactView| c.name)
}

/// The department name that a syllabus entry contributes: its department, or
/// the empty name where it has none.
pub open spec fn seed_name(t: TodoEntry) -> Seq<char> {
    match t.info.department {
        Some(d) => d,
        None => Seq::empty(),
    }
}

/// The distinct department names of the syllabus, in order of first appearance.
pub open spec fn seed_names(todos: Seq<TodoEntry>) -> Seq<Seq<char>>
    decreases todos.len(),
{
    if todos.len() == 0 {
        Seq::empty()
    } else {
        let prev = seed_names(todos.drop_last());
        let name = seed_name(todos.last());
        if prev.contains(name) {
            prev
        } else {
            prev.push(name)
        }
    }
}

/// A department with nothing filed under it yet.
pub open spec fn empty_department(name: Seq<char>) -> DepartmentView {
    DepartmentView { name, majors: Seq::empty(), subjects: Seq::empty(), contacts: Seq::empty() }
}

/// The departments before any course is filed: one empty department for each
/// department name of the syllabus.
pub open spec fn seeded(todos: Seq<TodoEntry>) -> Seq<DepartmentView> {
    seed_names(todos).map_values(|n: Seq<char>| empty_department(n))
}

/// The majors with `major` added where it is present and new.
pub open spec fn add_major(majors: Seq<Seq<char>>, major: Option<Seq<char>>) -> Seq<Seq<char>> {
    match major {
        Some(m) => if majors.contains(m) {
            majors
        } else {
            majors.push(m)
        },
        None => majors,
    }
}

/// The contacts with the contact of `name` set to (email, phone): an entry of
/// that name is overwritten in place, else the contact is appended.
pub open spec fn upsert_contact(
    cs: Seq<ContactView>,
    name: Seq<char>,
    email: Option<Seq<char>>,
    phone: Option<Seq<char>>,
) -> Seq<ContactView> {
    let k = last_index_of(contact_names(cs), name);
    let c = ContactView { name, email, phone };
    if k >= 0 {
        cs.update(k, c)
    } else {
        cs.push(c)
    }
}

/// The course that an open-class entry becomes, given what the syllabus says of it.
pub open spec fn merged_view(r: OpenEntry, info: TodoInfo) -> MergedView {
    MergedView { fields: r.fields, department: info.department, major: info.major }
}

/// The department after filing the open-class entry `r` with the syllabus
/// information `info` under it.
pub open spec fn file_under(d: DepartmentView, r: OpenEntry, info: TodoInfo) -> DepartmentView {
    DepartmentView {
        name: d.name,
        majors: add_major(d.majors, info.major),
        subjects: d.subjects.push(merged_view(r, info)),
        contacts: match r.professor {
            Some(p) => upsert_contact(d.contacts, p, info.email, info.phone),
            None => d.contacts,
        },
    }
}

/// The position among `ds` of the department that `info` names, or -1 where
/// it names none of them.
pub open spec fn department_of(ds: Seq<DepartmentView>, info: TodoInfo) -> int {
    match info.department {
        Some(d) => last_index_of(department_names(ds), d),
        None => -1,
    }
}

/// What the syllabus says of the open-class entry `r`.
pub open spec fn info_of(todos: Seq<TodoEntry>, r: OpenEntry) -> TodoInfo {
    todo_info_of(todos, r.subject_code, r.dicl_number)
}

/// The departments after handling the open-class entry `r`: filed under its
/// department, or left out where that department is absent or unknown.
pub open spec fn merge_step(ds: Seq<DepartmentView>, todos: Seq<TodoEntry>, r: OpenEntry) -> Seq<DepartmentView> {
    let info = info_of(todos, r);
    let k = department_of(ds, info);
    if k >= 0 {
        ds.update(k, file_under(ds[k], r, info))
    } else {
        ds
    }
}

/// The departments after handling every open-class entry in order.
pub open spec fn merged_departments(todos: Seq<TodoEntry>, opens: Seq<OpenEntry>) -> Seq<DepartmentView>
    decreases opens.len(),
{
    if opens.len() == 0 {
        seeded(todos)
    } else {
        merge_step(merged_departments(todos, opens.drop_last()), todos, opens.last())
    }
}

/// The positions of the open-class entries that were left out, in order.
pub open spec fn unclassified(todos: Seq<TodoEntry>, opens: Seq<OpenEntry>) -> Seq<int>
    decreases opens.len(),
{
    if opens.len() == 0 {
        Seq::empty()
    } else {
        let prev = unclassified(todos, opens.drop_last());
        let ds = merged_departments(todos, opens.drop_last());
        if department_of(ds, info_of(todos, opens.last())) < 0 {
            prev.push(opens.len() - 1)
        } else {
            prev
        }
    }
}

/// The position of the last department named `name`.
fn find_department(ds: &Vec<Department>, name: &String) -> (r: Option<usize>)
    ensures
        match r {
            Some(k) => k == last_index_of(department_names(departments_view(ds@)), name@),
            None => last_index_of(department_names(departments_view(ds@)), name@) == -1,
        },
{
    let ghost names = department_names(departments_view(ds@));
    let mut i: usize = ds.len();
    assert(names.take(i as int) =~= names);
    while i > 0
        invariant
            i <= ds@.len(),
            names == department_names(departments_view(ds@)),
            last_index_of(names.take(i as int), name@) == last_index_of(names, name@),
        decreases i,
    {
        assert(names.take(i as int).drop_last() =~= names.take(i - 1));
        if ds[i - 1].name == *name {
            return Some(i - 1);
        }
        i = i - 1;
    }
    None
}

/// The position of the last contact named `name`.
fn find_contact(cs: &Vec<Contact>, name: &String) -> (r: Option<usize>)
    ensures
        match r {
            Some(k) => k == last_index_of(contact_names(cs@.map_values(|c: Contact| c@)), name@),
            None => last_index_of(contact_names(cs@.map_values(|c: Contact| c@)), name@) == -1,
        },
{
    let ghost names = contact_names(cs@.map_values(|c: Contact| c@));
    let mut i: usize = cs.len();
    assert(names.take(i as int) =~= names);
    while i > 0
        invariant
            i <= cs@.len(),
            names == contact_names(cs@.map_values(|c: Contact| c@)),
            last_index_of(names.take(i as int), name@) == last_index_of(names, name@),
        decreases i,
    {
        assert(names.take(i as int).drop_last() =~= names.take(i - 1));
        if cs[i - 1].name == *name {
            return Some(i - 1);
        }
        i = i - 1;
    }
    None
}

/// Copies fields.
fn copy_fields(v: &Vec<Field>) -> (r: Vec<Field>)
    ensures
        fields_view(r@) == fields_view(v@),
{
    let mut r: Vec<Field> = Vec::new();
    let mut i: usize = 0;
    while i < v.len()
        invariant
            i <= v@.len(),
            fields_view(r@) == fields_view(v@.take(i as int)),
        decreases v@.len() - i,
    {
        r.push(Field { name: v[i].name.clone(), text: v[i].text.clone() });
        assert(fields_view(v@.take(i + 1)) =~= fields_view(v@.take(i as int)).push(v@[i as int]@));
        assert(fields_view(r@) =~= fields_view(v@.take(i + 1)));
        i = i + 1;
    }
    assert(v@.take(v@.len() as int) =~= v@);
    r
}

impl Department {
    /// Adds `major` to the department's majors where it is not among them yet.
    fn add_major(&mut self, major: &String)
        ensures
            final(self)@ == (DepartmentView { majors: add_major(old(self)@.majors, Some(major@)), ..old(self)@ }),
    {
        let ghost majors = old(self)@.majors;
        let mut i: usize = 0;
        while i < self.majors.len()
            invariant
                i <= self.majors@.len(),
                *self == *old(self),
                majors == strs_view(self.majors@),
                forall|j: int| 0 <= j < i ==> majors[j] != major@,
            decreases self.majors@.len() - i,
        {
            if self.majors[i] == *major {
                assert(majors[i as int] == major@);
                return;
            }
            i = i + 1;
        }
        self.majors.push(major.clone());
        assert(strs_view(self.majors@) =~= majors.push(major@));
    }

    /// Sets the contact of `name` to (email, phone), overwriting an earlier one
    /// of that name.
    fn upsert_contact(&mut self, name: &String, email: Option<String>, phone: Option<String>)
        ensures
            final(self)@ == (DepartmentView {
                contacts: upsert_contact(old(self)@.contacts, name@, opt_view(email), opt_view(phone)),
                ..old(self)@
            }),
    {
        let c = Contact { name: name.clone(), email, phone };
        match find_contact(&self.contacts, name) {
            Some(k) => {
                proof {
                    lemma_last_index_of(contact_names(self@.contacts), name@);
                }
                self.contacts.set(k, c);
                assert(self@.contacts =~= old(self)@.contacts.update(k as int, c@));
            }
            None => {
                self.contacts.push(c);
                assert(self@.contacts =~= old(self)@.contacts.push(c@));
            }
        }
    }

    /// Files the open-class entry `r`, with the syllabus information `info`,
    /// under the department.
    fn file(&mut self, r: &OpenSubject, info: &ClassTodo)
        ensures
            final(self)@ == file_under(old(self)@, r@, info@),
    {
        if let Some(m) = &info.major {
            self.add_major(m);
        }
        let course = MergedCourse {
            fields: copy_fields(&r.fields),
            department: clone_opt(&info.department),
            major: clone_opt(&info.major),
        };
        self.subjects.push(course);
        assert(self@.subjects =~= old(self)@.subjects.push(merged_view(r@, info@)));
        if let Some(p) = &r.professor {
            self.upsert_contact(p, clone_opt(&info.email), clone_opt(&info.phone));
        }
    }
}

/// One empty department for each department name of the syllabus, in order
/// of first appearance; an entry without a department contributes the empty
/// name.
pub fn seed_departments(todos: &Vec<TodoSubject>) -> (r: Vec<Department>)
    ensures
        departments_view(r@) == seeded(todos_view(todos@)),
{
    let ghost tv = todos_view(todos@);
    let mut ds: Vec<Department> = Vec::new();
    let mut i: usize = 0;
    while i < todos.len()
        invariant
            i <= todos@.len(),
            tv == todos_view(todos@),
            departments_view(ds@) == seeded(tv.take(i as int)),
        decreases todos@.len() - i,
    {
        let t = &todos[i];
        let name = match &t.info.department {
            Some(d) => d.clone(),
            None => String::new(),
        };
        let ghost prev = seed_names(tv.take(i as int));
        assert(tv.take(i + 1).drop_last() =~= tv.take(i as int));
        assert(tv.take(i + 1).last() == t@);
        assert(department_names(departments_view(ds@)) =~= prev);
        proof {
            lemma_last_index_of(prev, name@);
        }
        match find_department(&ds, &name) {
            Some(_) => {}
            None => {
                let d = Department { name, majors: Vec::new(), subjects: Vec::new(), contacts: Vec::new() };
                ds.push(d);
                assert(strs_view(d.majors@) =~= Seq::empty());
                assert(d.subjects@.map_values(|m: MergedCourse| m@) =~= Seq::empty());
                assert(d.contacts@.map_values(|c: Contact| c@) =~= Seq::empty());
                assert(departments_view(ds@) =~= seeded(tv.take(i + 1)));
            }
        }
        i = i + 1;
    }
    assert(tv.take(todos@.len() as int) =~= tv);
    ds
}

/// Merges the open-class entries `opens` with the syllabus entries `todos`.
/// Each open-class entry, in order, is looked up in the syllabus by its
/// composite key; it is filed under the department that the syllabus gives
/// it where that is one of the syllabus's departments, and otherwise left
/// out and its position recorded.
pub fn merge_subjects(todos: &Vec<TodoSubject>, opens: &Vec<OpenSubject>) -> (r: MergedDb)
    ensures
        r@.departments == merged_departments(todos_view(todos@), opens_view(opens@)),
        r@.unclassified == unclassified(todos_view(todos@), opens_view(opens@)),
{
    let ghost tv = todos_view(todos@);
    let ghost ov = opens_view(opens@);
    let mut ds = seed_departments(todos);
    let mut dropped: Vec<usize> = Vec::new();
    let mut i: usize = 0;
    while i < opens.len()
        invariant
            i <= opens@.len(),
            tv == todos_view(todos@),
            ov == opens_view(opens@),
            departments_view(ds@) == merged_departments(tv, ov.take(i as int)),
            dropped@.map_values(|j: usize| j as int) == unclassified(tv, ov.take(i as int)),
        decreases opens@.len() - i,
    {
        let r = &opens[i];
        let info = ClassTodo::get_department_info(todos, r.subject_code.as_str(), r.dicl_number.as_str());
        let ghost before = departments_view(ds@);
        assert(ov.take(i + 1).drop_last() =~= ov.take(i as int));
        assert(ov.take(i + 1).last() == r@);
        assert(department_names(before) =~= department_names(departments_view(ds@)));
        let k = match &info.department {
            Some(d) => find_department(&ds, d),
            None => None,
        };
        match k {
            Some(k) => {
                proof {
                    lemma_last_index_of(department_names(before), info@.department->Some_0);
                }
                ds[k].file(r, &info);
                assert(departments_view(ds@) =~= before.update(k as int, file_under(before[k as int], r@, info@)));
            }
            None => {
                dropped.push(i);
                assert(dropped@.map_values(|j: usize| j as int) =~= unclassified(tv, ov.take(i + 1)));
            }
        }
        i = i + 1;
    }
    assert(ov.take(opens@.len() as int) =~= ov);
    MergedDb { departments: ds, unclassified: dropped }
}

} // verus!
