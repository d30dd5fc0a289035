use vstd::prelude::*;

verus! {

/// The arguments of the database builder: the two exports to read and the
/// versions to write into the database.
pub struct ProgramArgument {
    /// Path of the open-class export.
    pub open_class_file: String,
    /// Path of the syllabus export.
    pub class_todo_file: String,
    /// Latest app version written into the database.
    pub app_version: String,
    /// Version of the database itself.
    pub db_version: String,
    /// Legacy app version; the database writes a fixed value in its place.
    pub legacy_app_version: String,
}

/// The view of an optional string.
pub open spec fn opt_view(o: Option<String>) -> Option<Seq<char>> {
    match o {
        Some(s) => Some(s@),
        None => None,
    }
}

/// The views of a sequence of strings.
pub open spec fn strs_view(v: Seq<String>) -> Seq<Seq<char>> {
    v.map_values(|s: String| s@)
}

/// Copies an optional string.
pub fn clone_opt(o: &Option<String>) -> (r: Option<String>)
    ensures
        opt_view(r) == opt_view(*o),
{
    match o {
        Some(s) => Some(s.clone()),
        None => None,
    }
}

/// What the syllabus says of one course: the department and major it is
/// offered to and the instructor's email and phone. `None` is an absent value.
pub struct TodoInfo {
    pub department: Option<Seq<char>>,
    pub major: Option<Seq<char>>,
    pub email: Option<Seq<char>>,
    pub phone: Option<Seq<char>>,
}

/// The syllabus information of one course, as the merge resolves it.
pub struct ClassTodo {
    /// Department the course is offered to.
    pub department: Option<String>,
    /// Major the course is offered to.
    pub major: Option<String>,
    /// Instructor's email address.
    pub email: Option<String>,
    /// Instructor's mobile phone number.
    pub phone: Option<String>,
}

impl View for ClassTodo {
    type V = TodoInfo;

    open spec fn view(&self) -> TodoInfo {
        TodoInfo {
            department: opt_view(self.department),
            major: opt_view(self.major),
            email: opt_view(self.email),
            phone: opt_view(self.phone),
        }
    }
}

/// Information with every value absent: what a course without a syllabus
/// entry resolves to.
pub open spec fn absent_info() -> TodoInfo {
    TodoInfo { department: None, major: None, email: None, phone: None }
}

/// One entry of the syllabus export: the course's composite key (subject
/// code and section number, empty where the export has none) and what the
/// syllabus says of it.
pub struct TodoSubject {
    pub subject_code: String,
    pub dicl_number: String,
    pub info: ClassTodo,
}

/// The view of a syllabus entry.
pub struct TodoEntry {
    pub subject_code: Seq<char>,
    pub dicl_number: Seq<char>,
    pub info: TodoInfo,
}

impl View for TodoSubject {
    type V = TodoEntry;

    open spec fn view(&self) -> TodoEntry {
        TodoEntry { subject_code: self.subject_code@, dicl_number: self.dicl_number@, info: self.info@ }
    }
}

/// The views of syllabus entries.
pub open spec fn todos_view(v: Seq<TodoSubject>) -> Seq<TodoEntry> {
    v.map_values(|t: TodoSubject| t@)
}

/// A field copied verbatim from the open-class export: its name and the JSON
/// text of its value.
pub struct Field {
    pub name: String,
    pub text: String,
}

/// The view of a field: its name and its JSON text.
pub struct FieldView {
    pub name: Seq<char>,
    pub text: Seq<char>,
}

impl View for Field {
    type V = FieldView;

    open spec fn view(&self) -> FieldView {
        FieldView { name: self.name@, text: self.text@ }
    }
}

/// The views of a sequence of fields.
pub open spec fn fields_view(v: Seq<Field>) -> Seq<FieldView> {
    v.map_values(|f: Field| f@)
}

/// One entry of the open-class export: its composite key (empty where the
/// export has none), the instructor's name where it is a string, and the
/// fields that the database keeps of it.
pub struct OpenSubject {
    pub subject_code: String,
    pub dicl_number: String,
    pub professor: Option<String>,
    pub fields: Vec<Field>,
}

/// The view of an open-class entry.
pub struct OpenEntry {
    pub subject_code: Seq<char>,
    pub dicl_number: Seq<char>,
    pub professor: Option<Seq<char>>,
    pub fields: Seq<FieldView>,
}

impl View for OpenSubject {
    type V = OpenEntry;

    open spec fn view(&self) -> OpenEntry {
        OpenEntry {
            subject_code: self.subject_code@,
            dicl_number: self.dicl_number@,
            professor: opt_view(self.professor),
            fields: fields_view(self.fields@),
        }
    }
}

/// The views of open-class entries.
pub open spec fn opens_view(v: Seq<OpenSubject>) -> Seq<OpenEntry> {
    v.map_values(|r: OpenSubject| r@)
}

/// A course of the database: the fields kept from the open-class export, and
/// the department and major resolved from the syllabus.
pub struct MergedCourse {
    pub fields: Vec<Field>,
    pub department: Option<String>,
    pub major: Option<String>,
}

/// The view of a course of the database.
pub struct MergedView {
    pub fields: Seq<FieldView>,
    pub department: Option<Seq<char>>,
    pub major: Option<Seq<char>>,
}

impl View for MergedCourse {
    type V = MergedView;

    open spec fn view(&self) -> MergedView {
        MergedView {
            fields: fields_view(self.fields@),
            department: opt_view(self.department),
            major: opt_view(self.major),
        }
    }
}

/// An instructor's contact within a department.
pub struct Contact {
    pub name: String,
    pub email: Option<String>,
    pub phone: Option<String>,
}

/// The view of a contact.
pub struct ContactView {
    pub name: Seq<char>,
    pub email: Option<Seq<char>>,
    pub phone: Option<Seq<char>>,
}

impl View for Contact {
    type V = ContactView;

    open spec fn view(&self) -> ContactView {
        ContactView { name: self.name@, email: opt_view(self.email), phone: opt_view(self.phone) }
    }
}

/// One department of the database: the distinct majors seen under it, its
/// courses in the order of the open-class export, and its instructors'
/// contacts, one per name.
pub struct Department {
    pub name: String,
    pub majors: Vec<String>,
    pub subjects: Vec<MergedCourse>,
    pub contacts: Vec<Contact>,
}

/// The view of a department: its name, majors, courses and contacts.
pub struct DepartmentView {
    pub name: Seq<char>,
    pub majors: Seq<Seq<char>>,
    pub subjects: Seq<MergedView>,
    pub contacts: Seq<ContactView>,
}

impl View for Department {
    type V = DepartmentView;

    open spec fn view(&self) -> DepartmentView {
        DepartmentView {
            name: self.name@,
            majors: strs_view(self.majors@),
            subjects: self.subjects@.map_values(|m: MergedCourse| m@),
            contacts: self.contacts@.map_values(|c: Contact| c@),
        }
    }
}

/// The views of a sequence of departments.
pub open spec fn departments_view(v: Seq<Department>) -> Seq<DepartmentView> {
    v.map_values(|d: Department| d@)
}

/// The merged database: its departments, in the order in which the syllabus
/// names them, and the positions of the open-class entries that could not be
/// filed under any department.
pub struct MergedDb {
    pub departments: Vec<Department>,
    pub unclassified: Vec<usize>,
}

/// The view of the merged database.
pub struct MergedDbView {
    pub departments: Seq<DepartmentView>,
    pub unclassified: Seq<int>,
}

impl View for MergedDb {
    type V = MergedDbView;

    open spec fn view(&self) -> MergedDbView {
        MergedDbView {
            departments: departments_view(self.departments@),
            unclassified: self.unclassified@.map_values(|i: usize| i as int),
        }
    }
}

} // verus!
