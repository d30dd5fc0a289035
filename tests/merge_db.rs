use suwon_mate_admin_tool::database::{
    build_db, is_quick_mode, make_db_content, output_file_name, DbError, SourceKind,
};
use suwon_mate_admin_tool::json::{get_member, write_json, Json};
use suwon_mate_admin_tool::merge::merge_subjects;
use suwon_mate_admin_tool::model::{ClassTodo, OpenSubject, TodoSubject};
use suwon_mate_admin_tool::source::{read_open_subjects, read_todo_subjects};

fn s(x: &str) -> Option<String> {
    Some(x.to_string())
}

fn todo(code: &str, dicl: &str, dept: Option<&str>, major: Option<&str>, email: Option<&str>, phone: Option<&str>) -> TodoSubject {
    TodoSubject {
        subject_code: code.to_string(),
        dicl_number: dicl.to_string(),
        info: ClassTodo::new(
            dept.map(|x| x.to_string()),
            major.map(|x| x.to_string()),
            email.map(|x| x.to_string()),
            phone.map(|x| x.to_string()),
        ),
    }
}

const SYLLABUS: &str = r#"{"estbLectDtaiList":[{"subjtCd":"11416","diclNo":"038","estbDpmjNm":"Business","estbMjorNm":null,"email":"test@school.edu","mpno":"010-0000-0000"}]}"#;
const OPEN: &str = r#"{"estbLectDtaiList":[{"subjtCd":"11416","diclNo":"038","subjtNm":"Accounting","ltrPrfsNm":"Kim","point":3}]}"#;

fn parse(text: &str) -> serde_json::Value {
    serde_json::from_str(text).unwrap()
}

fn st(x: &str) -> Json {
    Json::Str(x.to_string())
}

fn obj(members: Vec<(&str, Json)>) -> Json {
    let keys = members.iter().map(|(k, _)| k.to_string()).collect();
    let values = members.into_iter().map(|(_, v)| v).collect();
    Json::Object(keys, values)
}

fn export(entries: Vec<Json>) -> Json {
    obj(vec![("estbLectDtaiList", Json::Array(entries))])
}

fn entry(code: &str, dicl: &str, prof: Option<&str>) -> Json {
    let mut members = vec![("subjtCd", st(code)), ("diclNo", st(dicl))];
    if let Some(p) = prof {
        members.push(("ltrPrfsNm", st(p)));
    }
    obj(members)
}

#[test]
fn get_department_info_finds_entry() {
    let subjects = vec![
        todo("10001", "001", Some("Law"), Some("Public Law"), None, None),
        todo("11416", "038", Some("Business"), None, Some("test@school.edu"), Some("010-0000-0000")),
    ];
    let info = ClassTodo::get_department_info(&subjects, "11416", "038");
    assert_eq!(info.department, s("Business"));
    assert_eq!(info.major, None);
    assert_eq!(info.email, s("test@school.edu"));
    assert_eq!(info.phone, s("010-0000-0000"));
}

#[test]
fn get_department_info_unknown_key_is_absent() {
    let subjects = vec![todo("11416", "038", Some("Business"), Some("Finance"), None, None)];
    let info = ClassTodo::get_department_info(&subjects, "11416", "039");
    assert_eq!(info.department, None);
    assert_eq!(info.major, None);
    assert_eq!(info.email, None);
    assert_eq!(info.phone, None);
}

#[test]
fn get_department_info_takes_last_of_equal_keys() {
    let subjects = vec![
        todo("", "", Some("First"), None, None, None),
        todo("", "", Some("Second"), None, None, None),
    ];
    let info = ClassTodo::get_department_info(&subjects, "", "");
    assert_eq!(info.department, s("Second"));
}

#[test]
fn business_scenario_exact_text() {
    let out = make_db_content(OPEN, SYLLABUS, "1.0", "7", false).unwrap();
    let expected = [
        r#"{"contacts":{"Business":{"Kim":{"email":"test@school.edu","mpno":"010-0000-0000"}}},"#,
        r#""departments":{},"#,
        r#""estbLectDtaiList":{"Business":[{"trgtGrdeCd":null,"subjtNm":"Accounting","ltrPrfsNm":"Kim","#,
        r#""deptNm":null,"facDvnm":null,"timtSmryCn":null,"lssnLangNm":null,"subjtCd":"11416","diclNo":"038","#,
        r#""subjtEstbYear":null,"point":3,"cltTerrNm":null,"sexCdNm":null,"hffcStatNm":null,"clsfNm":null,"#,
        r#""capprTypeNm":null,"estbDpmjNm":"Business","estbMjorNm":null}]},"#,
        r#""version":{"app_ver":"1.0","db_ver":"7","legacy_app_ver":"0.0"}}"#,
    ]
    .concat();
    assert_eq!(out, expected);
}

#[test]
fn business_scenario_resolution() {
    let todos = read_todo_subjects(&export(vec![obj(vec![
        ("subjtCd", st("11416")),
        ("diclNo", st("038")),
        ("estbDpmjNm", st("Business")),
        ("estbMjorNm", Json::Null),
        ("email", st("test@school.edu")),
        ("mpno", st("010-0000-0000")),
    ])]))
    .unwrap();
    let info = ClassTodo::get_department_info(&todos, "11416", "038");
    assert_eq!(info.department, s("Business"));
    assert_eq!(info.major, None);
    assert_eq!(info.email, s("test@school.edu"));
    assert_eq!(info.phone, s("010-0000-0000"));
    let opens = read_open_subjects(&export(vec![entry("11416", "038", Some("Kim"))])).unwrap();
    let db = merge_subjects(&todos, &opens);
    assert_eq!(db.departments.len(), 1);
    assert_eq!(db.departments[0].name, "Business");
    assert!(db.departments[0].majors.is_empty());
    assert_eq!(db.departments[0].subjects.len(), 1);
    assert_eq!(db.departments[0].subjects[0].department, s("Business"));
    assert_eq!(db.departments[0].subjects[0].major, None);
}

#[test]
fn output_parses_as_json_with_four_keys() {
    let out = make_db_content(OPEN, SYLLABUS, "2.1", "20", false).unwrap();
    let v = parse(&out);
    let obj = v.as_object().unwrap();
    assert_eq!(obj.len(), 4);
    assert!(obj.contains_key("departments"));
    assert!(obj.contains_key("estbLectDtaiList"));
    assert_eq!(v["version"]["app_ver"], "2.1");
    assert_eq!(v["version"]["db_ver"], "20");
    assert_eq!(v["version"]["legacy_app_ver"], "0.0");
}

#[test]
fn quick_mode_keys() {
    let out = make_db_content(SYLLABUS, SYLLABUS, "1.0", "1", true).unwrap();
    let v = parse(&out);
    let obj = v.as_object().unwrap();
    assert!(obj.contains_key("departments_quick"));
    assert!(obj.contains_key("estbLectDtaiList_quick"));
    assert!(!obj.contains_key("departments"));
    assert!(!obj.contains_key("estbLectDtaiList"));
    assert!(obj.contains_key("contacts"));
}

#[test]
fn quick_mode_iff_same_contents() {
    assert!(is_quick_mode(SYLLABUS, SYLLABUS));
    assert!(!is_quick_mode(OPEN, SYLLABUS));
    assert!(!is_quick_mode("{}", "{} "));
    assert!(is_quick_mode("", ""));
}

#[test]
fn rerun_gives_same_text() {
    let a = make_db_content(OPEN, SYLLABUS, "1.0", "3", false).unwrap();
    let b = make_db_content(OPEN, SYLLABUS, "1.0", "3", false).unwrap();
    assert_eq!(a, b);
}

#[test]
fn seeded_department_without_courses_is_listed() {
    let syllabus = r#"{"estbLectDtaiList":[{"subjtCd":"1","diclNo":"1","estbDpmjNm":"Art","estbMjorNm":"Painting"},{"subjtCd":"2","diclNo":"1","estbDpmjNm":"Music","estbMjorNm":"Piano"}]}"#;
    let open = r#"{"estbLectDtaiList":[{"subjtCd":"1","diclNo":"1","ltrPrfsNm":"Lee"}]}"#;
    let v = parse(&make_db_content(open, syllabus, "1.0", "1", false).unwrap());
    assert_eq!(v["estbLectDtaiList"]["Music"], serde_json::Value::Array(vec![]));
    assert_eq!(v["estbLectDtaiList"]["Art"].as_array().unwrap().len(), 1);
    assert_eq!(v["contacts"]["Music"], serde_json::Value::Object(serde_json::Map::new()));
    assert!(v["departments"].get("Music").is_none());
    assert_eq!(v["departments"]["Art"][0], "Painting");
}

#[test]
fn matched_course_takes_syllabus_department_and_major() {
    let syllabus = r#"{"estbLectDtaiList":[{"subjtCd":"5","diclNo":"2","estbDpmjNm":"Science","estbMjorNm":"Physics"}]}"#;
    let open = r#"{"estbLectDtaiList":[{"subjtCd":"5","diclNo":"2","estbDpmjNm":"Wrong","estbMjorNm":"Wrong","deptNm":"Own"}]}"#;
    let v = parse(&make_db_content(open, syllabus, "1.0", "1", false).unwrap());
    let course = &v["estbLectDtaiList"]["Science"][0];
    assert_eq!(course["estbDpmjNm"], "Science");
    assert_eq!(course["estbMjorNm"], "Physics");
    assert_eq!(course["deptNm"], "Own");
    assert!(v["estbLectDtaiList"].get("Wrong").is_none());
}

#[test]
fn unmatched_course_is_dropped_and_recorded() {
    let todos = vec![todo("1", "1", Some("Art"), Some("Painting"), None, None)];
    let opens = read_open_subjects(&export(vec![entry("9", "9", Some("Park")), entry("1", "1", Some("Lee"))])).unwrap();
    let db = merge_subjects(&todos, &opens);
    assert_eq!(db.unclassified, vec![0]);
    assert_eq!(db.departments.len(), 1);
    assert_eq!(db.departments[0].subjects.len(), 1);
    assert_eq!(db.departments[0].contacts.len(), 1);
    assert_eq!(db.departments[0].contacts[0].name, "Lee");
}

#[test]
fn contacts_keep_the_last_write() {
    let syllabus = r#"{"estbLectDtaiList":[{"subjtCd":"1","diclNo":"1","estbDpmjNm":"Art","email":"a@x","mpno":"111"},{"subjtCd":"2","diclNo":"1","estbDpmjNm":"Art","email":"b@x","mpno":"222"}]}"#;
    let open = r#"{"estbLectDtaiList":[{"subjtCd":"1","diclNo":"1","ltrPrfsNm":"Choi"},{"subjtCd":"2","diclNo":"1","ltrPrfsNm":"Choi"}]}"#;
    let v = parse(&make_db_content(open, syllabus, "1.0", "1", false).unwrap());
    assert_eq!(v["contacts"]["Art"]["Choi"]["mpno"], "222");
    assert_eq!(v["contacts"]["Art"]["Choi"]["email"], "b@x");
    assert_eq!(v["contacts"]["Art"].as_object().unwrap().len(), 1);
}

#[test]
fn majors_are_distinct() {
    let todos = vec![
        todo("1", "1", Some("Art"), Some("Painting"), None, None),
        todo("2", "1", Some("Art"), Some("Painting"), None, None),
        todo("3", "1", Some("Art"), Some("Sculpture"), None, None),
    ];
    let opens = read_open_subjects(&export(vec![entry("1", "1", None), entry("2", "1", None), entry("3", "1", None)])).unwrap();
    let db = merge_subjects(&todos, &opens);
    assert_eq!(db.departments[0].majors, vec!["Painting".to_string(), "Sculpture".to_string()]);
    assert_eq!(db.departments[0].subjects.len(), 3);
}

#[test]
fn missing_key_fields_degrade_to_empty() {
    let syllabus = r#"{"estbLectDtaiList":[{"estbDpmjNm":"Law","estbMjorNm":"Civil"}]}"#;
    let open = r#"{"estbLectDtaiList":[{"subjtNm":"Contracts","subjtCd":7}]}"#;
    let v = parse(&make_db_content(open, syllabus, "1.0", "1", false).unwrap());
    let course = &v["estbLectDtaiList"]["Law"][0];
    assert_eq!(course["subjtNm"], "Contracts");
    assert_eq!(course["subjtCd"], 7);
    assert_eq!(course["diclNo"], serde_json::Value::Null);
    assert_eq!(v["departments"]["Law"][0], "Civil");
}

#[test]
fn syllabus_entry_without_department_seeds_empty_name() {
    let todos = read_todo_subjects(&export(vec![entry("1", "1", None)])).unwrap();
    let opens = read_open_subjects(&export(vec![entry("1", "1", None)])).unwrap();
    let db = merge_subjects(&todos, &opens);
    assert_eq!(db.departments.len(), 1);
    assert_eq!(db.departments[0].name, "");
    assert!(db.departments[0].subjects.is_empty());
    assert_eq!(db.unclassified, vec![0]);
}

#[test]
fn names_are_escaped() {
    let syllabus = r#"{"estbLectDtaiList":[{"subjtCd":"1","diclNo":"1","estbDpmjNm":"Bus\"iness"}]}"#;
    let out = make_db_content(syllabus, syllabus, "1.0", "1", true).unwrap();
    assert!(out.contains(r#""Bus\"iness":["#));
    let v = parse(&out);
    assert_eq!(v["estbLectDtaiList_quick"]["Bus\"iness"].as_array().unwrap().len(), 1);
}

#[test]
fn invalid_open_class_json() {
    assert_eq!(
        make_db_content("{", SYLLABUS, "1.0", "1", false),
        Err(DbError::InvalidJson(SourceKind::OpenClass))
    );
    assert_eq!(make_db_content("{", "}", "1.0", "1", false), Err(DbError::InvalidJson(SourceKind::OpenClass)));
}

#[test]
fn invalid_syllabus_json() {
    assert_eq!(make_db_content(OPEN, "nope", "1.0", "1", false), Err(DbError::InvalidJson(SourceKind::ClassTodo)));
}

#[test]
fn missing_syllabus_subjects() {
    assert_eq!(make_db_content(OPEN, "{}", "1.0", "1", false), Err(DbError::MissingSubjects(SourceKind::ClassTodo)));
    assert_eq!(
        make_db_content("{}", r#"{"estbLectDtaiList":3}"#, "1.0", "1", false),
        Err(DbError::MissingSubjects(SourceKind::ClassTodo))
    );
}

#[test]
fn missing_open_class_subjects() {
    assert_eq!(make_db_content("[]", SYLLABUS, "1.0", "1", false), Err(DbError::MissingSubjects(SourceKind::OpenClass)));
}

#[test]
fn build_db_from_records() {
    let todos = vec![todo("1", "1", Some("Art"), Some("Painting"), Some("e"), None)];
    let opens: Vec<OpenSubject> = Vec::new();
    let out = build_db(&todos, &opens, "9", "8", false);
    assert_eq!(
        out,
        r#"{"contacts":{"Art":{}},"departments":{},"estbLectDtaiList":{"Art":[]},"version":{"app_ver":"9","db_ver":"8","legacy_app_ver":"0.0"}}"#
    );
}

#[test]
fn file_name_of_version() {
    assert_eq!(output_file_name("12"), "result_12.json");
    assert_eq!(output_file_name(""), "result_.json");
}

#[test]
fn readers_take_strings_only() {
    let doc = export(vec![obj(vec![
        ("subjtCd", Json::Number("7".to_string())),
        ("diclNo", st("02")),
        ("estbDpmjNm", st("Law")),
        ("estbMjorNm", Json::Bool(true)),
        ("ltrPrfsNm", Json::Null),
        ("point", Json::Number("3".to_string())),
    ])]);
    let todos = read_todo_subjects(&doc).unwrap();
    assert_eq!(todos[0].subject_code, "");
    assert_eq!(todos[0].dicl_number, "02");
    assert_eq!(todos[0].info.department, s("Law"));
    assert_eq!(todos[0].info.major, None);
    let opens = read_open_subjects(&doc).unwrap();
    assert_eq!(opens[0].subject_code, "");
    assert_eq!(opens[0].professor, None);
    assert_eq!(opens[0].fields.len(), 16);
    assert_eq!(opens[0].fields[0].name, "trgtGrdeCd");
    assert_eq!(opens[0].fields[0].text, "null");
    assert_eq!(opens[0].fields[7].name, "subjtCd");
    assert_eq!(opens[0].fields[7].text, "7");
    assert_eq!(opens[0].fields[10].name, "point");
    assert_eq!(opens[0].fields[10].text, "3");
    assert_eq!(opens[0].fields[2].text, "null");
}

#[test]
fn readers_need_a_subject_list() {
    assert!(read_todo_subjects(&obj(vec![("other", Json::Array(vec![]))])).is_none());
    assert!(read_open_subjects(&obj(vec![("estbLectDtaiList", st("x"))])).is_none());
    assert!(read_open_subjects(&Json::Array(vec![])).is_none());
    assert_eq!(read_todo_subjects(&export(vec![])).unwrap().len(), 0);
}

#[test]
fn json_text_is_compact() {
    let v = obj(vec![
        ("a", Json::Array(vec![Json::Null, Json::Bool(false), Json::Number("-1.5".to_string())])),
        ("b", obj(vec![("c", st("d"))])),
    ]);
    assert_eq!(write_json(&v), r#"{"a":[null,false,-1.5],"b":{"c":"d"}}"#);
    assert_eq!(write_json(&Json::Array(vec![])), "[]");
    assert_eq!(write_json(&obj(vec![])), "{}");
}

#[test]
fn strings_are_escaped() {
    let v = st("q\"b\\n\nt\tc\u{1}x\u{7f}é");
    assert_eq!(write_json(&v), "\"q\\\"b\\\\n\\nt\\tc\\u0001x\u{7f}é\"");
}

#[test]
fn member_lookup() {
    let v = obj(vec![("a", st("1")), ("b", st("2"))]);
    assert!(matches!(get_member(&v, "b"), Some(Json::Str(x)) if x == "2"));
    assert!(get_member(&v, "c").is_none());
    assert!(get_member(&st("a"), "a").is_none());
}

#[test]
fn nested_values_are_kept_verbatim() {
    let syllabus = r#"{"estbLectDtaiList":[{"subjtCd":"1","diclNo":"1","estbDpmjNm":"Art"}]}"#;
    let open = r#"{"estbLectDtaiList":[{"subjtCd":"1","diclNo":"1","timtSmryCn":{"z":[1,2.5,"x\ny"],"a":true}}]}"#;
    let out = make_db_content(open, syllabus, "1.0", "1", false).unwrap();
    assert!(out.contains(r#""timtSmryCn":{"a":true,"z":[1,2.5,"x\ny"]}"#));
}

#[test]
fn syllabus_values_override_open_class_values() {
    let syllabus = r#"{"estbLectDtaiList":[{"subjtCd":"1","diclNo":"01","estbDpmjNm":"Business","estbMjorNm":"Mgmt"}]}"#;
    let open = r#"{"estbLectDtaiList":[{"subjtCd":"1","diclNo":"01","estbDpmjNm":"Law","estbMjorNm":"Civil"}]}"#;
    let v = parse(&make_db_content(open, syllabus, "1.0", "1", false).unwrap());
    let list = v["estbLectDtaiList"].as_object().unwrap();
    assert_eq!(list.len(), 1);
    let courses = list["Business"].as_array().unwrap();
    assert_eq!(courses.len(), 1);
    assert_eq!(courses[0]["estbDpmjNm"], "Business");
    assert_eq!(courses[0]["estbMjorNm"], "Mgmt");
    assert_eq!(v["departments"], parse(r#"{"Business":["Mgmt"]}"#));
    assert_eq!(v["contacts"], parse(r#"{"Business":{}}"#));
}

#[test]
fn later_contact_overwrites_earlier() {
    let syllabus = r#"{"estbLectDtaiList":[{"subjtCd":"1","diclNo":"01","estbDpmjNm":"B","email":"e","mpno":"010-1"},{"subjtCd":"2","diclNo":"01","estbDpmjNm":"B","email":"e","mpno":"010-2"}]}"#;
    let open = r#"{"estbLectDtaiList":[{"subjtCd":"1","diclNo":"01","ltrPrfsNm":"Kim"},{"subjtCd":"2","diclNo":"01","ltrPrfsNm":"Kim"}]}"#;
    let v = parse(&make_db_content(open, syllabus, "1.0", "1", false).unwrap());
    assert_eq!(v["contacts"], parse(r#"{"B":{"Kim":{"email":"e","mpno":"010-2"}}}"#));
}
