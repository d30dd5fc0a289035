use vstd::prelude::*;

use crate::merge::{
    contact_names, department_names, department_of, file_under, info_of, key_matches,
    last_index_of, lemma_last_index_of, merge_step, merged_departments, merged_view, seed_name,
    seed_names, seeded, todo_info_of, unclassified, upsert_contact,
};
use crate::model::{absent_info, ContactView, DepartmentView, MergedView, OpenEntry, TodoEntry};

verus! {

/// Handling the first `n + 1` entries is handling the first `n`, then entry `n`.
proof fn lemma_unfold(todos: Seq<TodoEntry>, opens: Seq<OpenEntry>, n: int)
    requires
        0 <= n < opens.len(),
    ensures
        merged_departments(todos, opens.take(n + 1)) == merge_step(
            merged_departments(todos, opens.take(n)),
            todos,
            opens[n],
        ),
        unclassified(todos, opens.take(n + 1)) == (if department_of(
            merged_departments(todos, opens.take(n)),
            info_of(todos, opens[n]),
        ) < 0 {
            unclassified(todos, opens.take(n)).push(n)
        } else {
            unclassified(todos, opens.take(n))
        }),
{
    assert(opens.take(n + 1).drop_last() =~= opens.take(n));
}

/// A step changes only the department it files under, and no name.
proof fn lemma_step_frame(ds: Seq<DepartmentView>, todos: Seq<TodoEntry>, r: OpenEntry)
    ensures
        merge_step(ds, todos, r).len() == ds.len(),
        department_names(merge_step(ds, todos, r)) == department_names(ds),
        forall|k: int|
            0 <= k < ds.len() && k != department_of(ds, info_of(todos, r)) ==> merge_step(ds, todos, r)[k]
                == ds[k],
        department_of(ds, info_of(todos, r)) >= 0 ==> merge_step(ds, todos, r)[department_of(
            ds,
            info_of(todos, r),
        )] == file_under(ds[department_of(ds, info_of(todos, r))], r, info_of(todos, r)),
{
    let info = info_of(todos, r);
    match info.department {
        Some(d) => lemma_last_index_of(department_names(ds), d),
        None => {},
    }
    assert(department_names(merge_step(ds, todos, r)) =~= department_names(ds));
}

/// Whatever has been handled, the department names are those of the syllabus.
proof fn lemma_names_kept(todos: Seq<TodoEntry>, opens: Seq<OpenEntry>, n: int)
    requires
        0 <= n <= opens.len(),
    ensures
        department_names(merged_departments(todos, opens.take(n))) == seed_names(todos),
    decreases n,
{
    if n == 0 {
        assert(opens.take(0) =~= Seq::<OpenEntry>::empty());
        assert(department_names(seeded(todos)) =~= seed_names(todos));
    } else {
        lemma_names_kept(todos, opens, n - 1);
        lemma_unfold(todos, opens, n - 1);
        lemma_step_frame(merged_departments(todos, opens.take(n - 1)), todos, opens[n - 1]);
    }
}

/// The syllabus's department names hold the name of each of its entries.
proof fn lemma_seed_names_contain(todos: Seq<TodoEntry>)
    ensures
        forall|j: int| 0 <= j < todos.len() ==> seed_names(todos).contains(#[trigger] seed_name(todos[j])),
    decreases todos.len(),
{
    if todos.len() > 0 {
        let prev = todos.drop_last();
        lemma_seed_names_contain(prev);
        assert forall|j: int| 0 <= j < todos.len() implies seed_names(todos).contains(
            #[trigger] seed_name(todos[j]),
        ) by {
            if j < todos.len() - 1 {
                assert(prev[j] == todos[j]);
                let q = choose|q: int| 0 <= q < seed_names(prev).len() && seed_names(prev)[q] == seed_name(prev[j]);
                if !seed_names(prev).contains(seed_name(todos.last())) {
                    assert(seed_names(todos)[q] == seed_names(prev)[q]);
                }
            } else {
                if !seed_names(prev).contains(seed_name(todos.last())) {
                    assert(seed_names(todos)[seed_names(prev).len() as int] == seed_name(todos.last()));
                }
            }
        }
    }
}

/// What the syllabus says of a key is the information of its last entry with
/// that key, or all absent where there is none.
pub proof fn lemma_todo_info_of(todos: Seq<TodoEntry>, code: Seq<char>, dicl: Seq<char>)
    ensures
        (forall|j: int| 0 <= j < todos.len() ==> !key_matches(#[trigger] todos[j], code, dicl))
            ==> todo_info_of(todos, code, dicl) == absent_info(),
        forall|j: int|
            0 <= j < todos.len() && key_matches(todos[j], code, dicl) && (forall|q: int|
                j < q < todos.len() ==> !key_matches(#[trigger] todos[q], code, dicl))
                ==> todo_info_of(todos, code, dicl) == (#[trigger] todos[j]).info,
        todo_info_of(todos, code, dicl).department is Some ==> exists|j: int|
            0 <= j < todos.len() && (#[trigger] todos[j]).info.department == todo_info_of(
                todos,
                code,
                dicl,
            ).department,
    decreases todos.len(),
{
    if todos.len() > 0 {
        let prev = todos.drop_last();
        lemma_todo_info_of(prev, code, dicl);
        if !key_matches(todos.last(), code, dicl) {
            if forall|j: int| 0 <= j < todos.len() ==> !key_matches(#[trigger] todos[j], code, dicl) {
                assert forall|j: int| 0 <= j < prev.len() implies !key_matches(#[trigger] prev[j], code, dicl) by {
                    assert(prev[j] == todos[j]);
                }
            }
            assert forall|j: int|
                0 <= j < todos.len() && key_matches(todos[j], code, dicl) && (forall|q: int|
                    j < q < todos.len() ==> !key_matches(#[trigger] todos[q], code, dicl)) implies todo_info_of(
                todos,
                code,
                dicl,
            ) == (#[trigger] todos[j]).info by {
                assert(prev[j] == todos[j]);
                assert forall|q: int| j < q < prev.len() implies !key_matches(#[trigger] prev[q], code, dicl) by {
                    assert(prev[q] == todos[q]);
                }
            }
            if todo_info_of(todos, code, dicl).department is Some {
                let j = choose|j: int|
                    0 <= j < prev.len() && (#[trigger] prev[j]).info.department == todo_info_of(
                        prev,
                        code,
                        dicl,
                    ).department;
                assert(prev[j] == todos[j]);
            }
        } else {
            assert(todos[todos.len() - 1] == todos.last());
        }
    }
}

/// A department that the syllabus gives an entry is one of the database's.
proof fn lemma_resolved_department_known(todos: Seq<TodoEntry>, opens: Seq<OpenEntry>, n: int, r: OpenEntry)
    requires
        0 <= n <= opens.len(),
        info_of(todos, r).department is Some,
    ensures
        department_of(merged_departments(todos, opens.take(n)), info_of(todos, r)) >= 0,
{
    let info = info_of(todos, r);
    let d = info.department->Some_0;
    lemma_todo_info_of(todos, r.subject_code, r.dicl_number);
    let j = choose|j: int| 0 <= j < todos.len() && (#[trigger] todos[j]).info.department == info.department;
    assert(seed_name(todos[j]) == d);
    lemma_seed_names_contain(todos);
    lemma_names_kept(todos, opens, n);
    lemma_last_index_of(seed_names(todos), d);
}

/// Every department that the syllabus names is a department of the database,
/// with a course list and a contact list, whatever the open-class entries are.
pub proof fn lemma_syllabus_departments_kept(todos: Seq<TodoEntry>, opens: Seq<OpenEntry>)
    ensures
        forall|j: int|
            0 <= j < todos.len() ==> department_names(merged_departments(todos, opens)).contains(
                #[trigger] seed_name(todos[j]),
            ),
{
    lemma_names_kept(todos, opens, opens.len() as int);
    assert(opens.take(opens.len() as int) =~= opens);
    lemma_seed_names_contain(todos);
}

/// A course filed under a department stays in its course list.
proof fn lemma_course_stays(
    todos: Seq<TodoEntry>,
    opens: Seq<OpenEntry>,
    m: int,
    n: int,
    k: int,
    x: MergedView,
)
    requires
        0 <= m <= n <= opens.len(),
        0 <= k < merged_departments(todos, opens.take(m)).len(),
        merged_departments(todos, opens.take(m))[k].subjects.contains(x),
    ensures
        k < merged_departments(todos, opens.take(n)).len(),
        merged_departments(todos, opens.take(n))[k].subjects.contains(x),
    decreases n - m,
{
    if n > m {
        lemma_course_stays(todos, opens, m, n - 1, k, x);
        let ds = merged_departments(todos, opens.take(n - 1));
        lemma_unfold(todos, opens, n - 1);
        lemma_step_frame(ds, todos, opens[n - 1]);
        let info = info_of(todos, opens[n - 1]);
        if department_of(ds, info) == k {
            let s = ds[k].subjects;
            let q = choose|q: int| 0 <= q < s.len() && s[q] == x;
            assert(file_under(ds[k], opens[n - 1], info).subjects[q] == x);
        }
    }
}

/// An open-class entry whose key the syllabus carries takes its department
/// and major from the syllabus (from the last entry with that key), and
/// where that department is present the course stands in its course list.
pub proof fn lemma_matched_course_filed(todos: Seq<TodoEntry>, opens: Seq<OpenEntry>, i: int, j: int)
    requires
        0 <= i < opens.len(),
        0 <= j < todos.len(),
        key_matches(todos[j], opens[i].subject_code, opens[i].dicl_number),
        forall|q: int|
            j < q < todos.len() ==> !key_matches(#[trigger] todos[q], opens[i].subject_code, opens[i].dicl_number),
    ensures
        info_of(todos, opens[i]) == todos[j].info,
        todos[j].info.department matches Some(d) ==> {
            let ds = merged_departments(todos, opens);
            let k = last_index_of(department_names(ds), d);
            &&& 0 <= k < ds.len()
            &&& ds[k].subjects.contains(merged_view(opens[i], todos[j].info))
        },
{
    let r = opens[i];
    lemma_todo_info_of(todos, r.subject_code, r.dicl_number);
    let info = info_of(todos, r);
    if let Some(d) = info.department {
        let ds = merged_departments(todos, opens.take(i));
        lemma_resolved_department_known(todos, opens, i, r);
        lemma_last_index_of(department_names(ds), d);
        lemma_unfold(todos, opens, i);
        lemma_step_frame(ds, todos, r);
        let k = department_of(ds, info);
        let after = merged_departments(todos, opens.take(i + 1));
        let s = after[k].subjects;
        assert(s[s.len() - 1] == merged_view(r, info));
        lemma_course_stays(todos, opens, i + 1, opens.len() as int, k, merged_view(r, info));
        assert(opens.take(opens.len() as int) =~= opens);
        lemma_names_kept(todos, opens, i);
        lemma_names_kept(todos, opens, opens.len() as int);
    }
}

/// An open-class entry whose key the syllabus does not carry resolves to all
/// absent values, changes no department, and its position is recorded as
/// left out.
pub proof fn lemma_unmatched_course_dropped(todos: Seq<TodoEntry>, opens: Seq<OpenEntry>, i: int)
    requires
        0 <= i < opens.len(),
        forall|j: int|
            0 <= j < todos.len() ==> !key_matches(#[trigger] todos[j], opens[i].subject_code, opens[i].dicl_number),
    ensures
        info_of(todos, opens[i]) == absent_info(),
        merged_departments(todos, opens.take(i + 1)) == merged_departments(todos, opens.take(i)),
        unclassified(todos, opens).contains(i),
{
    lemma_todo_info_of(todos, opens[i].subject_code, opens[i].dicl_number);
    lemma_unfold(todos, opens, i);
    lemma_dropped_stays(todos, opens, i + 1, opens.len() as int, i);
    assert(opens.take(opens.len() as int) =~= opens);
}

/// A recorded position stays recorded.
proof fn lemma_dropped_stays(todos: Seq<TodoEntry>, opens: Seq<OpenEntry>, m: int, n: int, i: int)
    requires
        0 <= m <= n <= opens.len(),
        0 <= i < opens.len(),
        unclassified(todos, opens.take(m)).contains(i) || (m == i + 1 && department_of(
            merged_departments(todos, opens.take(i)),
            info_of(todos, opens[i]),
        ) < 0),
    ensures
        unclassified(todos, opens.take(n)).contains(i),
    decreases n - m,
{
    if m == i + 1 && !unclassified(todos, opens.take(m)).contains(i) {
        lemma_unfold(todos, opens, i);
        let u = unclassified(todos, opens.take(i + 1));
        assert(u[u.len() - 1] == i);
    }
    if n > m {
        lemma_dropped_stays(todos, opens, m, n - 1, i);
        lemma_unfold(todos, opens, n - 1);
        let u = unclassified(todos, opens.take(n - 1));
        let q = choose|q: int| 0 <= q < u.len() && u[q] == i;
        assert(u.push(n - 1)[q] == i);
    }
}

/// After setting the contact of `name`, looking `name` up finds that contact.
proof fn lemma_upsert_same(cs: Seq<ContactView>, name: Seq<char>, email: Option<Seq<char>>, phone: Option<Seq<char>>)
    ensures
        ({
            let after = upsert_contact(cs, name, email, phone);
            let q = last_index_of(contact_names(after), name);
            0 <= q < after.len() && after[q] == (ContactView { name, email, phone })
        }),
{
    let names = contact_names(cs);
    let c = ContactView { name, email, phone };
    lemma_last_index_of(names, name);
    let k = last_index_of(names, name);
    if k >= 0 {
        assert(contact_names(cs.update(k, c)) =~= names);
    } else {
        assert(contact_names(cs.push(c)) =~= names.push(name));
    }
}

/// Setting the contact of another name leaves the lookup of `name` as it was.
proof fn lemma_upsert_other(
    cs: Seq<ContactView>,
    name: Seq<char>,
    other: Seq<char>,
    email: Option<Seq<char>>,
    phone: Option<Seq<char>>,
)
    requires
        other != name,
    ensures
        ({
            let after = upsert_contact(cs, other, email, phone);
            let q = last_index_of(contact_names(cs), name);
            &&& last_index_of(contact_names(after), name) == q
            &&& after.len() >= cs.len()
            &&& q >= 0 ==> after[q] == cs[q]
        }),
{
    let names = contact_names(cs);
    let c = ContactView { name: other, email, phone };
    lemma_last_index_of(names, other);
    lemma_last_index_of(names, name);
    let k = last_index_of(names, other);
    if k >= 0 {
        assert(contact_names(cs.update(k, c)) =~= names);
    } else {
        assert(contact_names(cs.push(c)) =~= names.push(other));
        assert(names.push(other).drop_last() =~= names);
    }
}

/// The contact of (department, name) stays while no later entry of that
/// department and instructor comes.
proof fn lemma_contact_stays(
    todos: Seq<TodoEntry>,
    opens: Seq<OpenEntry>,
    m: int,
    n: int,
    d: Seq<char>,
    p: Seq<char>,
    c: ContactView,
)
    requires
        0 <= m <= n <= opens.len(),
        forall|q: int|
            m <= q < n ==> !(info_of(todos, #[trigger] opens[q]).department == Some(d) && opens[q].professor
                == Some(p)),
        ({
            let ds = merged_departments(todos, opens.take(m));
            let k = last_index_of(department_names(ds), d);
            let cs = ds[k].contacts;
            let q = last_index_of(contact_names(cs), p);
            0 <= k < ds.len() && 0 <= q < cs.len() && cs[q] == c
        }),
    ensures
        ({
            let ds = merged_departments(todos, opens.take(n));
            let k = last_index_of(department_names(ds), d);
            let cs = ds[k].contacts;
            let q = last_index_of(contact_names(cs), p);
            0 <= k < ds.len() && 0 <= q < cs.len() && cs[q] == c
        }),
    decreases n - m,
{
    if n > m {
        lemma_contact_stays(todos, opens, m, n - 1, d, p, c);
        let ds = merged_departments(todos, opens.take(n - 1));
        let r = opens[n - 1];
        let info = info_of(todos, r);
        lemma_unfold(todos, opens, n - 1);
        lemma_step_frame(ds, todos, r);
        let k = last_index_of(department_names(ds), d);
        lemma_last_index_of(department_names(ds), d);
        let j = department_of(ds, info);
        if j == k {
            let d2 = info.department->Some_0;
            lemma_last_index_of(department_names(ds), d2);
            assert(department_names(ds)[k] == d);
            match r.professor {
                Some(p2) => {
                    lemma_upsert_other(ds[k].contacts, p, p2, info.email, info.phone);
                },
                None => {},
            }
        }
    }
}

/// The contact lists keep the last write: the contact of an instructor in a
/// department is the one of the last open-class entry with that instructor
/// that is filed under that department.
pub proof fn lemma_contact_last_write_wins(todos: Seq<TodoEntry>, opens: Seq<OpenEntry>, i: int)
    requires
        0 <= i < opens.len(),
        info_of(todos, opens[i]).department is Some,
        opens[i].professor is Some,
        forall|q: int|
            i < q < opens.len() ==> !(info_of(todos, #[trigger] opens[q]).department == info_of(
                todos,
                opens[i],
            ).department && opens[q].professor == opens[i].professor),
    ensures
        ({
            let info = info_of(todos, opens[i]);
            let p = opens[i].professor->Some_0;
            let ds = merged_departments(todos, opens);
            let k = last_index_of(department_names(ds), info.department->Some_0);
            let cs = ds[k].contacts;
            let q = last_index_of(contact_names(cs), p);
            &&& 0 <= k < ds.len()
            &&& 0 <= q < cs.len()
            &&& cs[q] == (ContactView { name: p, email: info.email, phone: info.phone })
        }),
{
    let r = opens[i];
    let info = info_of(todos, r);
    let d = info.department->Some_0;
    let p = r.professor->Some_0;
    let c = ContactView { name: p, email: info.email, phone: info.phone };
    let ds = merged_departments(todos, opens.take(i));
    lemma_resolved_department_known(todos, opens, i, r);
    lemma_last_index_of(department_names(ds), d);
    lemma_unfold(todos, opens, i);
    lemma_step_frame(ds, todos, r);
    lemma_upsert_same(ds[department_of(ds, info)].contacts, p, info.email, info.phone);
    lemma_contact_stays(todos, opens, i + 1, opens.len() as int, d, p, c);
    assert(opens.take(opens.len() as int) =~= opens);
}

} // verus!
