use vstd::prelude::*;

use crate::model::strs_view;
use crate::render::{array_text, enclose, member, member_text, object_text};
use crate::source::quote;

verus! {

broadcast use {vstd::std_specs::vec::axiom_vec_index_decreases, vstd::seq::axiom_seq_index_decreases};

/// A JSON value. A number is held as its text; an object as the keys and
/// the values of its members, in order.
pub enum Json {
    Null,
    Bool(bool),
    Number(String),
    Str(String),
    Array(Vec<Json>),
    Object(Vec<String>, Vec<Json>),
}

/// The view of a JSON value.
pub enum JsonView {
    Null,
    Bool(bool),
    Number(Seq<char>),
    Str(Seq<char>),
    Array(Seq<JsonView>),
    Object(Seq<Seq<char>>, Seq<JsonView>),
}

impl View for Json {
    type V = JsonView;

    open spec fn view(&self) -> JsonView
        decreases self,
    {
        match self {
            Json::Null => JsonView::Null,
            Json::Bool(b) => JsonView::Bool(*b),
            Json::Number(n) => JsonView::Number(n@),
            Json::Str(s) => JsonView::Str(s@),
            Json::Array(v) => JsonView::Array(
                Seq::new(v@.len(), |i: int| if 0 <= i < v@.len() { v@[i]@ } else { JsonView::Null }),
            ),
            Json::Object(ks, vs) => JsonView::Object(
                Seq::new(ks@.len(), |i: int| if 0 <= i < ks@.len() { ks@[i]@ } else { Seq::empty() }),
                Seq::new(vs@.len(), |i: int| if 0 <= i < vs@.len() { vs@[i]@ } else { JsonView::Null }),
            ),
        }
    }
}

/// The lower-case hexadecimal digit of `n`, for `n` below 16.
pub open spec fn hex_digit(n: int) -> char {
    seq!['0', '1', '2', '3', '4', '5', '6', '7', '8', '9', 'a', 'b', 'c', 'd', 'e', 'f'][n]
}

/// How a character stands inside a JSON string: the quote and the backslash
/// behind a backslash, the five control characters with a short form in it,
/// the other characters below U+0020 as `\u00XX`, and every other character
/// as it is.
pub open spec fn escape_char(c: char) -> Seq<char> {
    if c == '"' {
        seq!['\\', '"']
    } else if c == '\\' {
        seq!['\\', '\\']
    } else if c == '\u{8}' {
        seq!['\\', 'b']
    } else if c == '\t' {
        seq!['\\', 't']
    } else if c == '\n' {
        seq!['\\', 'n']
    } else if c == '\u{c}' {
        seq!['\\', 'f']
    } else if c == '\r' {
        seq!['\\', 'r']
    } else if (c as u32) < 0x20 {
        seq!['\\', 'u', '0', '0', hex_digit(((c as u32) / 16) as int), hex_digit(((c as u32) % 16) as int)]
    } else {
        seq![c]
    }
}

/// The characters of a string, each escaped.
pub open spec fn escaped(s: Seq<char>) -> Seq<char>
    decreases s.len(),
{
    if s.len() == 0 {
        Seq::empty()
    } else {
        escaped(s.drop_last()) + escape_char(s.last())
    }
}

/// A string as a JSON string literal.
pub open spec fn json_quoted(s: Seq<char>) -> Seq<char> {
    seq!['"'] + escaped(s) + seq!['"']
}

/// The compact JSON text of a value.
pub open spec fn json_text(j: JsonView) -> Seq<char>
    decreases j,
{
    match j {
        JsonView::Null => seq!['n', 'u', 'l', 'l'],
        JsonView::Bool(b) => if b {
            seq!['t', 'r', 'u', 'e']
        } else {
            seq!['f', 'a', 'l', 's', 'e']
        },
        JsonView::Number(n) => n,
        JsonView::Str(s) => json_quoted(s),
        JsonView::Array(items) => array_text(item_texts(items)),
        JsonView::Object(ks, vs) => object_text(member_texts(ks, vs)),
    }
}

/// The texts of the items of an array.
pub open spec fn item_texts(items: Seq<JsonView>) -> Seq<Seq<char>>
    decreases items,
{
    if items.len() == 0 {
        Seq::empty()
    } else {
        item_texts(items.drop_last()).push(json_text(items[items.len() - 1]))
    }
}

/// The key at position `i`, or the empty key where there is none.
pub open spec fn key_at(ks: Seq<Seq<char>>, i: int) -> Seq<char> {
    if 0 <= i < ks.len() {
        ks[i]
    } else {
        Seq::empty()
    }
}

/// The texts of the members of an object.
pub open spec fn member_texts(ks: Seq<Seq<char>>, vs: Seq<JsonView>) -> Seq<Seq<char>>
    decreases vs,
{
    if vs.len() == 0 {
        Seq::empty()
    } else {
        member_texts(ks, vs.drop_last()).push(member_text(key_at(ks, vs.len() - 1), json_text(vs[vs.len() - 1])))
    }
}

/// The value of the first member named `key`, looking from position `i` on.
pub open spec fn member_from(ks: Seq<Seq<char>>, vs: Seq<JsonView>, key: Seq<char>, i: int) -> Option<JsonView>
    decreases ks.len() - i,
{
    if i < 0 || i >= ks.len() || i >= vs.len() {
        None
    } else if ks[i] == key {
        Some(vs[i])
    } else {
        member_from(ks, vs, key, i + 1)
    }
}

/// The member `key` of a value: its value where the value is an object with
/// such a member, else none.
pub open spec fn member_of(j: JsonView, key: Seq<char>) -> Option<JsonView> {
    match j {
        JsonView::Object(ks, vs) => member_from(ks, vs, key, 0),
        _ => None,
    }
}

/// The string that a value holds, if it is a string.
pub open spec fn str_of(o: Option<JsonView>) -> Option<Seq<char>> {
    match o {
        Some(JsonView::Str(s)) => Some(s),
        _ => None,
    }
}

/// Writes the compact JSON text of a value.
pub fn write_json(j: &Json) -> (r: String)
    ensures
        r@ == json_text(j@),
    decreases j@,
{
    match j {
        Json::Null => {
            proof {
                reveal_strlit("null");
                assert("null"@ =~= seq!['n', 'u', 'l', 'l']);
            }
            String::from_str("null")
        }
        Json::Bool(b) => {
            proof {
                reveal_strlit("true");
                reveal_strlit("false");
                assert("true"@ =~= seq!['t', 'r', 'u', 'e']);
                assert("false"@ =~= seq!['f', 'a', 'l', 's', 'e']);
            }
            if *b {
                String::from_str("true")
            } else {
                String::from_str("false")
            }
        }
        Json::Number(n) => n.clone(),
        Json::Str(s) => quote(s.as_str()),
        Json::Array(v) => {
            let ghost items = match j@ {
                JsonView::Array(x) => x,
                _ => Seq::empty(),
            };
            assert(items.len() == v@.len());
            assert(forall|q: int| 0 <= q < v@.len() ==> items[q] == (#[trigger] v@[q])@);
            assert(j@ == JsonView::Array(items));
            let mut out: Vec<String> = Vec::new();
            let mut i: usize = 0;
            assert(items.take(0) =~= Seq::<JsonView>::empty());
            while i < v.len()
                invariant
                    i <= v@.len(),
                    items.len() == v@.len(),
                    forall|q: int| 0 <= q < v@.len() ==> items[q] == (#[trigger] v@[q])@,
                    j@ == JsonView::Array(items),
                    strs_view(out@) == item_texts(items.take(i as int)),
                decreases v@.len() - i,
            {
                proof {
                    assert(items[i as int] == v@[i as int]@);
                    assert(decreases_to!(j@ => j@->Array_0[i as int]));
                }
                let ghost prev = strs_view(out@);
                let t = write_json(&v[i]);
                out.push(t);
                assert(strs_view(out@) =~= prev.push(t@));
                assert(items.take(i + 1).drop_last() =~= items.take(i as int));
                assert(items.take(i + 1)[i as int] == items[i as int]);
                i = i + 1;
            }
            let r = enclose(&out, false);
            assert(items.take(i as int) =~= items);
            assert(r@ == json_text(j@));
            r
        }
        Json::Object(ks, vs) => {
            let ghost kv = j@->Object_0;
            let ghost vv = j@->Object_1;
            assert(kv.len() == ks@.len() && vv.len() == vs@.len());
            assert(forall|q: int| 0 <= q < ks@.len() ==> kv[q] == (#[trigger] ks@[q])@);
            assert(forall|q: int| 0 <= q < vs@.len() ==> vv[q] == (#[trigger] vs@[q])@);
            let mut out: Vec<String> = Vec::new();
            let mut i: usize = 0;
            assert(vv.take(0) =~= Seq::<JsonView>::empty());
            while i < vs.len()
                invariant
                    i <= vs@.len(),
                    kv.len() == ks@.len() && vv.len() == vs@.len(),
                    forall|q: int| 0 <= q < ks@.len() ==> kv[q] == (#[trigger] ks@[q])@,
                    forall|q: int| 0 <= q < vs@.len() ==> vv[q] == (#[trigger] vs@[q])@,
                    j@ == JsonView::Object(kv, vv),
                    strs_view(out@) == member_texts(kv, vv.take(i as int)),
                decreases vs@.len() - i,
            {
                proof {
                    assert(vv[i as int] == vs@[i as int]@);
                    assert(decreases_to!(j@ => j@->Object_1[i as int]));
                }
                let ghost prev = strs_view(out@);
                let t = write_json(&vs[i]);
                let e = if i < ks.len() {
                    member(ks[i].as_str(), t.as_str())
                } else {
                    member("", t.as_str())
                };
                proof {
                    reveal_strlit("");
                }
                out.push(e);
                assert(strs_view(out@) =~= prev.push(e@));
                assert(vv.take(i + 1).drop_last() =~= vv.take(i as int));
                assert(vv.take(i + 1)[i as int] == vv[i as int]);
                i = i + 1;
            }
            let r = enclose(&out, true);
            assert(vv.take(i as int) =~= vv);
            assert(r@ == json_text(j@));
            r
        }
    }
}

/// The member `key` of a value, as `member_of` says.
pub fn get_member<'a>(j: &'a Json, key: &str) -> (r: Option<&'a Json>)
    ensures
        match r {
            Some(v) => member_of(j@, key@) == Some(v@),
            None => member_of(j@, key@) is None,
        },
{
    match j {
        Json::Object(ks, vs) => {
            let k = key.to_owned();
            let ghost kv = j@->Object_0;
            let ghost vv = j@->Object_1;
            assert(kv.len() == ks@.len() && vv.len() == vs@.len());
            let mut i: usize = 0;
            while i < ks.len() && i < vs.len()
                invariant
                    k@ == key@,
                    kv.len() == ks@.len() && vv.len() == vs@.len(),
                    forall|q: int| 0 <= q < ks@.len() ==> kv[q] == (#[trigger] ks@[q])@,
                    forall|q: int| 0 <= q < vs@.len() ==> vv[q] == (#[trigger] vs@[q])@,
                    j@ == JsonView::Object(kv, vv),
                    member_from(kv, vv, key@, i as int) == member_from(kv, vv, key@, 0),
                decreases ks@.len() - i,
            {
                if ks[i] == k {
                    return Some(&vs[i]);
                }
                i = i + 1;
            }
            None
        }
        _ => None,
    }
}

/// The string that a value holds, if it is a string.
pub fn text_of(o: Option<&Json>) -> (r: Option<String>)
    ensures
        crate::model::opt_view(r) == str_of(
            match o {
                Some(v) => Some(v@),
                None => None,
            },
        ),
{
    match o {
        Some(Json::Str(s)) => Some(s.clone()),
        _ => None,
    }
}

} // verus!
