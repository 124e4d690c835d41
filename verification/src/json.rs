//! JSON values as plain data.

use vstd::prelude::*;

use crate::text::chars::owned;

verus! {

broadcast use vstd::seq::group_seq_axioms;

/// A JSON value. The names of an object are distinct.
#[derive(Debug)]
pub enum Json {
    Null,
    Bool(bool),
    Number(u64),
    Text(String),
    List(Vec<Json>),
    Object(Vec<(String, Json)>),
}

/// What a JSON value says.
pub enum JsonModel {
    Null,
    Bool(bool),
    Number(nat),
    Text(Seq<char>),
    List(Seq<JsonModel>),
    Object(Seq<(Seq<char>, JsonModel)>),
}

/// What a JSON value says.
pub open spec fn json_model(j: Json) -> JsonModel
    decreases j,
{
    match j {
        Json::Null => JsonModel::Null,
        Json::Bool(b) => JsonModel::Bool(b),
        Json::Number(n) => JsonModel::Number(n as nat),
        Json::Text(s) => JsonModel::Text(s@),
        Json::List(v) => JsonModel::List(list_model(v@)),
        Json::Object(v) => JsonModel::Object(fields_model(v@)),
    }
}

/// What a list of JSON values says.
pub open spec fn list_model(v: Seq<Json>) -> Seq<JsonModel>
    decreases v,
{
    if v.len() == 0 {
        seq![]
    } else {
        list_model(v.drop_last()).push(json_model(v[v.len() - 1]))
    }
}

/// What a list of fields says.
pub open spec fn fields_model(v: Seq<(String, Json)>) -> Seq<(Seq<char>, JsonModel)>
    decreases v,
{
    if v.len() == 0 {
        seq![]
    } else {
        fields_model(v.drop_last()).push((v[v.len() - 1].0@, json_model(v[v.len() - 1].1)))
    }
}

impl View for Json {
    type V = JsonModel;

    open spec fn view(&self) -> JsonModel {
        json_model(*self)
    }
}

/// A list says what its values say.
pub proof fn lemma_list_model(v: Seq<Json>)
    ensures
        list_model(v).len() == v.len(),
        forall|i: int| 0 <= i < v.len() ==> #[trigger] list_model(v)[i] == v[i]@,
    decreases v.len(),
{
    if v.len() > 0 {
        let t = v.drop_last();
        lemma_list_model(t);
        assert forall|i: int| 0 <= i < v.len() implies #[trigger] list_model(v)[i] == v[i]@ by {
            if i < t.len() {
                assert(list_model(v)[i] == list_model(t)[i]);
                assert(t[i] == v[i]);
            }
        }
    }
}

/// A list of fields says what its fields say.
pub proof fn lemma_fields_model(v: Seq<(String, Json)>)
    ensures
        fields_model(v).len() == v.len(),
        forall|i: int| 0 <= i < v.len() ==> #[trigger] fields_model(v)[i] == (v[i].0@, v[i].1@),
    decreases v.len(),
{
    if v.len() > 0 {
        let t = v.drop_last();
        lemma_fields_model(t);
        assert forall|i: int| 0 <= i < v.len() implies #[trigger] fields_model(v)[i] == (
            v[i].0@,
            v[i].1@,
        ) by {
            if i < t.len() {
                assert(fields_model(v)[i] == fields_model(t)[i]);
                assert(t[i] == v[i]);
            }
        }
    }
}

/// The value of an optional JSON value.
pub open spec fn option_model(o: Option<Json>) -> Option<JsonModel> {
    match o {
        Some(j) => Some(j@),
        None => None,
    }
}

/// A copy of a JSON value.
pub fn copy_json(j: &Json) -> (r: Json)
    ensures
        r@ == j@,
    decreases j,
{
    match j {
        Json::Null => Json::Null,
        Json::Bool(b) => Json::Bool(*b),
        Json::Number(n) => Json::Number(*n),
        Json::Text(s) => Json::Text(s.clone()),
        Json::List(v) => {
            let mut out: Vec<Json> = Vec::new();
            let mut i: usize = 0;
            while i < v.len()
                invariant
                    i <= v@.len(),
                    out@.len() == i,
                    decreases_to!(j => v),
                    forall|k: int| 0 <= k < i ==> (#[trigger] out@[k])@ == v@[k]@,
                decreases v@.len() - i,
            {
                assert(decreases_to!(v => v@[i as int]));
                out.push(copy_json(&v[i]));
                i = i + 1;
            }
            proof {
                lemma_list_model(out@);
                lemma_list_model(v@);
                assert(list_model(out@) =~= list_model(v@));
            }
            Json::List(out)
        },
        Json::Object(v) => {
            let mut out: Vec<(String, Json)> = Vec::new();
            let mut i: usize = 0;
            while i < v.len()
                invariant
                    i <= v@.len(),
                    out@.len() == i,
                    decreases_to!(j => v),
                    forall|k: int|
                        0 <= k < i ==> (#[trigger] out@[k]).1@ == v@[k].1@ && out@[k].0@ == v@[k].0@,
                decreases v@.len() - i,
            {
                assert(decreases_to!(v => v@[i as int].1));
                let (name, value) = &v[i];
                out.push((name.clone(), copy_json(value)));
                i = i + 1;
            }
            proof {
                lemma_fields_model(out@);
                lemma_fields_model(v@);
                assert(fields_model(out@) =~= fields_model(v@));
            }
            Json::Object(out)
        },
    }
}

/// Copies a list of JSON values.
pub fn copy_list(v: &Vec<Json>) -> (r: Vec<Json>)
    ensures
        list_model(r@) == list_model(v@),
{
    let mut out: Vec<Json> = Vec::new();
    let mut i: usize = 0;
    while i < v.len()
        invariant
            i <= v@.len(),
            out@.len() == i,
            forall|k: int| 0 <= k < i ==> (#[trigger] out@[k])@ == v@[k]@,
        decreases v@.len() - i,
    {
        out.push(copy_json(&v[i]));
        i = i + 1;
    }
    proof {
        lemma_list_model(out@);
        lemma_list_model(v@);
        assert(list_model(out@) =~= list_model(v@));
    }
    out
}

/// A JSON text.
pub fn text(s: &str) -> (r: Json)
    ensures
        r@ == JsonModel::Text(s@),
{
    Json::Text(owned(s))
}

/// A JSON object with the given fields.
pub fn object(fields: Vec<(String, Json)>) -> (r: Json)
    ensures
        r@ == JsonModel::Object(fields_model(fields@)),
{
    Json::Object(fields)
}

/// A JSON list of the given values.
pub fn list(values: Vec<Json>) -> (r: Json)
    ensures
        r@ == JsonModel::List(list_model(values@)),
{
    Json::List(values)
}

/// Adds a field to a list of fields.
pub fn put(fields: &mut Vec<(String, Json)>, name: &str, value: Json)
    ensures
        fields_model(final(fields)@) == fields_model(old(fields)@).push((name@, value@)),
{
    fields.push((owned(name), value));
    assert(fields@.drop_last() == old(fields)@);
}

/// `fs` and one more field.
pub open spec fn with(
    fs: Seq<(Seq<char>, JsonModel)>,
    name: Seq<char>,
    value: JsonModel,
) -> Seq<(Seq<char>, JsonModel)> {
    fs.push((name, value))
}

/// `fs` and one more field where there is a value for it.
pub open spec fn with_some(
    fs: Seq<(Seq<char>, JsonModel)>,
    name: Seq<char>,
    value: Option<JsonModel>,
) -> Seq<(Seq<char>, JsonModel)> {
    match value {
        Some(v) => fs.push((name, v)),
        None => fs,
    }
}

/// The value of the first field with the given name.
pub open spec fn field_of(fs: Seq<(Seq<char>, JsonModel)>, name: Seq<char>) -> Option<JsonModel>
    decreases fs.len(),
{
    if fs.len() == 0 {
        None
    } else if fs[0].0 == name {
        Some(fs[0].1)
    } else {
        field_of(fs.skip(1), name)
    }
}

/// The first field with a name has the value of the name.
pub proof fn lemma_field_at(fs: Seq<(Seq<char>, JsonModel)>, name: Seq<char>, i: int)
    requires
        0 <= i < fs.len(),
        fs[i].0 == name,
        forall|j: int| 0 <= j < i ==> (#[trigger] fs[j]).0 != name,
    ensures
        field_of(fs, name) == Some(fs[i].1),
    decreases fs.len(),
{
    if i > 0 {
        assert(fs[0].0 != name);
        let t = fs.skip(1);
        assert forall|j: int| 0 <= j < i - 1 implies (#[trigger] t[j]).0 != name by {
            assert(t[j] == fs[j + 1]);
        }
        lemma_field_at(t, name, i - 1);
    }
}

impl Json {
    /// The value of a field, where this is an object that has it.
    pub fn get(&self, name: &str) -> (r: Option<&Json>)
        ensures
            match self@ {
                JsonModel::Object(fs) => match r {
                    Some(v) => field_of(fs, name@) == Some(v@),
                    None => field_of(fs, name@) is None,
                },
                _ => r is None,
            },
    {
        match self {
            Json::Object(v) => {
                let ghost fs = fields_model(v@);
                proof {
                    lemma_fields_model(v@);
                }
                let mut i: usize = 0;
                assert(fs.skip(0) == fs);
                while i < v.len()
                    invariant
                        i <= v@.len(),
                        fs == fields_model(v@),
                        fs.len() == v@.len(),
                        self@ == JsonModel::Object(fs),
                        forall|k: int|
                            0 <= k < v@.len() ==> #[trigger] fs[k] == (v@[k].0@, v@[k].1@),
                        field_of(fs.skip(i as int), name@) == field_of(fs, name@),
                    decreases v@.len() - i,
                {
                    assert(fs.skip(i as int).skip(1) == fs.skip(i + 1));
                    assert(fs.skip(i as int)[0] == fs[i as int]);
                    let (n, value) = &v[i];
                    if crate::text::chars::same_text(n.as_str(), name) {
                        return Some(value);
                    }
                    i = i + 1;
                }
                None
            },
            _ => None,
        }
    }

    /// The item at position `i`, where this is a list that long.
    pub fn at(&self, i: usize) -> (r: Option<&Json>)
        ensures
            match self@ {
                JsonModel::List(vs) => match r {
                    Some(v) => i < vs.len() && vs[i as int] == v@,
                    None => i >= vs.len(),
                },
                _ => r is None,
            },
    {
        match self {
            Json::List(v) => {
                proof {
                    lemma_list_model(v@);
                }
                if i < v.len() {
                    Some(&v[i])
                } else {
                    None
                }
            },
            _ => None,
        }
    }

    /// The text, where this is one.
    pub fn as_str(&self) -> (r: Option<&str>)
        ensures
            match self@ {
                JsonModel::Text(s) => r matches Some(t) && t@ == s,
                _ => r is None,
            },
    {
        match self {
            Json::Text(s) => Some(s.as_str()),
            _ => None,
        }
    }
}

} // verus!
