use vstd::prelude::*;

use crate::assoc::{
    assoc_get, assoc_has, assoc_remove, assoc_set, lemma_assoc_get_at, lemma_assoc_get_missing,
    lemma_assoc_remove_at, lemma_assoc_remove_missing, lemma_assoc_set_at,
    lemma_assoc_set_missing,
};

verus! {

/// Mathematical model of a JSON document. Numbers are restricted to
/// integers: every number this protocol carries (request ids, process
/// ids, ports, line numbers) is integral.
#[verifier::ext_equal]
pub enum JsonV {
    Null,
    Bool(bool),
    Int(int),
    Str(Seq<char>),
    Arr(Seq<JsonV>),
    Obj(Seq<(Seq<char>, JsonV)>),
}

/// Executable JSON document, mirroring `JsonV` with plain values.
pub enum Json {
    Null,
    Bool(bool),
    Int(i64),
    Str(String),
    Arr(Vec<Json>),
    Obj(Vec<(String, Json)>),
}

impl DeepView for Json {
    type V = JsonV;

    open spec fn deep_view(&self) -> JsonV
        decreases self,
    {
        match self {
            Json::Null => JsonV::Null,
            Json::Bool(b) => JsonV::Bool(*b),
            Json::Int(i) => JsonV::Int(*i as int),
            Json::Str(s) => JsonV::Str(s@),
            Json::Arr(items) => JsonV::Arr(arr_view(items@)),
            Json::Obj(fields) => JsonV::Obj(obj_view(fields@)),
        }
    }
}

/// The models of the elements of an array, in order.
pub open spec fn arr_view(items: Seq<Json>) -> Seq<JsonV>
    decreases items,
{
    if items.len() == 0 {
        Seq::empty()
    } else {
        arr_view(items.drop_last()).push(items.last().deep_view())
    }
}

/// The models of the fields of an object, in order.
pub open spec fn obj_view(fields: Seq<(String, Json)>) -> Seq<(Seq<char>, JsonV)>
    decreases fields,
{
    if fields.len() == 0 {
        Seq::empty()
    } else {
        obj_view(fields.drop_last()).push((fields.last().0@, fields.last().1.deep_view()))
    }
}

/// `arr_view` maps the sequence pointwise.
pub proof fn lemma_arr_view(items: Seq<Json>)
    ensures
        arr_view(items).len() == items.len(),
        forall|i: int|
            0 <= i < items.len() ==> #[trigger] arr_view(items)[i] == items[i].deep_view(),
    decreases items.len(),
{
    if items.len() > 0 {
        lemma_arr_view(items.drop_last());
        assert(arr_view(items) == arr_view(items.drop_last()).push(items.last().deep_view()));
        assert forall|i: int| 0 <= i < items.len() implies #[trigger] arr_view(items)[i]
            == items[i].deep_view() by {
            if i < items.len() - 1 {
                assert(arr_view(items)[i] == arr_view(items.drop_last())[i]);
                assert(items.drop_last()[i] == items[i]);
            } else {
                assert(items.last() == items[i]);
            }
        }
    }
}

/// `obj_view` maps the sequence pointwise.
pub proof fn lemma_obj_view(fields: Seq<(String, Json)>)
    ensures
        obj_view(fields).len() == fields.len(),
        forall|i: int|
            0 <= i < fields.len() ==> #[trigger] obj_view(fields)[i] == (
                fields[i].0@,
                fields[i].1.deep_view(),
            ),
    decreases fields.len(),
{
    if fields.len() > 0 {
        lemma_obj_view(fields.drop_last());
        assert(obj_view(fields) == obj_view(fields.drop_last()).push(
            (fields.last().0@, fields.last().1.deep_view()),
        ));
        assert forall|i: int| 0 <= i < fields.len() implies #[trigger] obj_view(fields)[i] == (
            fields[i].0@,
            fields[i].1.deep_view(),
        ) by {
            if i < fields.len() - 1 {
                assert(obj_view(fields)[i] == obj_view(fields.drop_last())[i]);
                assert(fields.drop_last()[i] == fields[i]);
            } else {
                assert(fields.last() == fields[i]);
            }
        }
    }
}

impl JsonV {
    /// True when the document is an object.
    pub open spec fn is_obj(self) -> bool {
        self is Obj
    }

    /// The field list of an object document.
    pub open spec fn fields(self) -> Seq<(Seq<char>, JsonV)>
        recommends
            self is Obj,
    {
        self->Obj_0
    }
}

impl Json {
    /// Looks `key` up in an object document; `None` on other documents
    /// and on objects without that key.
    pub fn get<'a>(&'a self, key: &String) -> (r: Option<&'a Json>)
        ensures
            match r {
                Some(v) => self.deep_view() is Obj && assoc_get(
                    self.deep_view().fields(),
                    key@,
                ) == Some(v.deep_view()),
                None => self.deep_view() is Obj ==> assoc_get(
                    self.deep_view().fields(),
                    key@,
                ) is None,
            },
    {
        match self {
            Json::Obj(fields) => obj_find(fields, key),
            _ => None,
        }
    }

    /// The string inside a string document.
    pub fn as_str<'a>(&'a self) -> (r: Option<&'a String>)
        ensures
            match r {
                Some(s) => self.deep_view() == JsonV::Str(s@),
                None => !(self.deep_view() is Str),
            },
    {
        match self {
            Json::Str(s) => Some(s),
            _ => None,
        }
    }

    /// The integer inside a number document.
    pub fn as_int(&self) -> (r: Option<i64>)
        ensures
            match r {
                Some(i) => self.deep_view() == JsonV::Int(i as int),
                None => !(self.deep_view() is Int),
            },
    {
        match self {
            Json::Int(i) => Some(*i),
            _ => None,
        }
    }
}

impl Clone for Json {
    /// A deep copy with the same model.
    #[verifier::loop_isolation(false)]
    fn clone(&self) -> (r: Self)
        ensures
            r.deep_view() == self.deep_view(),
        decreases self,
    {
        match self {
            Json::Null => Json::Null,
            Json::Bool(b) => Json::Bool(*b),
            Json::Int(i) => Json::Int(*i),
            Json::Str(s) => Json::Str(s.clone()),
            Json::Arr(items) => {
                let ghost iv = arr_view(items@);
                proof {
                    lemma_arr_view(items@);
                }
                let mut copy: Vec<Json> = Vec::new();
                let mut i: usize = 0;
                while i < items.len()
                    invariant
                        i <= items@.len(),
                        iv == arr_view(items@),
                        iv.len() == items@.len(),
                        forall|j: int|
                            0 <= j < items@.len() ==> #[trigger] iv[j] == items@[j].deep_view(),
                        arr_view(copy@) == iv.take(i as int),
                    decreases items@.len() - i,
                {
                    proof {
                        assert(decreases_to!(*self => self->Arr_0));
                        assert(decreases_to!(self->Arr_0 => items@));
                        assert(decreases_to!(items@ => items@[i as int]));
                    }
                    let ghost copy0 = copy@;
                    copy.push(items[i].clone());
                    proof {
                        assert(copy@.drop_last() =~= copy0);
                        assert(arr_view(copy@) =~= iv.take(i + 1));
                    }
                    i = i + 1;
                }
                proof {
                    assert(iv.take(items@.len() as int) =~= iv);
                }
                Json::Arr(copy)
            },
            Json::Obj(fields) => {
                let ghost fv = obj_view(fields@);
                proof {
                    lemma_obj_view(fields@);
                }
                let mut copy: Vec<(String, Json)> = Vec::new();
                let mut i: usize = 0;
                while i < fields.len()
                    invariant
                        i <= fields@.len(),
                        fv == obj_view(fields@),
                        fv.len() == fields@.len(),
                        forall|j: int|
                            0 <= j < fields@.len() ==> #[trigger] fv[j] == (
                                fields@[j].0@,
                                fields@[j].1.deep_view(),
                            ),
                        obj_view(copy@) == fv.take(i as int),
                    decreases fields@.len() - i,
                {
                    proof {
                        assert(decreases_to!(*self => self->Obj_0));
                        assert(decreases_to!(self->Obj_0 => fields@));
                        assert(decreases_to!(fields@ => fields@[i as int]));
                        assert(decreases_to!(fields@[i as int] => fields@[i as int].1));
                    }
                    let ghost copy0 = copy@;
                    let name = fields[i].0.clone();
                    let value = fields[i].1.clone();
                    copy.push((name, value));
                    proof {
                        assert(copy@.drop_last() =~= copy0);
                        assert(obj_view(copy@) =~= fv.take(i + 1));
                    }
                    i = i + 1;
                }
                proof {
                    assert(fv.take(fields@.len() as int) =~= fv);
                }
                Json::Obj(copy)
            },
        }
    }
}

/// Scans a field list for the first occurrence of `key`.
fn obj_find<'a>(fields: &'a Vec<(String, Json)>, key: &String) -> (r: Option<&'a Json>)
    ensures
        match r {
            Some(v) => assoc_get(obj_view(fields@), key@) == Some(v.deep_view()),
            None => assoc_get(obj_view(fields@), key@) is None,
        },
{
    proof {
        lemma_obj_view(fields@);
    }
    match obj_index_of(fields, key) {
        Some(i) => {
            proof {
                lemma_assoc_get_at(obj_view(fields@), key@, i as int);
            }
            Some(&fields[i].1)
        },
        None => {
            proof {
                lemma_assoc_get_missing(obj_view(fields@), key@);
            }
            None
        },
    }
}

/// Index of the first field named `key`, if any.
fn obj_index_of(fields: &Vec<(String, Json)>, key: &String) -> (r: Option<usize>)
    ensures
        match r {
            Some(i) => i < fields@.len() && obj_view(fields@)[i as int].0 == key@ && forall|j: int|
                0 <= j < i ==> #[trigger] obj_view(fields@)[j].0 != key@,
            None => forall|j: int|
                0 <= j < fields@.len() ==> #[trigger] obj_view(fields@)[j].0 != key@,
        },
{
    proof {
        lemma_obj_view(fields@);
    }
    let mut i: usize = 0;
    while i < fields.len()
        invariant
            i <= fields@.len(),
            obj_view(fields@).len() == fields@.len(),
            forall|j: int|
                0 <= j < fields@.len() ==> #[trigger] obj_view(fields@)[j] == (
                    fields@[j].0@,
                    fields@[j].1.deep_view(),
                ),
            forall|j: int| 0 <= j < i ==> #[trigger] obj_view(fields@)[j].0 != key@,
        decreases fields.len() - i,
    {
        if fields[i].0 == *key {
            return Some(i);
        }
        i = i + 1;
    }
    None
}

/// Binds `key` to `value` in a field list: the first occurrence is
/// replaced in place, or the pair is appended when the key is absent.
pub fn obj_set(fields: &mut Vec<(String, Json)>, key: String, value: Json)
    ensures
        obj_view(final(fields)@) == assoc_set(obj_view(old(fields)@), key@, value.deep_view()),
{
    let ghost s0 = obj_view(fields@);
    proof {
        lemma_obj_view(fields@);
    }
    match obj_index_of(fields, &key) {
        Some(i) => {
            let ghost kv = key@;
            let ghost vv = value.deep_view();
            fields[i] = (key, value);
            proof {
                lemma_obj_view(fields@);
                lemma_assoc_set_at(s0, kv, vv, i as int);
                assert(obj_view(fields@) =~= s0.update(i as int, (kv, vv)));
            }
        },
        None => {
            let ghost kv = key@;
            let ghost vv = value.deep_view();
            fields.push((key, value));
            proof {
                lemma_assoc_set_missing(s0, kv, vv);
                assert(fields@.drop_last() =~= old(fields)@);
                assert(obj_view(fields@) =~= s0.push((kv, vv)));
            }
        },
    }
}

/// Removes the first field named `key`, if any; reports whether one was
/// there.
pub fn obj_remove(fields: &mut Vec<(String, Json)>, key: &String) -> (removed: bool)
    ensures
        obj_view(final(fields)@) == assoc_remove(obj_view(old(fields)@), key@),
        removed == assoc_has(obj_view(old(fields)@), key@),
{
    let ghost s0 = obj_view(fields@);
    proof {
        lemma_obj_view(fields@);
    }
    match obj_index_of(fields, key) {
        Some(i) => {
            let _ = fields.remove(i);
            proof {
                lemma_obj_view(fields@);
                lemma_assoc_remove_at(s0, key@, i as int);
                lemma_assoc_get_at(s0, key@, i as int);
                assert(obj_view(fields@) =~= s0.remove(i as int));
            }
            true
        },
        None => {
            proof {
                lemma_assoc_remove_missing(s0, key@);
                lemma_assoc_get_missing(s0, key@);
                assert(assoc_remove(s0, key@) =~= s0);
            }
            false
        },
    }
}

} // verus!
