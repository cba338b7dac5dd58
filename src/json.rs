//! A JSON document tree and the overlay merge over it.
use vstd::prelude::*;
use vstd::string::*;

verus! {

broadcast use vstd::std_specs::vec::group_vec_axioms;

/// A JSON value. Numbers keep their textual form; objects keep their
/// entries in order.
#[derive(Debug, PartialEq, Eq)]
pub enum Json {
    Null,
    Bool(bool),
    Number(String),
    Str(String),
    Array(Vec<Json>),
    Object(Vec<(String, Json)>),
}

/// The mathematical model of a `Json` value.
pub ghost enum JsonV {
    Null,
    Bool(bool),
    Number(Seq<char>),
    Str(Seq<char>),
    Array(Seq<JsonV>),
    Object(Seq<(Seq<char>, JsonV)>),
}

pub type Fields = Seq<(Seq<char>, JsonV)>;

impl Json {
    pub open spec fn view(&self) -> JsonV
        decreases self,
    {
        match self {
            Json::Null => JsonV::Null,
            Json::Bool(b) => JsonV::Bool(*b),
            Json::Number(n) => JsonV::Number(n@),
            Json::Str(s) => JsonV::Str(s@),
            Json::Array(items) => JsonV::Array(
                Seq::new(
                    items.len() as nat,
                    |i: int|
                        if 0 <= i < items.len() {
                            items[i].view()
                        } else {
                            JsonV::Null
                        },
                ),
            ),
            Json::Object(entries) => JsonV::Object(
                Seq::new(
                    entries.len() as nat,
                    |i: int|
                        if 0 <= i < entries.len() {
                            (entries[i].0@, entries[i].1.view())
                        } else {
                            (Seq::empty(), JsonV::Null)
                        },
                ),
            ),
        }
    }
}


/// The model of a list of object entries.
pub open spec fn fields_of(entries: Seq<(String, Json)>) -> Fields {
    Seq::new(entries.len(), |i: int| (entries[i].0@, entries[i].1@))
}

/// Position of the first entry of `fs` whose key is `k`, or -1 where none is.
pub open spec fn key_index(fs: Fields, k: Seq<char>) -> int
    decreases fs.len(),
{
    if fs.len() == 0 {
        -1
    } else {
        let i = key_index(fs.drop_last(), k);
        if i >= 0 {
            i
        } else if fs.last().0 == k {
            fs.len() - 1
        } else {
            -1
        }
    }
}

/// The value stored under key `k` in an object model, if any.
pub open spec fn field(v: JsonV, k: Seq<char>) -> Option<JsonV> {
    match v {
        JsonV::Object(fs) => {
            let i = key_index(fs, k);
            if i >= 0 {
                Some(fs[i].1)
            } else {
                None
            }
        },
        _ => None,
    }
}

/// The first `n` entries of the overlay `over` merged, in order, into `base`.
/// An entry whose key is new is appended; one whose key is present replaces
/// the present value, except that two objects are merged entry by entry.
pub open spec fn merge_fields(base: Fields, over: Fields, n: nat) -> Fields
    recommends
        n <= over.len(),
    decreases over, n,
{
    if n == 0 || n > over.len() {
        base
    } else {
        let acc = merge_fields(base, over, (n - 1) as nat);
        let k = over[n - 1].0;
        let v = over[n - 1].1;
        let i = key_index(acc, k);
        if i < 0 {
            acc.push((k, v))
        } else {
            let cur = acc[i].1;
            let merged_value = match (cur, v) {
                (JsonV::Object(cf), JsonV::Object(vf)) => JsonV::Object(
                    merge_fields(cf, vf, vf.len()),
                ),
                _ => v,
            };
            acc.update(i, (k, merged_value))
        }
    }
}

/// `over` laid over `base`: two objects merge key by key, recursively;
/// any other overlay value replaces the base value outright.
pub open spec fn merged(base: JsonV, over: JsonV) -> JsonV {
    match (base, over) {
        (JsonV::Object(bf), JsonV::Object(of)) => JsonV::Object(merge_fields(bf, of, of.len())),
        _ => over,
    }
}

pub proof fn lemma_key_index(fs: Fields, k: Seq<char>)
    ensures
        -1 <= key_index(fs, k) < fs.len(),
        key_index(fs, k) == -1 <==> forall|j: int| 0 <= j < fs.len() ==> fs[j].0 != k,
        key_index(fs, k) >= 0 ==> fs[key_index(fs, k)].0 == k,
        forall|j: int| 0 <= j < key_index(fs, k) ==> fs[j].0 != k,
    decreases fs.len(),
{
    if fs.len() > 0 {
        lemma_key_index(fs.drop_last(), k);
        assert forall|j: int| 0 <= j < fs.len() - 1 implies fs.drop_last()[j] == fs[j] by {}
    }
}

pub proof fn lemma_object_view(entries: Vec<(String, Json)>)
    ensures
        Json::Object(entries)@ == JsonV::Object(fields_of(entries@)),
{
    assert(Json::Object(entries)@->Object_0 =~= fields_of(entries@));
}

pub proof fn lemma_array_view(items: Vec<Json>)
    ensures
        Json::Array(items)@ == JsonV::Array(Seq::new(items.len() as nat, |i: int| items[i]@)),
{
    assert(Json::Array(items)@->Array_0 =~= Seq::new(items.len() as nat, |i: int| items[i]@));
}

/// No two entries share a key.
pub open spec fn keys_unique(fs: Fields) -> bool {
    forall|i: int, j: int| 0 <= i < j < fs.len() ==> fs[i].0 != fs[j].0
}

pub proof fn lemma_key_index_push(fs: Fields, e: (Seq<char>, JsonV), k: Seq<char>)
    ensures
        key_index(fs.push(e), k) == (if key_index(fs, k) >= 0 {
            key_index(fs, k)
        } else if e.0 == k {
            fs.len() as int
        } else {
            -1
        }),
{
    assert(fs.push(e).drop_last() =~= fs);
}

proof fn lemma_key_index_update(fs: Fields, i: int, x: JsonV, k: Seq<char>)
    requires
        0 <= i < fs.len(),
    ensures
        key_index(fs.update(i, (fs[i].0, x)), k) == key_index(fs, k),
    decreases fs.len(),
{
    let u = fs.update(i, (fs[i].0, x));
    if i < fs.len() - 1 {
        lemma_key_index_update(fs.drop_last(), i, x, k);
        assert(u.drop_last() =~= fs.drop_last().update(i, (fs[i].0, x)));
    } else {
        assert(u.drop_last() =~= fs.drop_last());
    }
}

/// Binding a key changes what that key looks up to, and nothing else.
pub proof fn lemma_field_set(v: JsonV, k2: Seq<char>, x: JsonV, k: Seq<char>)
    requires
        v is Object,
    ensures
        set_field(v, k2, x) is Object,
        field(set_field(v, k2, x), k) == (if k == k2 {
            Some(x)
        } else {
            field(v, k)
        }),
{
    let fs = v->Object_0;
    let i = key_index(fs, k2);
    lemma_key_index(fs, k2);
    lemma_key_index(fs, k);
    if i >= 0 {
        lemma_key_index_update(fs, i, x, k);
        assert(fs.update(i, (k2, x)) == fs.update(i, (fs[i].0, x)));
    } else {
        lemma_key_index_push(fs, (k2, x), k);
    }
}

proof fn lemma_merge_fields_lookup(base: Fields, over: Fields, n: nat, k: Seq<char>)
    requires
        n <= over.len(),
        keys_unique(over),
    ensures
        (forall|p: int| 0 <= p < n ==> over[p].0 != k) ==> field(
            JsonV::Object(merge_fields(base, over, n)),
            k,
        ) == field(JsonV::Object(base), k),
        forall|p: int|
            0 <= p < n && over[p].0 == k && !(over[p].1 is Object) ==> field(
                JsonV::Object(merge_fields(base, over, n)),
                k,
            ) == Some(over[p].1),
    decreases n,
{
    if n > 0 {
        lemma_merge_fields_lookup(base, over, (n - 1) as nat, k);
        let acc = merge_fields(base, over, (n - 1) as nat);
        let k2 = over[n - 1].0;
        let v = over[n - 1].1;
        let i = key_index(acc, k2);
        let x = if i < 0 {
            v
        } else {
            match (acc[i].1, v) {
                (JsonV::Object(cf), JsonV::Object(vf)) => JsonV::Object(
                    merge_fields(cf, vf, vf.len()),
                ),
                _ => v,
            }
        };
        assert(JsonV::Object(merge_fields(base, over, n)) == set_field(JsonV::Object(acc), k2, x));
        lemma_field_set(JsonV::Object(acc), k2, x, k);
        assert forall|p: int|
            0 <= p < n && over[p].0 == k && !(over[p].1 is Object) implies field(
            JsonV::Object(merge_fields(base, over, n)),
            k,
        ) == Some(over[p].1) by {
            if p < n - 1 {
                assert(over[p].0 != over[n - 1].0);
            }
        }
    }
}

proof fn lemma_merge_fields_disjoint(base: Fields, over: Fields, n: nat)
    requires
        n <= over.len(),
        keys_unique(over),
        forall|i: int, j: int| 0 <= i < base.len() && 0 <= j < over.len() ==> base[i].0 != over[j].0,
    ensures
        merge_fields(base, over, n) == base + over.take(n as int),
    decreases n,
{
    if n == 0 {
        assert(base + over.take(0) =~= base);
    } else {
        lemma_merge_fields_disjoint(base, over, (n - 1) as nat);
        let acc = base + over.take(n - 1);
        let k = over[n - 1].0;
        lemma_key_index(acc, k);
        assert forall|j: int| 0 <= j < acc.len() implies acc[j].0 != k by {
            if j < base.len() {
                assert(base[j].0 != over[n - 1].0);
            } else {
                assert(acc[j] == over[j - base.len()]);
            }
        }
        assert(acc.push(over[n - 1]) =~= base + over.take(n as int));
    }
}

/// Merging two objects whose keys are disjoint gives the base entries
/// followed by the overlay entries.
pub proof fn lemma_merge_disjoint(base: Fields, over: Fields)
    requires
        keys_unique(over),
        forall|i: int, j: int| 0 <= i < base.len() && 0 <= j < over.len() ==> base[i].0 != over[j].0,
    ensures
        merged(JsonV::Object(base), JsonV::Object(over)) == JsonV::Object(base + over),
{
    lemma_merge_fields_disjoint(base, over, over.len());
    assert(over.take(over.len() as int) =~= over);
}

/// Looking a key up after a merge of two objects: a key that the overlay
/// lacks keeps its base value, and one that the overlay binds to anything
/// but an object takes the overlay's value.
pub proof fn lemma_field_merged(b: JsonV, o: JsonV, k: Seq<char>)
    requires
        b is Object,
        o is Object,
        keys_unique(o->Object_0),
    ensures
        merged(b, o) is Object,
        field(o, k) is None ==> field(merged(b, o), k) == field(b, k),
        field(o, k) is Some && !(field(o, k)->0 is Object) ==> field(merged(b, o), k) == field(
            o,
            k,
        ),
{
    let of = o->Object_0;
    lemma_key_index(of, k);
    lemma_merge_fields_lookup(b->Object_0, of, of.len(), k);
    if field(o, k) is Some {
        let p = key_index(of, k);
        assert(of[p].0 == k);
    }
}

impl Json {
    /// A copy of the value that shares nothing with it.
    pub fn deep_copy(&self) -> (r: Json)
        ensures
            r@ == self@,
        decreases self,
    {
        match self {
            Json::Null => Json::Null,
            Json::Bool(b) => Json::Bool(*b),
            Json::Number(n) => Json::Number(n.clone()),
            Json::Str(s) => Json::Str(s.clone()),
            Json::Array(items) => {
                let mut out: Vec<Json> = Vec::new();
                let mut i: usize = 0;
                while i < items.len()
                    invariant
                        i <= items.len(),
                        *self == Json::Array(*items),
                        out.len() == i,
                        forall|j: int| 0 <= j < i ==> out[j]@ == items[j]@,
                    decreases items.len() - i,
                {
                    proof {
                        assert(decreases_to!(*self => self->Array_0));
                        assert(decreases_to!(*items => items[i as int]));
                        assert(decreases_to!(*self => items[i as int]));
                    }
                    out.push(items[i].deep_copy());
                    i = i + 1;
                }
                proof {
                    lemma_array_view(out);
                    lemma_array_view(*items);
                    assert(Seq::new(out.len() as nat, |i: int| out[i]@) =~= Seq::new(
                        items.len() as nat,
                        |i: int| items[i]@,
                    ));
                }
                Json::Array(out)
            },
            Json::Object(entries) => {
                let mut out: Vec<(String, Json)> = Vec::new();
                let mut i: usize = 0;
                while i < entries.len()
                    invariant
                        i <= entries.len(),
                        *self == Json::Object(*entries),
                        out.len() == i,
                        forall|j: int|
                            0 <= j < i ==> out[j].0@ == entries[j].0@ && out[j].1@ == entries[j].1@,
                    decreases entries.len() - i,
                {
                    proof {
                        assert(decreases_to!(*self => self->Object_0));
                        assert(decreases_to!(*entries => entries[i as int]));
                        assert(decreases_to!(entries[i as int] => entries[i as int].1));
                        assert(decreases_to!(*self => entries[i as int].1));
                    }
                    out.push((entries[i].0.clone(), entries[i].1.deep_copy()));
                    i = i + 1;
                }
                proof {
                    lemma_object_view(out);
                    lemma_object_view(*entries);
                    assert(fields_of(out@) =~= fields_of(entries@));
                }
                Json::Object(out)
            },
        }
    }
}

/// Position of the first entry with key `k`.
pub fn find_key(entries: &Vec<(String, Json)>, k: &String) -> (r: Option<usize>)
    ensures
        match r {
            Some(i) => i < entries.len() && key_index(fields_of(entries@), k@) == i,
            None => key_index(fields_of(entries@), k@) == -1,
        },
{
    let ghost fs = fields_of(entries@);
    proof {
        lemma_key_index(fs, k@);
    }
    let mut i: usize = 0;
    while i < entries.len()
        invariant
            i <= entries.len(),
            fs == fields_of(entries@),
            forall|j: int| 0 <= j < i ==> fs[j].0 != k@,
        decreases entries.len() - i,
    {
        if entries[i].0 == *k {
            proof {
                lemma_key_index(fs, k@);
                let m = key_index(fs, k@);
                assert(fs[i as int].0 == k@);
                if 0 <= m < i {
                    assert(fs[m].0 == k@);
                }
            }
            return Some(i);
        }
        i = i + 1;
    }
    proof {
        lemma_key_index(fs, k@);
    }
    None
}

/// The entry list of an object model with `k` bound to `x`: a present key
/// keeps its place, a new one goes last. Other values are left as they are.
pub open spec fn set_field(v: JsonV, k: Seq<char>, x: JsonV) -> JsonV {
    match v {
        JsonV::Object(fs) => {
            let i = key_index(fs, k);
            if i >= 0 {
                JsonV::Object(fs.update(i, (k, x)))
            } else {
                JsonV::Object(fs.push((k, x)))
            }
        },
        _ => v,
    }
}

impl Json {
    /// The value stored under `key`, where this is an object that has it.
    pub fn get(&self, key: &str) -> (r: Option<&Json>)
        ensures
            match r {
                Some(v) => field(self@, key@) == Some(v@),
                None => field(self@, key@) is None,
            },
    {
        match self {
            Json::Object(entries) => {
                proof {
                    lemma_object_view(*entries);
                }
                let k = String::from_str(key);
                match find_key(entries, &k) {
                    Some(i) => Some(&entries[i].1),
                    None => None,
                }
            },
            _ => None,
        }
    }

    /// Binds `key` to `value` in this object.
    pub fn set(&mut self, key: &str, value: Json)
        requires
            old(self)@ is Object,
        ensures
            final(self)@ == set_field(old(self)@, key@, value@),
            final(self)@ is Object,
    {
        let mut taken = Json::Null;
        std::mem::swap(self, &mut taken);
        match taken {
            Json::Object(mut entries) => {
                proof {
                    lemma_object_view(entries);
                }
                let ghost fs = fields_of(entries@);
                let k = String::from_str(key);
                match find_key(&entries, &k) {
                    Some(i) => {
                        entries.remove(i);
                        entries.insert(i, (k, value));
                        assert(fields_of(entries@) =~= fs.update(i as int, (key@, value@)));
                    },
                    None => {
                        entries.push((k, value));
                        assert(fields_of(entries@) =~= fs.push((key@, value@)));
                    },
                }
                proof {
                    lemma_object_view(entries);
                }
                *self = Json::Object(entries);
            },
            _ => {
                *self = taken;
            },
        }
    }
}

/// Lays `overlay` over `base`: objects merge key by key, recursively, and
/// keys that the overlay lacks keep their base values; any other overlay
/// value replaces the base value outright.
pub fn deep_merge(base: &mut Json, overlay: &Json)
    ensures
        final(base)@ == merged(old(base)@, overlay@),
    decreases overlay,
{
    match overlay {
        Json::Object(over) => {
            let mut taken = Json::Null;
            std::mem::swap(base, &mut taken);
            match taken {
                Json::Object(mut entries) => {
                    proof {
                        lemma_object_view(entries);
                    }
                    let ghost base_fields = fields_of(entries@);
                    let ghost over_fields = fields_of(over@);
                    let mut j: usize = 0;
                    while j < over.len()
                        invariant
                            j <= over.len(),
                            *overlay == Json::Object(*over),
                            over_fields == fields_of(over@),
                            fields_of(entries@) == merge_fields(base_fields, over_fields, j as nat),
                        decreases over.len() - j,
                    {
                        let key = &over[j].0;
                        let value = &over[j].1;
                        let ghost acc = fields_of(entries@);
                        match find_key(&entries, key) {
                            Some(i) => {
                                proof {
                                    lemma_key_index(acc, key@);
                                    assert(decreases_to!(*overlay => overlay->Object_0));
                                    assert(decreases_to!(*over => over[j as int]));
                                    assert(decreases_to!(over[j as int] => over[j as int].1));
                                    assert(decreases_to!(*overlay => over[j as int].1));
                                }
                                let (k0, mut child) = entries.remove(i);
                                deep_merge(&mut child, value);
                                entries.insert(i, (k0, child));
                                assert(fields_of(entries@) =~= acc.update(
                                    i as int,
                                    (key@, merged(acc[i as int].1, value@)),
                                ));
                            },
                            None => {
                                entries.push((key.clone(), value.deep_copy()));
                                assert(fields_of(entries@) =~= acc.push((key@, value@)));
                            },
                        }
                        j = j + 1;
                    }
                    proof {
                        lemma_object_view(entries);
                        lemma_object_view(*over);
                    }
                    *base = Json::Object(entries);
                },
                _ => {
                    *base = overlay.deep_copy();
                },
            }
        },
        _ => {
            *base = overlay.deep_copy();
        },
    }
}

} // verus!
