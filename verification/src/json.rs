use vstd::prelude::*;

verus! {

/// A JSON value as the bot exchanges it with the JSON-RPC service. Numbers
/// that fit in an `i64` are `Int`; any other number keeps its JSON text.
#[derive(Debug)]
pub enum JsonValue {
    Null,
    Bool(bool),
    Int(i64),
    Number(String),
    Text(String),
    Array(Vec<JsonValue>),
    Object(Vec<(String, JsonValue)>),
}

/// Member `i` of `fields` is the first one with key `k`.
pub open spec fn first_match(fields: Seq<(String, JsonValue)>, k: Seq<char>, i: int) -> bool {
    &&& 0 <= i < fields.len()
    &&& fields[i].0@ == k
    &&& forall|j: int| 0 <= j < i ==> (#[trigger] fields[j]).0@ != k
}

/// The value of the member `k` of an object (its first member with that key),
/// if the object has one; `None` for anything that is not an object.
pub open spec fn member(v: JsonValue, k: Seq<char>) -> Option<JsonValue> {
    match v {
        JsonValue::Object(fields) => {
            if exists|i: int| first_match(fields@, k, i) {
                Some(fields@[choose|i: int| first_match(fields@, k, i)].1)
            } else {
                None
            }
        },
        _ => None,
    }
}

proof fn lemma_first_match_unique(fields: Seq<(String, JsonValue)>, k: Seq<char>, i: int, j: int)
    requires
        first_match(fields, k, i),
        first_match(fields, k, j),
    ensures
        i == j,
{
    if i < j {
        assert(fields[i].0@ != k);
    } else if j < i {
        assert(fields[j].0@ != k);
    }
}

proof fn lemma_member_is(fields: Vec<(String, JsonValue)>, k: Seq<char>, i: int)
    requires
        first_match(fields@, k, i),
    ensures
        member(JsonValue::Object(fields), k) == Some(fields@[i].1),
{
    let j = choose|j: int| first_match(fields@, k, j);
    lemma_first_match_unique(fields@, k, i, j);
}

fn find_member(fields: &Vec<(String, JsonValue)>, key: &String) -> (r: Option<usize>)
    ensures
        r matches Some(i) ==> first_match(fields@, key@, i as int),
        r is None ==> forall|j: int| 0 <= j < fields@.len() ==> (#[trigger] fields@[j]).0@ != key@,
{
    let mut i: usize = 0;
    while i < fields.len()
        invariant
            i <= fields@.len(),
            forall|j: int| 0 <= j < i ==> (#[trigger] fields@[j]).0@ != key@,
        decreases fields@.len() - i,
    {
        if fields[i].0 == *key {
            return Some(i);
        }
        i = i + 1;
    }
    None
}

/// Sets member `key` of an object to `value`: the member is replaced where
/// the object has it, added at the end otherwise. Anything that is not an
/// object stays as it is. (This is what `serde_json::Map::insert` does to the
/// map of an object.)
pub fn object_insert(v: &mut JsonValue, key: String, value: JsonValue)
    ensures
        (*old(v) is Object) == (*final(v) is Object),
        !(*old(v) is Object) ==> *final(v) == *old(v),
        *old(v) is Object ==> member(*final(v), key@) == Some(value),
        *old(v) is Object ==> forall|k: Seq<char>|
            k != key@ ==> #[trigger] member(*final(v), k) == member(*old(v), k),
{
    match v {
        JsonValue::Object(fields) => {
            let ghost old_fields = *fields;
            let ghost kv = key@;
            let found = find_member(fields, &key);
            let i: usize = match found {
                Some(j) => j,
                None => fields.len(),
            };
            if i < fields.len() {
                let k = fields[i].0.clone();
                fields.set(i, (k, value));
                proof {
                    let nf = *fields;
                    assert(first_match(nf@, kv, i as int));
                    lemma_member_is(nf, kv, i as int);
                    assert forall|kk: Seq<char>| kk != kv implies #[trigger] member(
                        JsonValue::Object(nf),
                        kk,
                    ) == member(JsonValue::Object(old_fields), kk) by {
                        assert forall|j: int| #[trigger]
                            first_match(nf@, kk, j) == first_match(old_fields@, kk, j) by {
                            if 0 <= j < nf@.len() {
                                assert(nf@[j].0@ == old_fields@[j].0@);
                            }
                            assert forall|l: int| 0 <= l < j && l < nf@.len() implies nf@[l].0@
                                == old_fields@[l].0@ by {}
                        }
                        if exists|j: int| first_match(old_fields@, kk, j) {
                            let j = choose|j: int| first_match(old_fields@, kk, j);
                            assert(first_match(nf@, kk, j));
                            lemma_member_is(nf, kk, j);
                            lemma_member_is(old_fields, kk, j);
                            assert(j != i);
                        }
                    }
                }
            } else {
                let ghost n = fields@.len();
                fields.push((key, value));
                proof {
                    let nf = *fields;
                    assert(first_match(nf@, kv, n as int));
                    lemma_member_is(nf, kv, n as int);
                    assert forall|kk: Seq<char>| kk != kv implies #[trigger] member(
                        JsonValue::Object(nf),
                        kk,
                    ) == member(JsonValue::Object(old_fields), kk) by {
                        assert forall|j: int| #[trigger]
                            first_match(nf@, kk, j) == first_match(old_fields@, kk, j) by {
                            if 0 <= j < n {
                                assert(nf@[j] == old_fields@[j]);
                            }
                            assert forall|l: int| 0 <= l < j && l < n implies nf@[l]
                                == old_fields@[l] by {}
                        }
                        if exists|j: int| first_match(old_fields@, kk, j) {
                            let j = choose|j: int| first_match(old_fields@, kk, j);
                            assert(first_match(nf@, kk, j));
                            lemma_member_is(nf, kk, j);
                            lemma_member_is(old_fields, kk, j);
                        }
                    }
                }
            }
        },
        _ => {},
    }
}

} // verus!
