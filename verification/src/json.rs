//! JSON values, as a client or the configuration gives them, and how a value deep inside one is
//! set.

use serde_json::Value;
use vstd::prelude::*;
use vstd::string::*;

verus! {

/// A JSON value, opaque here but for what `object_fields` says of it.
#[verifier::external_type_specification]
#[verifier::external_body]
pub struct ExValue(serde_json::Value);

/// The fields of a JSON object, opaque here but for what `map_fields` says of them.
#[verifier::external_type_specification]
#[verifier::external_body]
#[verifier::reject_recursive_types(K)]
#[verifier::reject_recursive_types(V)]
pub struct ExMap<K, V>(serde_json::Map<K, V>);

/// The fields of a JSON object by their names; nothing where the value is no object.
pub uninterp spec fn object_fields(v: Value) -> Option<Map<Seq<char>, Value>>;

/// What a map of fields holds.
pub uninterp spec fn map_fields(m: serde_json::Map<String, Value>) -> Map<Seq<char>, Value>;

/// Calls `Value::as_object_mut`: the fields of an object, to be changed in place, and nothing for
/// any other value.
#[verifier::external_body]
fn as_object_mut<'a>(v: &'a mut Value) -> (r: Option<&'a mut serde_json::Map<String, Value>>)
    ensures
        match r {
            Some(m) => object_fields(*old(v)) == Some(map_fields(*m)) && object_fields(*final(v))
                == Some(map_fields(*final(m))),
            None => object_fields(*old(v)) is None && *final(v) == *old(v),
        },
{
    v.as_object_mut()
}

/// Calls `serde_json::Map::insert`: the field gets the value, whether or not it was there. What
/// was there before is dropped.
#[verifier::external_body]
fn insert_field(m: &mut serde_json::Map<String, Value>, name: &str, value: Value)
    ensures
        map_fields(*final(m)) == map_fields(*old(m)).insert(name@, value),
{
    let _ = m.insert(name.to_string(), value);
}

/// Calls `serde_json::Map::contains_key`.
#[verifier::external_body]
fn has_field(m: &serde_json::Map<String, Value>, name: &str) -> (r: bool)
    ensures
        r == map_fields(*m).dom().contains(name@),
{
    m.contains_key(name)
}

/// Calls `serde_json::Map::get_mut`: the value of a field, to be changed in place.
#[verifier::external_body]
fn field_mut<'a>(m: &'a mut serde_json::Map<String, Value>, name: &str) -> (r: Option<
    &'a mut Value,
>)
    ensures
        match r {
            Some(v) => map_fields(*old(m)).dom().contains(name@) && *v == map_fields(
                *old(m),
            )[name@] && map_fields(*final(m)) == map_fields(*old(m)).insert(name@, *final(v)),
            None => !map_fields(*old(m)).dom().contains(name@) && *final(m) == *old(m),
        },
{
    m.get_mut(name)
}

/// Calls `serde_json::Map::new`: an object without fields.
#[verifier::external_body]
fn empty_object() -> (r: Value)
    ensures
        object_fields(r) == Some(Map::<Seq<char>, Value>::empty()),
{
    Value::Object(serde_json::Map::new())
}

/// What `Value::as_u64` gives.
pub uninterp spec fn value_u64(v: Value) -> Option<u64>;

/// What `Value::as_bool` gives.
pub uninterp spec fn value_bool(v: Value) -> Option<bool>;

/// The text that `Value::as_str` gives.
pub uninterp spec fn value_str(v: Value) -> Option<Seq<char>>;

/// The items of the array that `Value::as_array` gives.
pub uninterp spec fn array_items(v: Value) -> Option<Seq<Value>>;

/// The value of a field, if the value is an object that has it.
pub open spec fn field(v: Value, name: Seq<char>) -> Option<Value> {
    match object_fields(v) {
        Some(fields) => if fields.dom().contains(name) {
            Some(fields[name])
        } else {
            None
        },
        None => None,
    }
}

/// Calls `Value::get` with the name of a field.
#[verifier::external_body]
fn get_field<'a>(v: &'a Value, name: &str) -> (r: Option<&'a Value>)
    ensures
        match r {
            Some(x) => field(*v, name@) == Some(*x),
            None => field(*v, name@) is None,
        },
{
    v.get(name)
}

/// Calls `Value::as_u64`.
#[verifier::external_body]
fn as_u64(v: &Value) -> (r: Option<u64>)
    ensures
        r == value_u64(*v),
{
    v.as_u64()
}

/// Calls `Value::as_bool`.
#[verifier::external_body]
fn as_bool(v: &Value) -> (r: Option<bool>)
    ensures
        r == value_bool(*v),
{
    v.as_bool()
}

/// Calls `Value::as_str`.
#[verifier::external_body]
fn as_str<'a>(v: &'a Value) -> (r: Option<&'a str>)
    ensures
        match r {
            Some(s) => value_str(*v) == Some(s@),
            None => value_str(*v) is None,
        },
{
    v.as_str()
}

/// Calls `Value::as_array`.
#[verifier::external_body]
pub(crate) fn as_array<'a>(v: &'a Value) -> (r: Option<&'a Vec<Value>>)
    ensures
        match r {
            Some(items) => array_items(*v) == Some(items@),
            None => array_items(*v) is None,
        },
{
    v.as_array()
}

pub open spec fn field_u64(v: Value, name: Seq<char>) -> Option<u64> {
    match field(v, name) {
        Some(x) => value_u64(x),
        None => None,
    }
}

pub open spec fn field_bool(v: Value, name: Seq<char>) -> Option<bool> {
    match field(v, name) {
        Some(x) => value_bool(x),
        None => None,
    }
}

pub open spec fn field_str(v: Value, name: Seq<char>) -> Option<Seq<char>> {
    match field(v, name) {
        Some(x) => value_str(x),
        None => None,
    }
}

pub open spec fn field_items(v: Value, name: Seq<char>) -> Option<Seq<Value>> {
    match field(v, name) {
        Some(x) => array_items(x),
        None => None,
    }
}

/// The number in a field.
pub fn u64_field(v: &Value, name: &str) -> (r: Option<u64>)
    ensures
        r == field_u64(*v, name@),
{
    match get_field(v, name) {
        Some(x) => as_u64(x),
        None => None,
    }
}

/// The truth value in a field.
pub fn bool_field(v: &Value, name: &str) -> (r: Option<bool>)
    ensures
        r == field_bool(*v, name@),
{
    match get_field(v, name) {
        Some(x) => as_bool(x),
        None => None,
    }
}

/// The text in a field.
pub fn str_field<'a>(v: &'a Value, name: &str) -> (r: Option<&'a str>)
    ensures
        match r {
            Some(s) => field_str(*v, name@) == Some(s@),
            None => field_str(*v, name@) is None,
        },
{
    match get_field(v, name) {
        Some(x) => as_str(x),
        None => None,
    }
}

/// The items of the array in a field.
pub fn array_field<'a>(v: &'a Value, name: &str) -> (r: Option<&'a Vec<Value>>)
    ensures
        match r {
            Some(items) => field_items(*v, name@) == Some(items@),
            None => field_items(*v, name@) is None,
        },
{
    match get_field(v, name) {
        Some(x) => as_array(x),
        None => None,
    }
}

/// The fields below a name: those of the object there, or none yet where nothing is there.
pub open spec fn fields_below(fields: Map<Seq<char>, Value>, name: Seq<char>) -> Option<
    Map<Seq<char>, Value>,
> {
    if fields.dom().contains(name) {
        object_fields(fields[name])
    } else {
        Some(Map::empty())
    }
}

/// Whether the path leads through objects, as far as there is anything on it.
pub open spec fn can_set(fields: Option<Map<Seq<char>, Value>>, path: Seq<Seq<char>>) -> bool
    decreases path.len(),
{
    fields is Some && (path.len() <= 1 || can_set(
        fields_below(fields->0, path[0]),
        path.drop_first(),
    ))
}

/// Whether `after` is `before` with the value at the end of the path set, and objects on the path
/// added where there was nothing.
pub open spec fn is_set(
    before: Option<Map<Seq<char>, Value>>,
    after: Option<Map<Seq<char>, Value>>,
    path: Seq<Seq<char>>,
    value: Value,
) -> bool
    decreases path.len(),
{
    &&& before is Some
    &&& after is Some
    &&& after->0.dom() == before->0.dom().insert(path[0])
    &&& forall|name: Seq<char>|
        before->0.dom().contains(name) && name != path[0] ==> #[trigger] after->0[name]
            == before->0[name]
    &&& if path.len() <= 1 {
        after->0[path[0]] == value
    } else {
        is_set(
            fields_below(before->0, path[0]),
            object_fields(after->0[path[0]]),
            path.drop_first(),
            value,
        )
    }
}

fn set_from(v: &mut Value, path: &Vec<String>, i: usize, value: Value) -> (r: bool)
    requires
        i < path@.len(),
    ensures
        r == can_set(object_fields(*old(v)), crate::text::views(path@).skip(i as int)),
        r ==> is_set(
            object_fields(*old(v)),
            object_fields(*final(v)),
            crate::text::views(path@).skip(i as int),
            value,
        ),
    decreases path@.len() - i,
{
    let ghost rest = crate::text::views(path@).skip(i as int);
    let ghost before = object_fields(*v);
    assert(rest[0] == path@[i as int]@);
    let n: usize = path.len();
    match as_object_mut(v) {
        None => false,
        Some(obj) => {
            let name = path[i].as_str();
            if i == n - 1 {
                insert_field(obj, name, value);
                assert(map_fields(*obj).dom() =~= before->0.dom().insert(name@));
                true
            } else {
                if !has_field(obj, name) {
                    insert_field(obj, name, empty_object());
                }
                let ghost opened = map_fields(*obj);
                assert(rest.drop_first() =~= crate::text::views(path@).skip(i + 1));
                assert(object_fields(opened[name@]) == fields_below(before->0, name@));
                assert forall|x: Value|
                    (#[trigger] opened.insert(name@, x)).dom() == before->0.dom().insert(name@) by {
                    assert(opened.insert(name@, x).dom() =~= before->0.dom().insert(name@));
                }
                match field_mut(obj, name) {
                    None => false,
                    Some(child) => set_from(child, path, i + 1, value),
                }
            }
        },
    }
}

/// Sets the value at the end of a path of names. The result says whether the path leads through
/// objects; otherwise the value is not set.
pub fn set_path(v: &mut Value, path: &Vec<String>, value: Value) -> (r: bool)
    requires
        path@.len() > 0,
    ensures
        r == can_set(object_fields(*old(v)), crate::text::views(path@)),
        r ==> is_set(
            object_fields(*old(v)),
            object_fields(*final(v)),
            crate::text::views(path@),
            value,
        ),
{
    assert(crate::text::views(path@).skip(0) =~= crate::text::views(path@));
    set_from(v, path, 0, value)
}

/// What stands at the end of a path.
pub open spec fn at_path(fields: Option<Map<Seq<char>, Value>>, path: Seq<Seq<char>>) -> Option<
    Value,
>
    decreases path.len(),
{
    if fields is None || path.len() == 0 || !fields->0.dom().contains(path[0]) {
        None
    } else if path.len() == 1 {
        Some(fields->0[path[0]])
    } else {
        at_path(object_fields(fields->0[path[0]]), path.drop_first())
    }
}

/// What was set at a path is found there.
pub proof fn what_is_set_is_found(
    before: Option<Map<Seq<char>, Value>>,
    after: Option<Map<Seq<char>, Value>>,
    path: Seq<Seq<char>>,
    value: Value,
)
    requires
        path.len() > 0,
        is_set(before, after, path, value),
    ensures
        at_path(after, path) == Some(value),
    decreases path.len(),
{
    if path.len() > 1 {
        what_is_set_is_found(
            fields_below(before->0, path[0]),
            object_fields(after->0[path[0]]),
            path.drop_first(),
            value,
        );
    }
}

/// What stands at a path that parts from the one that was set is as it was.
pub proof fn other_paths_are_kept(
    before: Option<Map<Seq<char>, Value>>,
    after: Option<Map<Seq<char>, Value>>,
    path: Seq<Seq<char>>,
    value: Value,
    other: Seq<Seq<char>>,
    i: int,
)
    requires
        is_set(before, after, path, value),
        0 <= i < path.len(),
        i < other.len(),
        path[i] != other[i],
        forall|j: int| 0 <= j < i ==> path[j] == other[j],
    ensures
        at_path(after, other) == at_path(before, other),
    decreases path.len(),
{
    if i > 0 {
        let below = fields_below(before->0, path[0]);
        let inner = object_fields(after->0[path[0]]);
        assert(path[0] == other[0]);
        assert forall|j: int| 0 <= j < i - 1 implies path.drop_first()[j]
            == other.drop_first()[j] by {
            assert(path[j + 1] == other[j + 1]);
        }
        other_paths_are_kept(
            below,
            inner,
            path.drop_first(),
            value,
            other.drop_first(),
            i - 1,
        );
        if !before->0.dom().contains(path[0]) {
            assert(at_path(Some(Map::<Seq<char>, Value>::empty()), other.drop_first()) is None);
        }
    }
}

/// A field is read from an object under its own name, and nothing is read from what is no object.
pub proof fn fields_are_read_by_name(v: Value, fields: Map<Seq<char>, Value>, name: Seq<char>)
    ensures
        object_fields(v) is None ==> field(v, name) is None,
        object_fields(v) == Some(fields) && fields.dom().contains(name) ==> field(v, name) == Some(
            fields[name],
        ) && field_u64(v, name) == value_u64(fields[name]) && field_bool(v, name) == value_bool(
            fields[name],
        ) && field_str(v, name) == value_str(fields[name]) && field_items(v, name) == array_items(
            fields[name],
        ),
        object_fields(v) == Some(fields) && !fields.dom().contains(name) ==> field(v, name) is None
            && field_u64(v, name) is None && field_bool(v, name) is None && field_str(v, name)
            is None && field_items(v, name) is None,
{
}

/// A path can be set unless something on the way is no object; what is missing on the way is made.
pub proof fn paths_can_be_set_through_objects(
    fields: Map<Seq<char>, Value>,
    path: Seq<Seq<char>>,
)
    ensures
        !can_set(None, path),
        path.len() == 1 ==> can_set(Some(fields), path),
        path.len() == 2 && !fields.dom().contains(path[0]) ==> can_set(Some(fields), path),
        path.len() == 2 && fields.dom().contains(path[0]) ==> (can_set(Some(fields), path)
            <==> object_fields(fields[path[0]]) is Some),
        path.len() > 1 && fields.dom().contains(path[0]) && object_fields(fields[path[0]]) is None
            ==> !can_set(Some(fields), path),
{
    reveal_with_fuel(can_set, 3);
    if path.len() == 2 {
        assert(path.drop_first().len() == 1);
    }
}

/// Setting a path leaves every other field of the object, and makes the first name on the way a
/// field of it.
pub proof fn setting_a_path_keeps_the_other_fields(
    before: Option<Map<Seq<char>, Value>>,
    after: Option<Map<Seq<char>, Value>>,
    path: Seq<Seq<char>>,
    value: Value,
    name: Seq<char>,
)
    requires
        path.len() > 0,
        is_set(before, after, path, value),
    ensures
        after->0.dom().contains(path[0]),
        name != path[0] ==> after->0.dom().contains(name) == before->0.dom().contains(name),
        name != path[0] && before->0.dom().contains(name) ==> after->0[name] == before->0[name],
        path.len() == 1 ==> after->0[path[0]] == value,
        path.len() > 1 ==> object_fields(after->0[path[0]]) is Some,
{
    reveal_with_fuel(is_set, 2);
}

} // verus!
