//! Inference of Pydantic models from a JSON value.
//!
//! Each JSON object becomes one class. A member that holds an object, or an
//! array whose first element is an object, gets a class of its own, named after
//! the member's key; those classes are registered before the class that refers
//! to them.

use vstd::prelude::*;
use std::collections::VecDeque;
use crate::json::JsonValue;
use crate::names::{camel_to_snake_case, capitalize_first_letter, capitalized, snake_of};
use crate::registry::Models;

verus! {

/// The registry seen as (class name -> declaration text, emission order).
pub type Registry = (Map<Seq<char>, Seq<char>>, Seq<Seq<char>>);

/// The class names held in an emission-order queue.
pub open spec fn names_of(q: VecDeque<String>) -> Seq<Seq<char>> {
    q@.map_values(|s: String| s@)
}

/// Stores a declaration under its name and queues the name for output.
pub open spec fn register(r: Registry, name: Seq<char>, text: Seq<char>) -> Registry {
    (r.0.insert(name, text), r.1.push(name))
}

/// The Python type of a value that is not a container: `str`, `float`, `bool`,
/// and `Any` for everything else.
pub open spec fn scalar_type(v: JsonValue) -> Seq<char> {
    match v {
        JsonValue::String(_) => "str"@,
        JsonValue::Number(_) => "float"@,
        JsonValue::Bool(_) => "bool"@,
        _ => "Any"@,
    }
}

/// The element type of a list, from the list's first element.
pub open spec fn element_type(key: Seq<char>, first: JsonValue) -> Seq<char> {
    match first {
        JsonValue::Object(_) => capitalized(key),
        _ => scalar_type(first),
    }
}

/// The Python type declared for the member `key` holding `v`.
pub open spec fn field_type(key: Seq<char>, v: JsonValue) -> Seq<char> {
    match v {
        JsonValue::Array(a) => if a@.len() == 0 {
            "list"@
        } else {
            "list["@ + element_type(key, a@[0]) + "]"@
        },
        JsonValue::Object(_) => capitalized(key),
        _ => scalar_type(v),
    }
}

/// The alias clause that carries a member's wire name.
pub open spec fn alias_of(key: Seq<char>) -> Seq<char> {
    "alias=\""@ + key + "\""@
}

/// One optional field declaration.
pub open spec fn field_decl(name: Seq<char>, ty: Seq<char>, alias: Seq<char>) -> Seq<char> {
    name + ": "@ + ty + " | None = Field(None, "@ + alias + ")"@
}

/// The field declaration for the member `key` holding `v`.
pub open spec fn field_line(key: Seq<char>, v: JsonValue) -> Seq<char> {
    field_decl(snake_of(key), field_type(key, v), alias_of(key))
}

/// The indented field lines of an object's members, in member order.
pub open spec fn record_body(members: Seq<(String, JsonValue)>) -> Seq<char>
    decreases members.len(),
{
    if members.len() == 0 {
        Seq::empty()
    } else {
        record_body(members.drop_last()) + "    "@ + field_line(
            members.last().0@,
            members.last().1,
        ) + "\n"@
    }
}

/// The header line of the class `name`.
pub open spec fn class_header(name: Seq<char>) -> Seq<char> {
    "class "@ + name + "(BaseModel):\n"@
}

/// The declaration of the class `name` inferred from `v`. A value that is not an
/// object gives a class whose body is a bare ellipsis.
pub open spec fn record_text(name: Seq<char>, v: JsonValue) -> Seq<char> {
    class_header(name) + match v {
        JsonValue::Object(members) => record_body(members@),
        _ => "    ...\n"@,
    }
}

/// The registry after inferring the class `name` from `v`: the classes of its
/// members first, in member order, then `name` itself.
pub open spec fn build(v: JsonValue, name: Seq<char>, r: Registry) -> Registry
    decreases v, 1nat, 0nat,
{
    let inner = match v {
        JsonValue::Object(members) => build_members(v, members@.len(), r),
        _ => r,
    };
    register(inner, name, record_text(name, v))
}

/// The registry after visiting the first `n` members of the object `v`.
pub open spec fn build_members(v: JsonValue, n: nat, r: Registry) -> Registry
    decreases v, 0nat, n,
{
    match v {
        JsonValue::Object(members) => if n == 0 || n > members@.len() {
            r
        } else {
            build_field(
                members@[n - 1].0@,
                members@[n - 1].1,
                build_members(v, (n - 1) as nat, r),
            )
        },
        _ => r,
    }
}

/// The registry after visiting the member `key` holding `v`: an object, or the
/// first element of an array when that is an object, is built as a class named
/// after the key.
pub open spec fn build_field(key: Seq<char>, v: JsonValue, r: Registry) -> Registry
    decreases v, 2nat, 0nat,
{
    match v {
        JsonValue::Object(_) => build(v, capitalized(key), r),
        JsonValue::Array(a) => if a@.len() > 0 && a@[0] is Object {
            build(a@[0], capitalized(key), r)
        } else {
            r
        },
        _ => r,
    }
}

/// The Python type name of a value that is not a container.
pub fn scalar_type_name(v: &JsonValue) -> (r: &'static str)
    ensures
        r@ == scalar_type(*v),
{
    match v {
        JsonValue::String(_) => "str",
        JsonValue::Number(_) => "float",
        JsonValue::Bool(_) => "bool",
        _ => "Any",
    }
}

/// Writes one optional field declaration with the given type and alias clause.
fn field_decl_text(name: &str, ty: &str, alias: &str) -> (r: String)
    ensures
        r@ == field_decl(name@, ty@, alias@),
{
    let mut r: String = name.to_owned();
    r.append(": ");
    r.append(ty);
    r.append(" | None = Field(None, ");
    r.append(alias);
    r.append(")");
    r
}

/// Infers the class `model_name` from `json` and registers it, after every class
/// found inside it, in `models` and at the back of `order`.
pub fn to_pydantic(
    json: &JsonValue,
    model_name: &str,
    models: &mut Models,
    order: &mut VecDeque<String>,
)
    requires
        old(models).wf(),
    ensures
        final(models).wf(),
        (final(models)@, names_of(*final(order))) == build(
            *json,
            model_name@,
            (old(models)@, names_of(*old(order))),
        ),
        final(models)@.contains_key(model_name@),
        final(models)@[model_name@] == record_text(model_name@, *json),
    decreases json, 1nat, 0nat,
{
    let ghost start: Registry = (models@, names_of(*order));
    let mut result: String = String::new();
    result.append("class ");
    result.append(model_name);
    result.append("(BaseModel):\n");
    match json {
        JsonValue::Object(map) => {
            let mut i: usize = 0;
            while i < map.len()
                invariant
                    *json == JsonValue::Object(*map),
                    i <= map@.len(),
                    models.wf(),
                    (models@, names_of(*order)) == build_members(*json, i as nat, start),
                    result@ == class_header(model_name@) + record_body(map@.subrange(0, i as int)),
                decreases map@.len() - i,
            {
                let key: &str = map[i].0.as_str();
                let value: &JsonValue = &map[i].1;
                let ghost before = result@;
                let line = map_json_to_pydantic_field(key, value, model_name, models, order);
                result.append("    ");
                result.append(line.as_str());
                result.append("\n");
                proof {
                    let pre = map@.subrange(0, i + 1);
                    assert(pre.drop_last() =~= map@.subrange(0, i as int));
                    assert(result@ =~= class_header(model_name@) + record_body(pre));
                }
                i = i + 1;
            }
            assert(map@.subrange(0, map@.len() as int) =~= map@);
        },
        _ => {
            result.append("    ...\n");
        },
    }
    let ghost inner: Registry = (models@, names_of(*order));
    models.insert(model_name.to_owned(), result);
    order.push_back(model_name.to_owned());
    assert(names_of(*order) =~= inner.1.push(model_name@));
}

/// Declares the member `key` holding `value`; classes found inside the value are
/// registered on the way.
pub fn map_json_to_pydantic_field(
    key: &str,
    value: &JsonValue,
    model_name: &str,
    models: &mut Models,
    order: &mut VecDeque<String>,
) -> (r: String)
    requires
        old(models).wf(),
    ensures
        final(models).wf(),
        r@ == field_line(key@, *value),
        (final(models)@, names_of(*final(order))) == build_field(
            key@,
            *value,
            (old(models)@, names_of(*old(order))),
        ),
    decreases value, 3nat, 0nat,
{
    let snake_case_key = camel_to_snake_case(key);
    let mut alias: String = String::new();
    alias.append("alias=\"");
    alias.append(key);
    alias.append("\"");
    match value {
        JsonValue::Array(arr) => map_array_field(
            arr,
            key,
            snake_case_key,
            alias,
            model_name,
            models,
            order,
        ),
        JsonValue::Object(_) => map_object_field(
            value,
            key,
            snake_case_key,
            alias,
            model_name,
            models,
            order,
        ),
        _ => field_decl_text(snake_case_key.as_str(), scalar_type_name(value), alias.as_str()),
    }
}

/// Declares a member holding the array `arr`: a bare `list` when it is empty,
/// else a list of the type of its first element.
fn map_array_field(
    arr: &Vec<JsonValue>,
    key: &str,
    snake_case_key: String,
    alias: String,
    _model_name: &str,
    models: &mut Models,
    order: &mut VecDeque<String>,
) -> (r: String)
    requires
        old(models).wf(),
    ensures
        final(models).wf(),
        r@ == field_decl(
            snake_case_key@,
            field_type(key@, JsonValue::Array(*arr)),
            alias@,
        ),
        (final(models)@, names_of(*final(order))) == build_field(
            key@,
            JsonValue::Array(*arr),
            (old(models)@, names_of(*old(order))),
        ),
    decreases arr, 0nat, 0nat,
{
    if arr.len() == 0 {
        return field_decl_text(snake_case_key.as_str(), "list", alias.as_str());
    }
    let first: &JsonValue = &arr[0];
    let array_type: String = match first {
        JsonValue::Object(_) => {
            let sub_model_name = capitalize_first_letter(key);
            to_pydantic(first, sub_model_name.as_str(), models, order);
            sub_model_name
        },
        _ => scalar_type_name(first).to_owned(),
    };
    let mut ty: String = String::new();
    ty.append("list[");
    ty.append(array_type.as_str());
    ty.append("]");
    field_decl_text(snake_case_key.as_str(), ty.as_str(), alias.as_str())
}

/// Declares a member holding an object, whose class is named after the key.
fn map_object_field(
    value: &JsonValue,
    key: &str,
    snake_case_key: String,
    alias: String,
    _model_name: &str,
    models: &mut Models,
    order: &mut VecDeque<String>,
) -> (r: String)
    requires
        old(models).wf(),
        value is Object,
    ensures
        final(models).wf(),
        r@ == field_decl(snake_case_key@, field_type(key@, *value), alias@),
        (final(models)@, names_of(*final(order))) == build_field(
            key@,
            *value,
            (old(models)@, names_of(*old(order))),
        ),
    decreases value, 2nat, 0nat,
{
    let sub_model_name = capitalize_first_letter(key);
    to_pydantic(value, sub_model_name.as_str(), models, order);
    field_decl_text(snake_case_key.as_str(), sub_model_name.as_str(), alias.as_str())
}

/// Every name queued for output has a declaration.
pub open spec fn no_dangling(r: Registry) -> bool {
    forall|i: int| 0 <= i < r.1.len() ==> r.0.contains_key(#[trigger] r.1[i])
}

proof fn lemma_build_keeps(v: JsonValue, name: Seq<char>, r: Registry)
    ensures
        build(v, name, r).1.len() >= r.1.len() + 1,
        no_dangling(r) ==> no_dangling(build(v, name, r)),
    decreases v, 1nat, 0nat,
{
    if let JsonValue::Object(members) = v {
        lemma_members_keep(v, members@.len(), r);
    }
    let inner = match v {
        JsonValue::Object(members) => build_members(v, members@.len(), r),
        _ => r,
    };
    let out = build(v, name, r);
    if no_dangling(inner) {
        assert forall|i: int| 0 <= i < out.1.len() implies out.0.contains_key(
            #[trigger] out.1[i],
        ) by {
            if i < inner.1.len() {
                assert(out.1[i] == inner.1[i]);
            }
        }
    }
}

proof fn lemma_members_keep(v: JsonValue, n: nat, r: Registry)
    ensures
        build_members(v, n, r).1.len() >= r.1.len(),
        no_dangling(r) ==> no_dangling(build_members(v, n, r)),
    decreases v, 0nat, n,
{
    if let JsonValue::Object(members) = v {
        if n > 0 && n <= members@.len() {
            lemma_members_keep(v, (n - 1) as nat, r);
            lemma_field_keeps(
                members@[n - 1].0@,
                members@[n - 1].1,
                build_members(v, (n - 1) as nat, r),
            );
        }
    }
}

proof fn lemma_field_keeps(key: Seq<char>, v: JsonValue, r: Registry)
    ensures
        build_field(key, v, r).1.len() >= r.1.len(),
        no_dangling(r) ==> no_dangling(build_field(key, v, r)),
    decreases v, 2nat, 0nat,
{
    match v {
        JsonValue::Object(_) => lemma_build_keeps(v, capitalized(key), r),
        JsonValue::Array(a) => if a@.len() > 0 && a@[0] is Object {
            lemma_build_keeps(a@[0], capitalized(key), r);
        },
        _ => {},
    }
}

/// Inference is total: for every value and every registry, building the class
/// `name` registers a declaration under `name`, queues `name` last, and leaves
/// no queued name without a declaration if there was none before.
pub proof fn lemma_build_registers(v: JsonValue, name: Seq<char>, r: Registry)
    ensures
        build(v, name, r).0.contains_key(name),
        build(v, name, r).0[name] == record_text(name, v),
        build(v, name, r).1.len() >= r.1.len() + 1,
        build(v, name, r).1.last() == name,
        no_dangling(r) ==> no_dangling(build(v, name, r)),
{
    lemma_build_keeps(v, name, r);
}

proof fn lemma_record_body_concat(a: Seq<(String, JsonValue)>, b: Seq<(String, JsonValue)>)
    ensures
        record_body(a + b) == record_body(a) + record_body(b),
    decreases b.len(),
{
    if b.len() == 0 {
        assert(a + b =~= a);
        assert(record_body(a) + record_body(b) =~= record_body(a));
    } else {
        lemma_record_body_concat(a, b.drop_last());
        assert((a + b).drop_last() =~= a + b.drop_last());
        assert(record_body(a + b) =~= record_body(a) + record_body(b));
    }
}

/// Members keep their order: in the class inferred from an object, the line of
/// the member at position `i` follows the lines of all members before it and
/// precedes the lines of all members after it.
pub proof fn lemma_field_order(name: Seq<char>, members: Vec<(String, JsonValue)>, i: int)
    requires
        0 <= i < members@.len(),
    ensures
        record_text(name, JsonValue::Object(members)) == class_header(name) + record_body(
            members@.subrange(0, i),
        ) + "    "@ + field_line(members@[i].0@, members@[i].1) + "\n"@ + record_body(
            members@.subrange(i + 1, members@.len() as int),
        ),
{
    let m = members@;
    let pre = m.subrange(0, i + 1);
    let post = m.subrange(i + 1, m.len() as int);
    assert(m =~= pre + post);
    lemma_record_body_concat(pre, post);
    assert(pre.drop_last() =~= m.subrange(0, i));
    assert(record_text(name, JsonValue::Object(members)) =~= class_header(name) + record_body(
        m.subrange(0, i),
    ) + "    "@ + field_line(m[i].0@, m[i].1) + "\n"@ + record_body(post));
}

} // verus!
