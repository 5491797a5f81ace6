use json_to_pydantic::{
    json_to_pydantic, map_json_to_pydantic_field, render_document, scalar_type_name, to_pydantic,
    JsonValue, Models,
};
use std::collections::VecDeque;

fn text(s: &str) -> JsonValue {
    JsonValue::String(s.to_string())
}

fn number(s: &str) -> JsonValue {
    JsonValue::Number(s.to_string())
}

fn object(members: Vec<(&str, JsonValue)>) -> JsonValue {
    JsonValue::Object(members.into_iter().map(|(k, v)| (k.to_string(), v)).collect())
}

fn member<'a>(json: &'a JsonValue, key: &str) -> &'a JsonValue {
    match json {
        JsonValue::Object(members) => members.iter().find(|(k, _)| k == key).map(|(_, v)| v).unwrap(),
        _ => panic!("not an object"),
    }
}

#[test]
fn test_map_json_to_pydantic_field_string() {
    let mut models = Models::new();
    let mut order = VecDeque::new();

    let json = object(vec![("streetName", text("123 Main St"))]);
    let field = map_json_to_pydantic_field(
        "streetName",
        member(&json, "streetName"),
        "TestModel",
        &mut models,
        &mut order,
    );
    assert_eq!(field, "street_name: str | None = Field(None, alias=\"streetName\")");
}

#[test]
fn test_map_json_to_pydantic_field_number() {
    let mut models = Models::new();
    let mut order = VecDeque::new();

    let json = object(vec![("age", number("30"))]);
    let field =
        map_json_to_pydantic_field("age", member(&json, "age"), "TestModel", &mut models, &mut order);
    assert_eq!(field, "age: float | None = Field(None, alias=\"age\")");
}

#[test]
fn test_map_json_to_pydantic_field_boolean() {
    let mut models = Models::new();
    let mut order = VecDeque::new();

    let json = object(vec![("isActive", JsonValue::Bool(true))]);
    let field = map_json_to_pydantic_field(
        "isActive",
        member(&json, "isActive"),
        "TestModel",
        &mut models,
        &mut order,
    );
    assert_eq!(field, "is_active: bool | None = Field(None, alias=\"isActive\")");
}

#[test]
fn test_map_array_field_empty_array() {
    let mut models = Models::new();
    let mut order = VecDeque::new();

    let json = object(vec![("items", JsonValue::Array(vec![]))]);
    let field = map_json_to_pydantic_field(
        "items",
        member(&json, "items"),
        "TestModel",
        &mut models,
        &mut order,
    );
    assert_eq!(field, "items: list | None = Field(None, alias=\"items\")");
}

#[test]
fn test_map_array_field_string_array() {
    let mut models = Models::new();
    let mut order = VecDeque::new();

    let json = object(vec![("names", JsonValue::Array(vec![text("Alice"), text("Bob")]))]);
    let field = map_json_to_pydantic_field(
        "names",
        member(&json, "names"),
        "TestModel",
        &mut models,
        &mut order,
    );
    assert_eq!(field, "names: list[str] | None = Field(None, alias=\"names\")");
}

#[test]
fn test_map_array_field_object_array() {
    let mut models = Models::new();
    let mut order = VecDeque::new();

    let json = object(vec![(
        "users",
        JsonValue::Array(vec![
            object(vec![("name", text("Alice"))]),
            object(vec![("name", text("Bob"))]),
        ]),
    )]);
    let field = map_json_to_pydantic_field(
        "users",
        member(&json, "users"),
        "TestModel",
        &mut models,
        &mut order,
    );
    assert!(field.contains("users: list[Users] | None = Field(None, alias=\"users\")"));
}

#[test]
fn test_map_object_field() {
    let mut models = Models::new();
    let mut order = VecDeque::new();

    let json = object(vec![(
        "address",
        object(vec![("streetName", text("123 Main St")), ("city", text("New York"))]),
    )]);
    let field = map_json_to_pydantic_field(
        "address",
        member(&json, "address"),
        "TestModel",
        &mut models,
        &mut order,
    );
    assert!(field.contains("address: Address | None = Field(None, alias=\"address\")"));
}

#[test]
fn test_to_pydantic_single_level() {
    let mut models = Models::new();
    let mut order = VecDeque::new();

    let json = object(vec![
        ("name", text("John Doe")),
        ("age", number("30")),
        ("isActive", JsonValue::Bool(true)),
    ]);

    to_pydantic(&json, "UserModel", &mut models, &mut order);

    let user_model = models.get("UserModel").unwrap();
    assert!(user_model.contains("name: str | None = Field(None, alias=\"name\")"));
    assert!(user_model.contains("age: float | None = Field(None, alias=\"age\")"));
    assert!(user_model.contains("is_active: bool | None = Field(None, alias=\"isActive\")"));
}

#[test]
fn test_to_pydantic_nested_objects_and_arrays() {
    let mut models = Models::new();
    let mut order = VecDeque::new();

    let json = object(vec![
        ("name", text("John Doe")),
        (
            "addresses",
            JsonValue::Array(vec![
                object(vec![("streetName", text("123 Main St")), ("city", text("New York"))]),
                object(vec![
                    ("streetName", text("456 Market St")),
                    ("city", text("San Francisco")),
                ]),
            ]),
        ),
    ]);

    to_pydantic(&json, "UserModel", &mut models, &mut order);

    let user_model = models.get("UserModel").unwrap();
    assert!(user_model.contains("name: str | None = Field(None, alias=\"name\")"));
    assert!(user_model
        .contains("addresses: list[Addresses] | None = Field(None, alias=\"addresses\")"));

    let addresses_model = models.get("Addresses").unwrap();
    assert!(addresses_model
        .contains("street_name: str | None = Field(None, alias=\"streetName\")"));
    assert!(addresses_model.contains("city: str | None = Field(None, alias=\"city\")"));
}

#[test]
fn end_to_end_single_record() {
    let json = object(vec![
        ("name", text("John Doe")),
        ("age", number("30")),
        ("isActive", JsonValue::Bool(true)),
    ]);
    let mut models = Models::new();
    let mut order = VecDeque::new();
    to_pydantic(&json, "UserModel", &mut models, &mut order);
    assert_eq!(order, VecDeque::from(vec!["UserModel".to_string()]));
    assert_eq!(models.len(), 1);
    assert_eq!(
        models.get("UserModel").unwrap(),
        "class UserModel(BaseModel):\n    name: str | None = Field(None, alias=\"name\")\n    age: float | None = Field(None, alias=\"age\")\n    is_active: bool | None = Field(None, alias=\"isActive\")\n"
    );
}

#[test]
fn document_for_single_record() {
    let json = object(vec![("name", text("John Doe")), ("isActive", JsonValue::Bool(false))]);
    assert_eq!(
        json_to_pydantic(&json, "UserModel"),
        "from pydantic import BaseModel\nfrom typing import Any\n\nclass UserModel(BaseModel):\n    name: str | None = Field(None, alias=\"name\")\n    is_active: bool | None = Field(None, alias=\"isActive\")\n\n\n"
    );
}

#[test]
fn non_object_root_is_a_placeholder_class() {
    let mut models = Models::new();
    let mut order = VecDeque::new();
    to_pydantic(&JsonValue::Null, "Model", &mut models, &mut order);
    assert_eq!(order, VecDeque::from(vec!["Model".to_string()]));
    assert_eq!(models.get("Model").unwrap(), "class Model(BaseModel):\n    ...\n");
    assert_eq!(
        json_to_pydantic(&JsonValue::Array(vec![number("1")]), "Model"),
        "from pydantic import BaseModel\nfrom typing import Any\n\nclass Model(BaseModel):\n    ...\n\n\n"
    );
}

#[test]
fn empty_object_root_has_no_fields() {
    let mut models = Models::new();
    let mut order = VecDeque::new();
    to_pydantic(&object(vec![]), "Model", &mut models, &mut order);
    assert_eq!(models.get("Model").unwrap(), "class Model(BaseModel):\n");
}

#[test]
fn fields_follow_member_order() {
    let json = object(vec![
        ("zeta", number("1")),
        ("alpha", text("a")),
        ("midValue", JsonValue::Null),
    ]);
    let mut models = Models::new();
    let mut order = VecDeque::new();
    to_pydantic(&json, "Model", &mut models, &mut order);
    assert_eq!(
        models.get("Model").unwrap(),
        "class Model(BaseModel):\n    zeta: float | None = Field(None, alias=\"zeta\")\n    alpha: str | None = Field(None, alias=\"alpha\")\n    mid_value: Any | None = Field(None, alias=\"midValue\")\n"
    );
}

#[test]
fn scalar_types() {
    assert_eq!(scalar_type_name(&text("x")), "str");
    assert_eq!(scalar_type_name(&number("1.5")), "float");
    assert_eq!(scalar_type_name(&JsonValue::Bool(true)), "bool");
    assert_eq!(scalar_type_name(&JsonValue::Null), "Any");
    assert_eq!(scalar_type_name(&JsonValue::Array(vec![])), "Any");
    assert_eq!(scalar_type_name(&object(vec![])), "Any");
}

#[test]
fn null_member_is_any() {
    let mut models = Models::new();
    let mut order = VecDeque::new();
    let field =
        map_json_to_pydantic_field("note", &JsonValue::Null, "TestModel", &mut models, &mut order);
    assert_eq!(field, "note: Any | None = Field(None, alias=\"note\")");
    assert!(order.is_empty());
    assert_eq!(models.len(), 0);
}

#[test]
fn list_element_types_come_from_first_element() {
    let mut models = Models::new();
    let mut order = VecDeque::new();
    let cases = vec![
        (JsonValue::Array(vec![number("1"), text("b")]), "list[float]"),
        (JsonValue::Array(vec![JsonValue::Bool(true)]), "list[bool]"),
        (JsonValue::Array(vec![JsonValue::Null, number("2")]), "list[Any]"),
        (JsonValue::Array(vec![JsonValue::Array(vec![number("1")])]), "list[Any]"),
        (JsonValue::Array(vec![text("a"), object(vec![("k", number("1"))])]), "list[str]"),
    ];
    for (value, ty) in cases {
        let field = map_json_to_pydantic_field("vals", &value, "TestModel", &mut models, &mut order);
        assert_eq!(field, format!("vals: {} | None = Field(None, alias=\"vals\")", ty));
    }
    assert!(order.is_empty());
}

#[test]
fn object_array_registers_element_class() {
    let mut models = Models::new();
    let mut order = VecDeque::new();
    let users = JsonValue::Array(vec![
        object(vec![("name", text("Alice"))]),
        object(vec![("name", text("Bob")), ("age", number("3"))]),
    ]);
    let field = map_json_to_pydantic_field("users", &users, "TestModel", &mut models, &mut order);
    assert_eq!(field, "users: list[Users] | None = Field(None, alias=\"users\")");
    assert_eq!(order, VecDeque::from(vec!["Users".to_string()]));
    assert_eq!(
        models.get("Users").unwrap(),
        "class Users(BaseModel):\n    name: str | None = Field(None, alias=\"name\")\n"
    );
}

#[test]
fn nested_object_registers_class_before_parent() {
    let json = object(vec![
        ("id", number("7")),
        (
            "address",
            object(vec![("streetName", text("123 Main St")), ("city", text("New York"))]),
        ),
    ]);
    let mut models = Models::new();
    let mut order = VecDeque::new();
    to_pydantic(&json, "Model", &mut models, &mut order);
    assert_eq!(order, VecDeque::from(vec!["Address".to_string(), "Model".to_string()]));
    assert_eq!(
        models.get("Address").unwrap(),
        "class Address(BaseModel):\n    street_name: str | None = Field(None, alias=\"streetName\")\n    city: str | None = Field(None, alias=\"city\")\n"
    );
    assert_eq!(
        models.get("Model").unwrap(),
        "class Model(BaseModel):\n    id: float | None = Field(None, alias=\"id\")\n    address: Address | None = Field(None, alias=\"address\")\n"
    );
}

#[test]
fn shared_class_name_keeps_last_text_at_every_position() {
    let json = object(vec![
        ("address", object(vec![("city", text("A"))])),
        ("home", object(vec![("address", object(vec![("zip", number("1"))]))])),
    ]);
    let mut models = Models::new();
    let mut order = VecDeque::new();
    to_pydantic(&json, "Model", &mut models, &mut order);
    let names: Vec<String> = order.iter().cloned().collect();
    assert_eq!(names, vec!["Address", "Address", "Home", "Model"]);
    assert_eq!(models.len(), 3);
    let address = "class Address(BaseModel):\n    zip: float | None = Field(None, alias=\"zip\")\n";
    assert_eq!(models.get("Address").unwrap(), address);
    let document = render_document(&models, &order);
    assert_eq!(document.matches(address).count(), 2);
    assert!(!document.contains("city"));
}

#[test]
fn render_document_writes_queue_order() {
    let mut models = Models::new();
    models.insert("B".to_string(), "class B(BaseModel):\n    ...\n".to_string());
    models.insert("A".to_string(), "class A(BaseModel):\n    ...\n".to_string());
    let order = VecDeque::from(vec!["A".to_string(), "B".to_string()]);
    assert_eq!(
        render_document(&models, &order),
        "from pydantic import BaseModel\nfrom typing import Any\n\nclass A(BaseModel):\n    ...\n\n\nclass B(BaseModel):\n    ...\n\n\n"
    );
    assert_eq!(
        render_document(&Models::new(), &VecDeque::new()),
        "from pydantic import BaseModel\nfrom typing import Any\n\n"
    );
}

#[test]
fn models_insert_replaces_existing_text() {
    let mut models = Models::new();
    models.insert("A".to_string(), "one".to_string());
    models.insert("B".to_string(), "two".to_string());
    models.insert("A".to_string(), "three".to_string());
    assert_eq!(models.len(), 2);
    assert_eq!(models.get("A").unwrap(), "three");
    assert_eq!(models.get("B").unwrap(), "two");
    assert!(models.get("C").is_none());
    assert!(models.contains_key("B"));
    assert!(!models.contains_key("C"));
}
