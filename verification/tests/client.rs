use mealie_cli::client::{
    checked_json, checked_optional_json, collection_items, deleted_plan_entry_from_value,
    error_detail, ingredient_from_value, nested_error_message, optional_float, optional_i64,
    optional_string, plan_entries_from_items, plan_entry_from_value, recipe_from_value,
    recipes_from_items, required_i64, required_string, ApiResponse, PlanCreateRequest,
};
use mealie_cli::json::{FloatValue, Json, JsonNumber};
use mealie_cli::ErrorCode;

fn float_value(f: f64) -> FloatValue {
    FloatValue {
        rendering: if f.is_finite() {
            Some(serde_json::Value::from(f).to_string())
        } else {
            None
        },
    }
}

fn to_json(v: &serde_json::Value) -> Json {
    match v {
        serde_json::Value::Null => Json::Null,
        serde_json::Value::Bool(b) => Json::Bool(*b),
        serde_json::Value::Number(n) => Json::Number(JsonNumber {
            text: n.to_string(),
            int: n.as_i64(),
            float: float_value(n.as_f64().unwrap_or(f64::NAN)),
        }),
        serde_json::Value::String(s) => Json::Str {
            text: s.clone(),
            float: s.parse::<f64>().ok().map(float_value),
        },
        serde_json::Value::Array(items) => Json::Array(items.iter().map(to_json).collect()),
        serde_json::Value::Object(map) => {
            Json::Object(map.iter().map(|(k, v)| (k.clone(), to_json(v))).collect())
        }
    }
}

fn parse(text: &str) -> Option<Json> {
    serde_json::from_str::<serde_json::Value>(text.trim()).ok().map(|v| to_json(&v))
}

fn json(text: &str) -> Json {
    parse(text).expect("test JSON")
}

fn response(status: u16, body: &str) -> ApiResponse {
    ApiResponse {
        status,
        body: Some(body.to_string()),
        json: parse(body),
    }
}

#[test]
fn extracts_message_from_nested_api_error() {
    let body = r#"{"detail":{"message":"No Entry Found","error":true}}"#;

    assert_eq!(
        error_detail(body, parse(body).as_ref()).as_deref(),
        Some("No Entry Found")
    );
}

#[test]
fn does_not_expose_unrecognized_json_error_bodies() {
    let body = r#"{"error":true}"#;
    assert_eq!(error_detail(body, parse(body).as_ref()), None);
}

#[test]
fn plain_text_error_bodies_are_squashed_and_cut() {
    let body = "  Bad\n\n gateway   from   proxy  ";
    assert_eq!(
        error_detail(body, None).as_deref(),
        Some("Bad gateway from proxy")
    );
    let long = "x".repeat(300);
    assert_eq!(error_detail(&long, None).map(|d| d.chars().count()), Some(200));
    assert_eq!(error_detail("   ", None), None);
}

#[test]
fn nested_messages_are_found_in_lists_and_known_keys() {
    assert_eq!(
        nested_error_message(&json(r#"[{"other":1},{"exception":"boom"}]"#)).as_deref(),
        Some("boom")
    );
    assert_eq!(
        nested_error_message(&json(r#"{"message":"  ","detail":"second"}"#)).as_deref(),
        Some("second")
    );
    assert_eq!(nested_error_message(&json(r#"{"note":"ignored"}"#)), None);
}

#[test]
fn failed_requests_map_to_stable_codes() {
    let api = checked_json(response(500, r#"{"message":"database unavailable"}"#), "get recipe")
        .err()
        .expect("server error");
    assert_eq!(api.code(), ErrorCode::ApiError);
    assert_eq!(
        api.to_string(),
        "get recipe: database unavailable (HTTP 500 Internal Server Error)"
    );

    let auth = checked_json(response(401, r#"{"detail":"invalid token"}"#), "get recipe")
        .err()
        .expect("authentication error");
    assert_eq!(auth.code(), ErrorCode::Authentication);
    assert_eq!(auth.to_string(), "get recipe: invalid token (HTTP 401 Unauthorized)");

    let forbidden = checked_json(response(403, ""), "list meal plans")
        .err()
        .expect("forbidden");
    assert_eq!(forbidden.code(), ErrorCode::Authentication);
    assert_eq!(forbidden.to_string(), "list meal plans failed (HTTP 403 Forbidden)");

    let missing = checked_json(response(404, "{}"), "get recipe")
        .err()
        .expect("not found");
    assert_eq!(missing.code(), ErrorCode::NotFound);
    assert_eq!(missing.to_string(), "get recipe failed (HTTP 404 Not Found)");
}

#[test]
fn successful_bodies_must_be_json() {
    let error = checked_json(response(200, "not json"), "get recipe")
        .err()
        .expect("decode error");
    assert_eq!(error.code(), ErrorCode::ApiError);

    let value = checked_json(response(201, r#"{"id":1}"#), "create meal plan").expect("json");
    assert_eq!(optional_i64(&value, &["id"]), Some(1));
}

#[test]
fn no_content_has_no_body() {
    let none = checked_optional_json(
        ApiResponse { status: 204, body: None, json: None },
        "delete meal plan",
    )
    .expect("no content");
    assert!(none.is_none());

    let some = checked_optional_json(response(200, r#"{"id":3}"#), "delete meal plan")
        .expect("content");
    assert!(some.is_some());
}

#[test]
fn reads_recipes_with_their_ingredients() {
    let recipe = recipe_from_value(&json(
        r#"{
            "id":"r1",
            "slug":"chicken-casserole",
            "name":"Chicken Casserole",
            "recipeIngredient":[
                {"quantity":250,"unit":{"name":"gram","abbreviation":"g"},"food":{"name":"bacon"},"note":"snipped"},
                {"note":"no quantity or food"},
                {"title":"Sauce","quantity":"1.5"}
            ]
        }"#,
    ))
    .expect("recipe");

    assert_eq!(recipe.id, "r1");
    assert_eq!(recipe.slug, "chicken-casserole");
    assert_eq!(recipe.name, "Chicken Casserole");
    assert_eq!(recipe.ingredients.len(), 2);
    let bacon = &recipe.ingredients[0];
    assert_eq!(bacon.quantity.as_ref().and_then(|q| q.rendering.clone()).as_deref(), Some("250.0"));
    assert_eq!(bacon.unit.as_deref(), Some("gram"));
    assert_eq!(bacon.unit_abbreviation.as_deref(), Some("g"));
    assert_eq!(bacon.food.as_deref(), Some("bacon"));
    assert_eq!(bacon.note.as_deref(), Some("snipped"));
    let sauce = &recipe.ingredients[1];
    assert_eq!(sauce.title.as_deref(), Some("Sauce"));
    assert_eq!(sauce.quantity.as_ref().and_then(|q| q.rendering.clone()).as_deref(), Some("1.5"));
}

#[test]
fn recipes_need_an_id_a_slug_and_a_name() {
    let error = recipe_from_value(&json(r#"{"id":"r1","name":"No slug"}"#))
        .err()
        .expect("missing slug");
    assert_eq!(error.code(), ErrorCode::ApiError);
    assert_eq!(error.to_string(), "response missing string field: slug");

    let by_recipe_id = recipe_from_value(&json(r#"{"recipeId":7,"slug":"s","name":"n"}"#))
        .expect("recipeId fallback");
    assert_eq!(by_recipe_id.id, "7");
}

#[test]
fn error_bodies_in_place_of_resources() {
    let not_found = recipe_from_value(&json(r#"{"__error":"not_found"}"#))
        .err()
        .expect("error body");
    assert_eq!(not_found.code(), ErrorCode::NotFound);
    assert_eq!(not_found.to_string(), "resource not found");

    let other = plan_entry_from_value(&json(r#"{"__error":"boom","message":"exploded"}"#))
        .err()
        .expect("error body");
    assert_eq!(other.code(), ErrorCode::ApiError);
    assert_eq!(other.to_string(), "exploded");
}

#[test]
fn reads_plan_entries_with_fallback_fields() {
    let entry = plan_entry_from_value(&json(
        r#"{"id":"12","date":"2026-05-13","meal":"dinner","recipe":{"id":"r2","name":"Pesto"}}"#,
    ))
    .expect("entry");

    assert_eq!(entry.id, 12);
    assert_eq!(entry.date.as_deref(), Some("2026-05-13"));
    assert_eq!(entry.meal.as_deref(), Some("dinner"));
    assert_eq!(entry.title.as_deref(), Some("Pesto"));
    assert_eq!(entry.recipe_id.as_deref(), Some("r2"));
    assert_eq!(entry.recipe.as_deref(), Some("Pesto"));

    let error = plan_entry_from_value(&json(r#"{"date":"2026-05-13"}"#))
        .err()
        .expect("missing id");
    assert_eq!(error.to_string(), "response missing integer field: id");
}

#[test]
fn reads_deleted_entries() {
    let deleted = deleted_plan_entry_from_value(&json(
        r#"{"id":10,"date":"2026-05-13","entryType":"dinner","title":"Old","recipeName":"Soup"}"#,
    ))
    .expect("deleted");

    assert_eq!(deleted.id, Some(10));
    assert_eq!(deleted.meal.as_deref(), Some("dinner"));
    assert_eq!(deleted.title.as_deref(), Some("Old"));
    assert_eq!(deleted.recipe.as_deref(), Some("Soup"));
}

#[test]
fn collections_come_from_items_data_or_a_top_level_array() {
    let items = json(r#"{"items":[{"id":1}],"data":[{"id":2},{"id":3}]}"#);
    assert_eq!(collection_items(&items).map(|v| v.len()), Some(1));
    let data = json(r#"{"data":[{"id":2},{"id":3}]}"#);
    assert_eq!(collection_items(&data).map(|v| v.len()), Some(2));
    let array = json(r#"[{"id":4}]"#);
    assert_eq!(collection_items(&array).map(|v| v.len()), Some(1));
    let neither = json(r#"{"items":"nope"}"#);
    assert!(collection_items(&neither).is_none());
}

#[test]
fn collection_items_fail_on_the_first_bad_item() {
    let items = match json(r#"[{"id":"r1","slug":"a","name":"A"},{"id":"r2"}]"#) {
        Json::Array(items) => items,
        _ => unreachable!(),
    };
    let error = recipes_from_items(&items).err().expect("bad second item");
    assert_eq!(error.to_string(), "response missing string field: slug");

    let entries = match json(r#"[{"id":1},{"id":2,"title":"Two"}]"#) {
        Json::Array(items) => items,
        _ => unreachable!(),
    };
    let listed = plan_entries_from_items(&entries).expect("entries");
    assert_eq!(listed.len(), 2);
    assert_eq!(listed[1].title.as_deref(), Some("Two"));
}

#[test]
fn field_readers_try_keys_in_order() {
    let value = json(r#"{"a":null,"b":3,"c":"text","f":"2.5","n":"NaN"}"#);

    assert_eq!(optional_string(&value, &["a", "b", "c"]).as_deref(), Some("3"));
    assert_eq!(optional_i64(&value, &["c", "b"]), Some(3));
    assert_eq!(required_string(&value, &["c"]).expect("c"), "text");
    assert_eq!(
        required_i64(&value, &["x", "y"]).err().map(|e| e.to_string()),
        Some("response missing integer field: x|y".to_string())
    );
    assert_eq!(
        optional_float(&value, &["f"]).and_then(|f| f.rendering),
        Some("2.5".to_string())
    );
    assert_eq!(optional_float(&value, &["n"]).map(|f| f.rendering), Some(None));
}

#[test]
fn ingredients_need_a_quantity_food_text_or_title() {
    assert!(ingredient_from_value(&json(r#"{"note":"only a note"}"#)).is_none());
    let display = ingredient_from_value(&json(r#"{"display":"  a  pinch  "}"#)).expect("display");
    assert_eq!(display.display.as_deref(), Some("  a  pinch  "));
}

#[test]
fn plan_bodies_carry_a_title_or_a_recipe() {
    let titled = PlanCreateRequest::title("2026-05-13", "dinner", "Soup");
    assert_eq!(titled.title.as_deref(), Some("Soup"));
    assert_eq!(titled.text.as_deref(), Some(""));
    assert_eq!(titled.recipe_id, None);

    let recipe = PlanCreateRequest::recipe("2026-05-16", "dinner", "r2");
    assert_eq!(recipe.recipe_id.as_deref(), Some("r2"));
    assert_eq!(recipe.title, None);
    assert_eq!(recipe.text, None);
    assert_eq!(recipe.entry_type, "dinner");
}
