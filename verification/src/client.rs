//! What the Mealie API is asked for, and how its answers are read.
use vstd::prelude::*;

use crate::bindings::{http_status_text, reqwest_status_display};
use crate::error::{error_of, AppError, ErrorCode, ErrorView};
use crate::json::{
    find_entry,
    entry_index, items_of, lemma_entry_index_bounds, member, text_of, FloatValue, Json, JsonNumber,
};
use crate::text::{
    append_str, concat2, is_blank, is_blank_str, join, parse_i64, parse_int, squash, squash_str,
    str_eq, take_chars, take_chars_str, trim, trim_str,
};

verus! {

/// Seconds after which a request to the API is abandoned.
pub const REQUEST_TIMEOUT_SECS: u64 = 30;

/// The text of a string or number value (`serde_json::Value` strings and numbers).
pub open spec fn scalar_text(v: Json) -> Option<String> {
    match v {
        Json::Str { text, .. } => Some(text),
        Json::Number(n) => Some(n.text),
        _ => None,
    }
}

/// The views of a list of keys.
pub open spec fn keys_view(keys: Seq<&str>) -> Seq<Seq<char>> {
    keys.map_values(|k: &str| k@)
}

/// The text of the first of `keys` whose member is a string or a number.
pub open spec fn optional_string_of(v: Json, keys: Seq<Seq<char>>) -> Option<String>
    decreases keys.len(),
{
    if keys.len() == 0 {
        None
    } else {
        let here = match member(v, keys[0]) {
            Some(x) => scalar_text(x),
            None => None,
        };
        match here {
            Some(t) => Some(t),
            None => optional_string_of(v, keys.drop_first()),
        }
    }
}

/// `optional_string_of`, where the text is not blank.
pub open spec fn non_empty_string_of(v: Json, keys: Seq<Seq<char>>) -> Option<String> {
    match optional_string_of(v, keys) {
        Some(t) => if is_blank(t@) {
            None
        } else {
            Some(t)
        },
        None => None,
    }
}

/// `non_empty_string_of` on the member `key`.
pub open spec fn nested_string_of(v: Json, key: Seq<char>, keys: Seq<Seq<char>>) -> Option<String> {
    match member(v, key) {
        Some(x) => non_empty_string_of(x, keys),
        None => None,
    }
}

/// The float reading of a number, or of a string that reads as a float.
pub open spec fn float_reading(v: Json) -> Option<FloatValue> {
    match v {
        Json::Number(n) => Some(n.float),
        Json::Str { float, .. } => float,
        _ => None,
    }
}

/// The first of `keys` whose member reads as a float.
pub open spec fn optional_float_of(v: Json, keys: Seq<Seq<char>>) -> Option<FloatValue>
    decreases keys.len(),
{
    if keys.len() == 0 {
        None
    } else {
        let here = match member(v, keys[0]) {
            Some(x) => float_reading(x),
            None => None,
        };
        match here {
            Some(f) => Some(f),
            None => optional_float_of(v, keys.drop_first()),
        }
    }
}

/// The integer reading of a number (an `i64`), or of a string that parses as an `i64`.
pub open spec fn int_reading(v: Json) -> Option<int> {
    match v {
        Json::Number(n) => match n.int {
            Some(i) => Some(i as int),
            None => None,
        },
        Json::Str { text, .. } => parse_int(text@),
        _ => None,
    }
}

/// The first of `keys` whose member reads as an integer.
pub open spec fn optional_int_of(v: Json, keys: Seq<Seq<char>>) -> Option<int>
    decreases keys.len(),
{
    if keys.len() == 0 {
        None
    } else {
        let here = match member(v, keys[0]) {
            Some(x) => int_reading(x),
            None => None,
        };
        match here {
            Some(i) => Some(i),
            None => optional_int_of(v, keys.drop_first()),
        }
    }
}

/// The error for a missing field of the given kind (`string` or `integer`).
pub open spec fn missing_field(kind: Seq<char>, keys: Seq<Seq<char>>) -> ErrorView {
    error_of(
        ErrorCode::ApiError,
        "response missing "@ + kind + " field: "@ + join(keys, "|"@),
    )
}

/// A required text field.
pub open spec fn required_string_of(v: Json, keys: Seq<Seq<char>>) -> Result<String, ErrorView> {
    match optional_string_of(v, keys) {
        Some(t) => Ok(t),
        None => Err(missing_field("string"@, keys)),
    }
}

/// A required integer field.
pub open spec fn required_int_of(v: Json, keys: Seq<Seq<char>>) -> Result<int, ErrorView> {
    match optional_int_of(v, keys) {
        Some(i) => Ok(i),
        None => Err(missing_field("integer"@, keys)),
    }
}

/// The `message` member's text, or `default`.
pub open spec fn message_or(v: Json, default: Seq<char>) -> Seq<char> {
    match member(v, "message"@) {
        Some(m) => match text_of(m) {
            Some(t) => t@,
            None => default,
        },
        None => default,
    }
}

/// A body that reports an error in place of a resource (an `__error` member): `not_found`
/// becomes `NotFound`, any other value `ApiError`.
pub open spec fn error_value_of(v: Json) -> Option<ErrorView> {
    match member(v, "__error"@) {
        Some(e) => match text_of(e) {
            Some(t) => if t@ == "not_found"@ {
                Some(error_of(ErrorCode::NotFound, message_or(v, "resource not found"@)))
            } else {
                Some(error_of(ErrorCode::ApiError, message_or(v, "api error"@)))
            },
            None => None,
        },
        None => None,
    }
}

fn string_field_from(value: &Json, keys: &[&str], i: usize) -> (r: Option<String>)
    requires
        i <= keys@.len(),
    ensures
        r == optional_string_of(*value, keys_view(keys@).skip(i as int)),
    decreases keys@.len() - i,
{
    let ghost ks = keys_view(keys@).skip(i as int);
    if i == keys.len() {
        return None;
    }
    assert(ks[0] == keys@[i as int]@);
    assert(ks.drop_first() =~= keys_view(keys@).skip(i + 1));
    let here = match value.get(keys[i]) {
        Some(Json::Str { text, .. }) => Some(text.clone()),
        Some(Json::Number(n)) => Some(n.text.clone()),
        _ => None,
    };
    match here {
        Some(t) => Some(t),
        None => string_field_from(value, keys, i + 1),
    }
}

/// The text of the first of `keys` that is a string or a number.
pub fn optional_string(value: &Json, keys: &[&str]) -> (r: Option<String>)
    ensures
        r == optional_string_of(*value, keys_view(keys@)),
{
    assert(keys_view(keys@).skip(0) =~= keys_view(keys@));
    string_field_from(value, keys, 0)
}

/// `optional_string`, where the text is not blank.
pub fn optional_non_empty_string(value: &Json, keys: &[&str]) -> (r: Option<String>)
    ensures
        r == non_empty_string_of(*value, keys_view(keys@)),
{
    match optional_string(value, keys) {
        Some(t) => if is_blank_str(t.as_str()) {
            None
        } else {
            Some(t)
        },
        None => None,
    }
}

/// `optional_non_empty_string` on the member `key`.
pub fn nested_optional_string(value: &Json, key: &str, keys: &[&str]) -> (r: Option<String>)
    ensures
        r == nested_string_of(*value, key@, keys_view(keys@)),
{
    match value.get(key) {
        Some(x) => optional_non_empty_string(x, keys),
        None => None,
    }
}

fn copy_float(f: &FloatValue) -> (r: FloatValue)
    ensures
        r == *f,
{
    match &f.rendering {
        Some(t) => FloatValue { rendering: Some(t.clone()) },
        None => FloatValue { rendering: None },
    }
}

fn float_field_from(value: &Json, keys: &[&str], i: usize) -> (r: Option<FloatValue>)
    requires
        i <= keys@.len(),
    ensures
        r == optional_float_of(*value, keys_view(keys@).skip(i as int)),
    decreases keys@.len() - i,
{
    let ghost ks = keys_view(keys@).skip(i as int);
    if i == keys.len() {
        return None;
    }
    assert(ks[0] == keys@[i as int]@);
    assert(ks.drop_first() =~= keys_view(keys@).skip(i + 1));
    let here = match value.get(keys[i]) {
        Some(Json::Number(n)) => Some(copy_float(&n.float)),
        Some(Json::Str { float, .. }) => match float {
            Some(f) => Some(copy_float(f)),
            None => None,
        },
        _ => None,
    };
    match here {
        Some(f) => Some(f),
        None => float_field_from(value, keys, i + 1),
    }
}

/// The float reading of the first of `keys` that has one.
pub fn optional_float(value: &Json, keys: &[&str]) -> (r: Option<FloatValue>)
    ensures
        r == optional_float_of(*value, keys_view(keys@)),
{
    assert(keys_view(keys@).skip(0) =~= keys_view(keys@));
    float_field_from(value, keys, 0)
}

fn int_field_from(value: &Json, keys: &[&str], i: usize) -> (r: Option<i64>)
    requires
        i <= keys@.len(),
    ensures
        match r {
            Some(n) => optional_int_of(*value, keys_view(keys@).skip(i as int)) == Some(n as int),
            None => optional_int_of(*value, keys_view(keys@).skip(i as int)) is None,
        },
    decreases keys@.len() - i,
{
    let ghost ks = keys_view(keys@).skip(i as int);
    if i == keys.len() {
        return None;
    }
    assert(ks[0] == keys@[i as int]@);
    assert(ks.drop_first() =~= keys_view(keys@).skip(i + 1));
    let here = match value.get(keys[i]) {
        Some(Json::Number(n)) => n.int,
        Some(Json::Str { text, .. }) => parse_i64(text.as_str()),
        _ => None,
    };
    match here {
        Some(n) => Some(n),
        None => int_field_from(value, keys, i + 1),
    }
}

/// The integer reading of the first of `keys` that has one.
pub fn optional_i64(value: &Json, keys: &[&str]) -> (r: Option<i64>)
    ensures
        match r {
            Some(n) => optional_int_of(*value, keys_view(keys@)) == Some(n as int),
            None => optional_int_of(*value, keys_view(keys@)) is None,
        },
{
    assert(keys_view(keys@).skip(0) =~= keys_view(keys@));
    int_field_from(value, keys, 0)
}

fn joined_keys(keys: &[&str]) -> (r: String)
    ensures
        r@ == join(keys_view(keys@), "|"@),
{
    let mut r = String::new();
    let mut i: usize = 0;
    while i < keys.len()
        invariant
            i <= keys@.len(),
            r@ == join(keys_view(keys@).take(i as int), "|"@),
        decreases keys@.len() - i,
    {
        let ghost before = keys_view(keys@).take(i as int);
        let ghost after = keys_view(keys@).take(i + 1);
        assert(after.drop_last() =~= before);
        assert(after.last() == keys@[i as int]@);
        if i > 0 {
            append_str(&mut r, "|");
        }
        append_str(&mut r, keys[i]);
        proof {
            if i == 0 {
                assert(r@ =~= after[0]);
            }
        }
        i = i + 1;
    }
    assert(keys_view(keys@).take(keys@.len() as int) =~= keys_view(keys@));
    r
}

fn missing_field_error(kind: &str, keys: &[&str]) -> (r: AppError)
    ensures
        r@ == missing_field(kind@, keys_view(keys@)),
{
    let mut m = String::new();
    append_str(&mut m, "response missing ");
    append_str(&mut m, kind);
    append_str(&mut m, " field: ");
    let k = joined_keys(keys);
    append_str(&mut m, k.as_str());
    AppError::new(ErrorCode::ApiError, m)
}

/// A required text field.
pub fn required_string(value: &Json, keys: &[&str]) -> (r: Result<String, AppError>)
    ensures
        match (r, required_string_of(*value, keys_view(keys@))) {
            (Ok(t), Ok(u)) => t == u,
            (Err(e), Err(f)) => e@ == f,
            _ => false,
        },
{
    match optional_string(value, keys) {
        Some(t) => Ok(t),
        None => Err(missing_field_error("string", keys)),
    }
}

/// A required integer field.
pub fn required_i64(value: &Json, keys: &[&str]) -> (r: Result<i64, AppError>)
    ensures
        match (r, required_int_of(*value, keys_view(keys@))) {
            (Ok(t), Ok(u)) => t == u,
            (Err(e), Err(f)) => e@ == f,
            _ => false,
        },
{
    match optional_i64(value, keys) {
        Some(t) => Ok(t),
        None => Err(missing_field_error("integer", keys)),
    }
}

fn message_or_default(value: &Json, default: &str) -> (r: String)
    ensures
        r@ == message_or(*value, default@),
{
    match value.get("message") {
        Some(m) => match m.as_str() {
            Some(t) => t.to_owned(),
            None => default.to_owned(),
        },
        None => default.to_owned(),
    }
}

/// Fails where the body reports an error in place of a resource.
pub fn check_error_value(value: &Json) -> (r: Result<(), AppError>)
    ensures
        match (r, error_value_of(*value)) {
            (Ok(()), None) => true,
            (Err(e), Some(f)) => e@ == f,
            _ => false,
        },
{
    match value.get("__error") {
        Some(e) => match e.as_str() {
            Some(t) => if str_eq(t, "not_found") {
                Err(
                    AppError::new(
                        ErrorCode::NotFound,
                        message_or_default(value, "resource not found"),
                    ),
                )
            } else {
                Err(AppError::new(ErrorCode::ApiError, message_or_default(value, "api error")))
            },
            None => Ok(()),
        },
        None => Ok(()),
    }
}

/// One line of a recipe's ingredient list.
#[derive(Debug, Clone, PartialEq)]
pub struct Ingredient {
    pub quantity: Option<FloatValue>,
    pub unit: Option<String>,
    pub unit_abbreviation: Option<String>,
    pub food: Option<String>,
    pub note: Option<String>,
    pub display: Option<String>,
    pub original_text: Option<String>,
    pub title: Option<String>,
    pub reference_id: Option<String>,
}

/// A recipe and its ingredients.
#[derive(Debug, Clone, PartialEq)]
pub struct Recipe {
    pub id: String,
    pub slug: String,
    pub name: String,
    pub ingredients: Vec<Ingredient>,
}

/// The mathematical content of a [`Recipe`].
pub struct RecipeView {
    pub id: String,
    pub slug: String,
    pub name: String,
    pub ingredients: Seq<Ingredient>,
}

impl View for Recipe {
    type V = RecipeView;

    open spec fn view(&self) -> RecipeView {
        RecipeView {
            id: self.id,
            slug: self.slug,
            name: self.name,
            ingredients: self.ingredients@,
        }
    }
}

/// An entry of the meal plan.
#[derive(Debug, Clone, PartialEq, Eq)]
pub struct PlanEntry {
    pub id: i64,
    pub date: Option<String>,
    pub meal: Option<String>,
    pub title: Option<String>,
    pub recipe_id: Option<String>,
    pub recipe: Option<String>,
}

/// What the API reports of an entry it deleted.
#[derive(Debug, Clone, PartialEq, Eq)]
pub struct DeletedPlanEntry {
    pub id: Option<i64>,
    pub date: Option<String>,
    pub meal: Option<String>,
    pub title: Option<String>,
    pub recipe: Option<String>,
}

/// The body of a request that creates a meal plan entry: a plain-text title, or a recipe.
#[derive(Debug, Clone, PartialEq)]
pub struct PlanCreateRequest {
    pub date: String,
    pub entry_type: String,
    pub title: Option<String>,
    pub text: Option<String>,
    pub recipe_id: Option<String>,
}

impl PlanCreateRequest {
    /// A plain-text entry (with an empty description).
    pub fn title(date: &str, meal_type: &str, title: &str) -> (r: PlanCreateRequest)
        ensures
            r.date@ == date@,
            r.entry_type@ == meal_type@,
            r.title matches Some(t) && t@ == title@,
            r.text matches Some(t) && t@ == Seq::<char>::empty(),
            r.recipe_id is None,
    {
        PlanCreateRequest {
            date: date.to_owned(),
            entry_type: meal_type.to_owned(),
            title: Some(title.to_owned()),
            text: Some(String::new()),
            recipe_id: None,
        }
    }

    /// An entry for a recipe.
    pub fn recipe(date: &str, meal_type: &str, recipe_id: &str) -> (r: PlanCreateRequest)
        ensures
            r.date@ == date@,
            r.entry_type@ == meal_type@,
            r.title is None,
            r.text is None,
            r.recipe_id matches Some(t) && t@ == recipe_id@,
    {
        PlanCreateRequest {
            date: date.to_owned(),
            entry_type: meal_type.to_owned(),
            title: None,
            text: None,
            recipe_id: Some(recipe_id.to_owned()),
        }
    }
}

/// The ingredient that a list item describes, where it names a quantity, a food, a display
/// text, an original text or a section title.
pub open spec fn ingredient_of(v: Json) -> Option<Ingredient> {
    let i = Ingredient {
        quantity: optional_float_of(v, seq!["quantity"@]),
        unit: nested_string_of(v, "unit"@, seq!["name"@]),
        unit_abbreviation: nested_string_of(v, "unit"@, seq!["abbreviation"@]),
        food: nested_string_of(v, "food"@, seq!["name"@]),
        note: non_empty_string_of(v, seq!["note"@]),
        display: non_empty_string_of(v, seq!["display"@]),
        original_text: non_empty_string_of(v, seq!["originalText"@]),
        title: non_empty_string_of(v, seq!["title"@]),
        reference_id: non_empty_string_of(v, seq!["referenceId"@]),
    };
    if i.quantity is Some || i.food is Some || i.display is Some || i.original_text is Some
        || i.title is Some {
        Some(i)
    } else {
        None
    }
}

/// The ingredients that the items of a list describe, in order.
pub open spec fn ingredients_of(items: Seq<Json>) -> Seq<Ingredient>
    decreases items.len(),
{
    if items.len() == 0 {
        seq![]
    } else {
        let rest = ingredients_of(items.drop_last());
        match ingredient_of(items.last()) {
            Some(i) => rest.push(i),
            None => rest,
        }
    }
}

/// The recipe that a value describes, or the first error: an error body, then a missing id
/// (`id` or `recipeId`), slug or name.
pub open spec fn recipe_of(v: Json) -> Result<RecipeView, ErrorView> {
    match error_value_of(v) {
        Some(e) => Err(e),
        None => match required_string_of(v, seq!["id"@, "recipeId"@]) {
            Err(e) => Err(e),
            Ok(id) => match required_string_of(v, seq!["slug"@]) {
                Err(e) => Err(e),
                Ok(slug) => match required_string_of(v, seq!["name"@]) {
                    Err(e) => Err(e),
                    Ok(name) => Ok(
                        RecipeView {
                            id,
                            slug,
                            name,
                            ingredients: match member(v, "recipeIngredient"@) {
                                Some(list) => match items_of(list) {
                                    Some(items) => ingredients_of(items),
                                    None => seq![],
                                },
                                None => seq![],
                            },
                        },
                    ),
                },
            },
        },
    }
}

/// The name of the nested `recipe` object.
pub open spec fn nested_recipe_name(v: Json) -> Option<String> {
    match member(v, "recipe"@) {
        Some(r) => optional_string_of(r, seq!["name"@]),
        None => None,
    }
}

/// The id of the nested `recipe` object.
pub open spec fn nested_recipe_id(v: Json) -> Option<String> {
    match member(v, "recipe"@) {
        Some(r) => optional_string_of(r, seq!["id"@]),
        None => None,
    }
}

/// `a`, or else `b`.
pub open spec fn or_else<T>(a: Option<T>, b: Option<T>) -> Option<T> {
    match a {
        Some(x) => Some(x),
        None => b,
    }
}

/// The plan entry that a value describes, or the first error: an error body, then a missing id.
pub open spec fn plan_entry_of(v: Json) -> Result<PlanEntry, ErrorView> {
    match error_value_of(v) {
        Some(e) => Err(e),
        None => match required_int_of(v, seq!["id"@]) {
            Err(e) => Err(e),
            Ok(id) => Ok(
                PlanEntry {
                    id: id as i64,
                    date: optional_string_of(v, seq!["date"@]),
                    meal: optional_string_of(v, seq!["entryType"@, "meal"@, "type"@]),
                    title: or_else(
                        optional_string_of(v, seq!["title"@, "text"@, "name"@]),
                        nested_recipe_name(v),
                    ),
                    recipe_id: or_else(optional_string_of(v, seq!["recipeId"@]), nested_recipe_id(v)),
                    recipe: or_else(nested_recipe_name(v), optional_string_of(v, seq!["recipeName"@])),
                },
            ),
        },
    }
}

/// What a deletion response reports, or the error it carries.
pub open spec fn deleted_entry_of(v: Json) -> Result<DeletedPlanEntry, ErrorView> {
    match error_value_of(v) {
        Some(e) => Err(e),
        None => Ok(
            DeletedPlanEntry {
                id: match optional_int_of(v, seq!["id"@]) {
                    Some(i) => Some(i as i64),
                    None => None,
                },
                date: optional_string_of(v, seq!["date"@]),
                meal: optional_string_of(v, seq!["entryType"@, "meal"@, "type"@]),
                title: optional_string_of(v, seq!["title"@, "text"@, "name"@]),
                recipe: or_else(nested_recipe_name(v), optional_string_of(v, seq!["recipeName"@])),
            },
        ),
    }
}

/// The items of a collection response: the `items` array, else the `data` array, else the
/// value itself where it is an array, else nothing.
pub open spec fn collection_of(v: Json) -> Seq<Json> {
    match member(v, "items"@) {
        Some(x) if items_of(x) is Some => items_of(x).unwrap(),
        _ => match member(v, "data"@) {
            Some(x) if items_of(x) is Some => items_of(x).unwrap(),
            _ => match items_of(v) {
                Some(a) => a,
                None => seq![],
            },
        },
    }
}

/// The ingredient that one list item describes.
pub fn ingredient_from_value(value: &Json) -> (r: Option<Ingredient>)
    ensures
        r == ingredient_of(*value),
{
    let quantity: [&str; 1] = ["quantity"];
    let name: [&str; 1] = ["name"];
    let abbreviation: [&str; 1] = ["abbreviation"];
    let note: [&str; 1] = ["note"];
    let display: [&str; 1] = ["display"];
    let original: [&str; 1] = ["originalText"];
    let title: [&str; 1] = ["title"];
    let reference: [&str; 1] = ["referenceId"];
    assert(keys_view(quantity@) =~= seq!["quantity"@]);
    assert(keys_view(name@) =~= seq!["name"@]);
    assert(keys_view(abbreviation@) =~= seq!["abbreviation"@]);
    assert(keys_view(note@) =~= seq!["note"@]);
    assert(keys_view(display@) =~= seq!["display"@]);
    assert(keys_view(original@) =~= seq!["originalText"@]);
    assert(keys_view(title@) =~= seq!["title"@]);
    assert(keys_view(reference@) =~= seq!["referenceId"@]);
    let i = Ingredient {
        quantity: optional_float(value, &quantity),
        unit: nested_optional_string(value, "unit", &name),
        unit_abbreviation: nested_optional_string(value, "unit", &abbreviation),
        food: nested_optional_string(value, "food", &name),
        note: optional_non_empty_string(value, &note),
        display: optional_non_empty_string(value, &display),
        original_text: optional_non_empty_string(value, &original),
        title: optional_non_empty_string(value, &title),
        reference_id: optional_non_empty_string(value, &reference),
    };
    if i.quantity.is_some() || i.food.is_some() || i.display.is_some() || i.original_text.is_some()
        || i.title.is_some() {
        Some(i)
    } else {
        None
    }
}

/// The ingredients that a list's items describe, in order.
pub fn ingredients_from_items(items: &Vec<Json>) -> (r: Vec<Ingredient>)
    ensures
        r@ == ingredients_of(items@),
{
    let mut r: Vec<Ingredient> = Vec::new();
    let mut i: usize = 0;
    assert(items@.take(0) =~= Seq::<Json>::empty());
    while i < items.len()
        invariant
            i <= items@.len(),
            r@ == ingredients_of(items@.take(i as int)),
        decreases items@.len() - i,
    {
        let ghost t = items@.take(i + 1);
        assert(t.drop_last() =~= items@.take(i as int));
        assert(t.last() == items@[i as int]);
        match ingredient_from_value(&items[i]) {
            Some(x) => r.push(x),
            None => {},
        }
        i = i + 1;
    }
    assert(items@.take(items@.len() as int) =~= items@);
    r
}

/// The recipe that a value describes.
pub fn recipe_from_value(value: &Json) -> (r: Result<Recipe, AppError>)
    ensures
        match (r, recipe_of(*value)) {
            (Ok(x), Ok(y)) => x@ == y,
            (Err(e), Err(f)) => e@ == f,
            _ => false,
        },
{
    let id_keys: [&str; 2] = ["id", "recipeId"];
    let slug_keys: [&str; 1] = ["slug"];
    let name_keys: [&str; 1] = ["name"];
    assert(keys_view(id_keys@) =~= seq!["id"@, "recipeId"@]);
    assert(keys_view(slug_keys@) =~= seq!["slug"@]);
    assert(keys_view(name_keys@) =~= seq!["name"@]);
    check_error_value(value)?;
    let id = required_string(value, &id_keys)?;
    let slug = required_string(value, &slug_keys)?;
    let name = required_string(value, &name_keys)?;
    let ingredients = match value.get("recipeIngredient") {
        Some(list) => match list.as_array() {
            Some(items) => ingredients_from_items(items),
            None => Vec::new(),
        },
        None => Vec::new(),
    };
    Ok(Recipe { id, slug, name, ingredients })
}

/// The plan entry that a value describes.
pub fn plan_entry_from_value(value: &Json) -> (r: Result<PlanEntry, AppError>)
    ensures
        match (r, plan_entry_of(*value)) {
            (Ok(x), Ok(y)) => x == y,
            (Err(e), Err(f)) => e@ == f,
            _ => false,
        },
{
    let id_keys: [&str; 1] = ["id"];
    let date_keys: [&str; 1] = ["date"];
    let meal_keys: [&str; 3] = ["entryType", "meal", "type"];
    let title_keys: [&str; 3] = ["title", "text", "name"];
    let name_keys: [&str; 1] = ["name"];
    let recipe_id_keys: [&str; 1] = ["recipeId"];
    let nested_id_keys: [&str; 1] = ["id"];
    let recipe_name_keys: [&str; 1] = ["recipeName"];
    assert(keys_view(id_keys@) =~= seq!["id"@]);
    assert(keys_view(date_keys@) =~= seq!["date"@]);
    assert(keys_view(meal_keys@) =~= seq!["entryType"@, "meal"@, "type"@]);
    assert(keys_view(title_keys@) =~= seq!["title"@, "text"@, "name"@]);
    assert(keys_view(name_keys@) =~= seq!["name"@]);
    assert(keys_view(recipe_id_keys@) =~= seq!["recipeId"@]);
    assert(keys_view(nested_id_keys@) =~= seq!["id"@]);
    assert(keys_view(recipe_name_keys@) =~= seq!["recipeName"@]);
    check_error_value(value)?;
    let id = required_i64(value, &id_keys)?;
    let nested_name = match value.get("recipe") {
        Some(recipe) => optional_string(recipe, &name_keys),
        None => None,
    };
    let nested_id = match value.get("recipe") {
        Some(recipe) => optional_string(recipe, &nested_id_keys),
        None => None,
    };
    let title = match optional_string(value, &title_keys) {
        Some(t) => Some(t),
        None => match &nested_name {
            Some(n) => Some(n.clone()),
            None => None,
        },
    };
    let recipe_id = match optional_string(value, &recipe_id_keys) {
        Some(t) => Some(t),
        None => nested_id,
    };
    let recipe = match nested_name {
        Some(n) => Some(n),
        None => optional_string(value, &recipe_name_keys),
    };
    Ok(
        PlanEntry {
            id,
            date: optional_string(value, &date_keys),
            meal: optional_string(value, &meal_keys),
            title,
            recipe_id,
            recipe,
        },
    )
}

/// What a deletion response reports.
pub fn deleted_plan_entry_from_value(value: &Json) -> (r: Result<DeletedPlanEntry, AppError>)
    ensures
        match (r, deleted_entry_of(*value)) {
            (Ok(x), Ok(y)) => x == y,
            (Err(e), Err(f)) => e@ == f,
            _ => false,
        },
{
    let id_keys: [&str; 1] = ["id"];
    let date_keys: [&str; 1] = ["date"];
    let meal_keys: [&str; 3] = ["entryType", "meal", "type"];
    let title_keys: [&str; 3] = ["title", "text", "name"];
    let name_keys: [&str; 1] = ["name"];
    let recipe_name_keys: [&str; 1] = ["recipeName"];
    assert(keys_view(id_keys@) =~= seq!["id"@]);
    assert(keys_view(date_keys@) =~= seq!["date"@]);
    assert(keys_view(meal_keys@) =~= seq!["entryType"@, "meal"@, "type"@]);
    assert(keys_view(title_keys@) =~= seq!["title"@, "text"@, "name"@]);
    assert(keys_view(name_keys@) =~= seq!["name"@]);
    assert(keys_view(recipe_name_keys@) =~= seq!["recipeName"@]);
    check_error_value(value)?;
    let recipe = match value.get("recipe") {
        Some(r) => optional_string(r, &name_keys),
        None => None,
    };
    let recipe = match recipe {
        Some(n) => Some(n),
        None => optional_string(value, &recipe_name_keys),
    };
    Ok(
        DeletedPlanEntry {
            id: optional_i64(value, &id_keys),
            date: optional_string(value, &date_keys),
            meal: optional_string(value, &meal_keys),
            title: optional_string(value, &title_keys),
            recipe,
        },
    )
}

/// The items of a collection response (see `collection_of`); `None` stands for no items.
pub fn collection_items(value: &Json) -> (r: Option<&Vec<Json>>)
    ensures
        match r {
            Some(a) => a@ == collection_of(*value),
            None => collection_of(*value).len() == 0,
        },
{
    match value.get("items") {
        Some(x) => match x.as_array() {
            Some(a) => {
                return Some(a);
            },
            None => {},
        },
        None => {},
    }
    match value.get("data") {
        Some(x) => match x.as_array() {
            Some(a) => {
                return Some(a);
            },
            None => {},
        },
        None => {},
    }
    value.as_array()
}

/// The recipes that a list's items describe, or the first item's error.
pub open spec fn recipes_of(items: Seq<Json>) -> Result<Seq<RecipeView>, ErrorView>
    decreases items.len(),
{
    if items.len() == 0 {
        Ok(seq![])
    } else {
        match recipes_of(items.drop_last()) {
            Err(e) => Err(e),
            Ok(rs) => match recipe_of(items.last()) {
                Err(e) => Err(e),
                Ok(r) => Ok(rs.push(r)),
            },
        }
    }
}

/// The plan entries that a list's items describe, or the first item's error.
pub open spec fn plan_entries_of(items: Seq<Json>) -> Result<Seq<PlanEntry>, ErrorView>
    decreases items.len(),
{
    if items.len() == 0 {
        Ok(seq![])
    } else {
        match plan_entries_of(items.drop_last()) {
            Err(e) => Err(e),
            Ok(es) => match plan_entry_of(items.last()) {
                Err(e) => Err(e),
                Ok(x) => Ok(es.push(x)),
            },
        }
    }
}

/// The views of a list of recipes.
pub open spec fn recipe_views(rs: Seq<Recipe>) -> Seq<RecipeView> {
    rs.map_values(|r: Recipe| r@)
}

proof fn lemma_recipes_error_persists(items: Seq<Json>, k: int)
    requires
        0 <= k <= items.len(),
        recipes_of(items.take(k)) is Err,
    ensures
        recipes_of(items) == recipes_of(items.take(k)),
    decreases items.len() - k,
{
    if k == items.len() {
        assert(items.take(k) =~= items);
    } else {
        assert(items.drop_last().take(k) =~= items.take(k));
        lemma_recipes_error_persists(items.drop_last(), k);
    }
}

proof fn lemma_entries_error_persists(items: Seq<Json>, k: int)
    requires
        0 <= k <= items.len(),
        plan_entries_of(items.take(k)) is Err,
    ensures
        plan_entries_of(items) == plan_entries_of(items.take(k)),
    decreases items.len() - k,
{
    if k == items.len() {
        assert(items.take(k) =~= items);
    } else {
        assert(items.drop_last().take(k) =~= items.take(k));
        lemma_entries_error_persists(items.drop_last(), k);
    }
}

/// The recipes that a list's items describe.
pub fn recipes_from_items(items: &Vec<Json>) -> (r: Result<Vec<Recipe>, AppError>)
    ensures
        match (r, recipes_of(items@)) {
            (Ok(x), Ok(y)) => recipe_views(x@) == y,
            (Err(e), Err(f)) => e@ == f,
            _ => false,
        },
{
    let mut out: Vec<Recipe> = Vec::new();
    let mut i: usize = 0;
    assert(items@.take(0) =~= Seq::<Json>::empty());
    assert(recipe_views(out@) =~= Seq::<RecipeView>::empty());
    while i < items.len()
        invariant
            i <= items@.len(),
            recipes_of(items@.take(i as int)) == Ok::<Seq<RecipeView>, ErrorView>(
                recipe_views(out@),
            ),
        decreases items@.len() - i,
    {
        let ghost t = items@.take(i + 1);
        assert(t.drop_last() =~= items@.take(i as int));
        assert(t.last() == items@[i as int]);
        let ghost before = out@;
        match recipe_from_value(&items[i]) {
            Ok(x) => {
                out.push(x);
                assert(recipe_views(out@) =~= recipe_views(before).push(out@.last()@));
            },
            Err(e) => {
                proof {
                    lemma_recipes_error_persists(items@, i + 1);
                }
                return Err(e);
            },
        }
        i = i + 1;
    }
    assert(items@.take(items@.len() as int) =~= items@);
    Ok(out)
}

/// The plan entries that a list's items describe.
pub fn plan_entries_from_items(items: &Vec<Json>) -> (r: Result<Vec<PlanEntry>, AppError>)
    ensures
        match (r, plan_entries_of(items@)) {
            (Ok(x), Ok(y)) => x@ == y,
            (Err(e), Err(f)) => e@ == f,
            _ => false,
        },
{
    let mut out: Vec<PlanEntry> = Vec::new();
    let mut i: usize = 0;
    assert(items@.take(0) =~= Seq::<Json>::empty());
    while i < items.len()
        invariant
            i <= items@.len(),
            plan_entries_of(items@.take(i as int)) == Ok::<Seq<PlanEntry>, ErrorView>(out@),
        decreases items@.len() - i,
    {
        let ghost t = items@.take(i + 1);
        assert(t.drop_last() =~= items@.take(i as int));
        assert(t.last() == items@[i as int]);
        match plan_entry_from_value(&items[i]) {
            Ok(x) => {
                out.push(x);
            },
            Err(e) => {
                proof {
                    lemma_entries_error_persists(items@, i + 1);
                }
                return Err(e);
            },
        }
        i = i + 1;
    }
    assert(items@.take(items@.len() as int) =~= items@);
    Ok(out)
}

/// The members of an error object that may carry its message, in the order they are tried.
pub open spec fn error_keys() -> Seq<Seq<char>> {
    seq!["message"@, "detail"@, "error"@, "exception"@]
}

/// The first non-blank string found in a value: the value itself, else the members `message`,
/// `detail`, `error`, `exception` of an object in that order, else the items of an array in
/// order, each searched the same way.
pub open spec fn nested_message(v: Json) -> Option<String>
    decreases v, 0int,
{
    match v {
        Json::Str { text, .. } => if is_blank(text@) {
            None
        } else {
            Some(text)
        },
        Json::Object(entries) => keyed_message(entries@, 0),
        Json::Array(items) => listed_message(items@, 0),
        _ => None,
    }
}

/// `nested_message` over the members named by `error_keys()[k..]`.
pub open spec fn keyed_message(entries: Seq<(String, Json)>, k: int) -> Option<String>
    decreases entries, 4 - k,
{
    if k < 0 || k >= 4 {
        None
    } else {
        let here = match entry_index(entries, error_keys()[k]) {
            Some(i) => {
                proof {
                    lemma_entry_index_bounds(entries, error_keys()[k]);
                }
                nested_message(entries[i].1)
            },
            None => None,
        };
        match here {
            Some(m) => Some(m),
            None => keyed_message(entries, k + 1),
        }
    }
}

/// `nested_message` over `items[i..]`.
pub open spec fn listed_message(items: Seq<Json>, i: int) -> Option<String>
    decreases items, items.len() - i,
{
    if i < 0 || i >= items.len() {
        None
    } else {
        match nested_message(items[i]) {
            Some(m) => Some(m),
            None => listed_message(items, i + 1),
        }
    }
}

/// The first non-blank string found in a value (see `nested_message`).
pub fn nested_error_message(value: &Json) -> (r: Option<String>)
    ensures
        r == nested_message(*value),
    decreases *value, 0int,
{
    match value {
        Json::Str { text, .. } => if is_blank_str(text.as_str()) {
            None
        } else {
            Some(text.clone())
        },
        Json::Object(entries) => keyed_error_message(entries, 0),
        Json::Array(items) => listed_error_message(items, 0),
        _ => None,
    }
}

fn keyed_error_message(entries: &Vec<(String, Json)>, k: usize) -> (r: Option<String>)
    requires
        k <= 4,
    ensures
        r == keyed_message(entries@, k as int),
    decreases entries@, 4 - k,
{
    if k >= 4 {
        return None;
    }
    let key = if k == 0 {
        "message"
    } else if k == 1 {
        "detail"
    } else if k == 2 {
        "error"
    } else {
        "exception"
    };
    assert(key@ == error_keys()[k as int]);
    let here = match find_entry(entries, key) {
        Some(i) => nested_error_message(&entries[i].1),
        None => None,
    };
    match here {
        Some(m) => Some(m),
        None => keyed_error_message(entries, k + 1),
    }
}

fn listed_error_message(items: &Vec<Json>, i: usize) -> (r: Option<String>)
    requires
        i <= items@.len(),
    ensures
        r == listed_message(items@, i as int),
    decreases items@, items@.len() - i,
{
    if i >= items.len() {
        return None;
    }
    match nested_error_message(&items[i]) {
        Some(m) => Some(m),
        None => listed_error_message(items, i + 1),
    }
}

/// The message of a success response whose body is not JSON.
pub const DECODE_ERROR_MESSAGE: &'static str = "error decoding response body";

/// An HTTP response as the API client received it: the status code, the body text (`None`
/// where it could not be read) and the body read as JSON (`None` where it is not JSON).
#[derive(Debug)]
pub struct ApiResponse {
    pub status: u16,
    pub body: Option<String>,
    pub json: Option<Json>,
}

/// A readable detail from an error response body: nothing for a blank body; for a JSON body
/// the nested message found in it, if any; else the body's words joined by single spaces. At
/// most 200 characters.
pub open spec fn error_detail_of(body: Seq<char>, parsed: Option<Json>) -> Option<Seq<char>> {
    let t = trim(body);
    if t.len() == 0 {
        None
    } else {
        match parsed {
            Some(v) => match nested_message(v) {
                Some(m) => Some(take_chars(m@, 200)),
                None => None,
            },
            None => Some(take_chars(squash(t), 200)),
        }
    }
}

/// A readable detail from an error response body (see `error_detail_of`); `parsed` is the
/// body read as JSON, where it is JSON.
pub fn error_detail(body: &str, parsed: Option<&Json>) -> (r: Option<String>)
    ensures
        match r {
            Some(d) => error_detail_of(body@, opt_json(parsed)) == Some(d@),
            None => error_detail_of(body@, opt_json(parsed)) is None,
        },
{
    let trimmed = trim_str(body);
    if trimmed.as_str().unicode_len() == 0 {
        return None;
    }
    match parsed {
        Some(v) => match nested_error_message(v) {
            Some(m) => Some(take_chars_str(m.as_str(), 200)),
            None => None,
        },
        None => {
            let compact = squash_str(trimmed.as_str());
            Some(take_chars_str(compact.as_str(), 200))
        },
    }
}

/// The value of an optional JSON reference.
pub open spec fn opt_json(o: Option<&Json>) -> Option<Json> {
    match o {
        Some(v) => Some(*v),
        None => None,
    }
}

/// Whether a status code reports success (200 to 299).
pub open spec fn is_success(status: u16) -> bool {
    200 <= status <= 299
}

/// The code of a failed request: 401 and 403 are authentication failures, 404 is not found,
/// anything else an API error.
pub open spec fn status_code_category(status: u16) -> ErrorCode {
    if status == 401 || status == 403 {
        ErrorCode::Authentication
    } else if status == 404 {
        ErrorCode::NotFound
    } else {
        ErrorCode::ApiError
    }
}

/// The message of a failed request: the action, the detail where there is one, and the status.
pub open spec fn failure_message(action: Seq<char>, status: u16, detail: Option<Seq<char>>) -> Seq<
    char,
> {
    let s = "HTTP "@ + reqwest_status_display(status as int);
    match detail {
        Some(d) => action + ": "@ + d + " ("@ + s + ")"@,
        None => action + " failed ("@ + s + ")"@,
    }
}

/// The JSON body of a successful response, or the error for the response.
pub open spec fn checked_json_of(resp: ApiResponse, action: Seq<char>) -> Result<Json, ErrorView> {
    if is_success(resp.status) {
        match resp.json {
            Some(v) => Ok(v),
            None => Err(error_of(ErrorCode::ApiError, DECODE_ERROR_MESSAGE@)),
        }
    } else {
        let detail = match resp.body {
            Some(b) => error_detail_of(b@, resp.json),
            None => None,
        };
        Err(
            error_of(
                status_code_category(resp.status),
                failure_message(action, resp.status, detail),
            ),
        )
    }
}

/// Like `checked_json_of`, where a `204 No Content` response has no body.
pub open spec fn checked_optional_json_of(resp: ApiResponse, action: Seq<char>) -> Result<
    Option<Json>,
    ErrorView,
> {
    if resp.status == 204 {
        Ok(None)
    } else {
        match checked_json_of(resp, action) {
            Ok(v) => Ok(Some(v)),
            Err(e) => Err(e),
        }
    }
}

/// The JSON body of a successful response, or the error for the response.
pub fn checked_json(response: ApiResponse, action: &str) -> (r: Result<Json, AppError>)
    requires
        100 <= response.status <= 999,
    ensures
        match (r, checked_json_of(response, action@)) {
            (Ok(x), Ok(y)) => x == y,
            (Err(e), Err(f)) => e@ == f,
            _ => false,
        },
{
    let status = response.status;
    if 200 <= status && status <= 299 {
        return match response.json {
            Some(v) => Ok(v),
            None => Err(AppError::new(ErrorCode::ApiError, DECODE_ERROR_MESSAGE.to_owned())),
        };
    }
    let parsed: Option<&Json> = match &response.json {
        Some(v) => Some(v),
        None => None,
    };
    assert(opt_json(parsed) == response.json);
    let detail = match &response.body {
        Some(b) => error_detail(b.as_str(), parsed),
        None => None,
    };
    let ghost detail_spec = match response.body {
        Some(b) => error_detail_of(b@, response.json),
        None => None,
    };
    assert(match detail {
        Some(d) => detail_spec == Some(d@),
        None => detail_spec is None,
    });
    let status_text = match http_status_text(status) {
        Some(t) => t,
        None => {
            proof {
                assert(false);
            }
            String::new()
        },
    };
    let mut m = String::new();
    append_str(&mut m, action);
    match detail {
        Some(d) => {
            append_str(&mut m, ": ");
            append_str(&mut m, d.as_str());
            append_str(&mut m, " (");
            append_str(&mut m, "HTTP ");
            append_str(&mut m, status_text.as_str());
            append_str(&mut m, ")");
            assert(m@ =~= action@ + ": "@ + d@ + " ("@ + ("HTTP "@ + status_text@) + ")"@);
        },
        None => {
            append_str(&mut m, " failed (");
            append_str(&mut m, "HTTP ");
            append_str(&mut m, status_text.as_str());
            append_str(&mut m, ")");
            assert(m@ =~= action@ + " failed ("@ + ("HTTP "@ + status_text@) + ")"@);
        },
    }
    assert(m@ =~= failure_message(action@, status, detail_spec));
    let code = if status == 401 || status == 403 {
        ErrorCode::Authentication
    } else if status == 404 {
        ErrorCode::NotFound
    } else {
        ErrorCode::ApiError
    };
    Err(AppError::new(code, m))
}

/// Like `checked_json`, where a `204 No Content` response has no body.
pub fn checked_optional_json(response: ApiResponse, action: &str) -> (r: Result<
    Option<Json>,
    AppError,
>)
    requires
        100 <= response.status <= 999,
    ensures
        match (r, checked_optional_json_of(response, action@)) {
            (Ok(x), Ok(y)) => x == y,
            (Err(e), Err(f)) => e@ == f,
            _ => false,
        },
{
    if response.status == 204 {
        return Ok(None);
    }
    match checked_json(response, action) {
        Ok(v) => Ok(Some(v)),
        Err(e) => Err(e),
    }
}

/// A plan entry's title is its own `title` member where that is a string or a number; the
/// `text` member is read only where there is no `title` member.
pub proof fn plan_entry_title_comes_first(v: Json)
    ensures
        match (plan_entry_of(v), member(v, "title"@)) {
            (Ok(e), Some(Json::Str { text, .. })) => e.title == Some(text),
            (Ok(e), Some(Json::Number(n))) => e.title == Some(n.text),
            (Ok(e), None) => match member(v, "text"@) {
                Some(Json::Str { text, .. }) => e.title == Some(text),
                Some(Json::Number(n)) => e.title == Some(n.text),
                _ => true,
            },
            _ => true,
        },
{
    let keys = seq!["title"@, "text"@, "name"@];
    let rest = seq!["text"@, "name"@];
    assert(keys[0] == "title"@);
    assert(keys.drop_first() =~= rest);
    assert(rest[0] == "text"@);
    assert(optional_string_of(v, keys) == match scalar_text_at(v, "title"@) {
        Some(t) => Some(t),
        None => optional_string_of(v, rest),
    });
    assert(optional_string_of(v, rest) == match scalar_text_at(v, "text"@) {
        Some(t) => Some(t),
        None => optional_string_of(v, rest.drop_first()),
    });
}

// The text of the member `key`, where it is a string or a number.
spec fn scalar_text_at(v: Json, key: Seq<char>) -> Option<String> {
    match member(v, key) {
        Some(x) => scalar_text(x),
        None => None,
    }
}

} // verus!
