//! The commands that talk to the API, as a state machine: each step either asks for one HTTP
//! request or finishes with the command's result. The program that embeds the library performs
//! the requests and hands back each reply.
use vstd::prelude::*;

use crate::client::{
    checked_json_of, checked_optional_json_of, collection_of, deleted_entry_of,
    checked_json, checked_optional_json, collection_items, deleted_plan_entry_from_value,
    keys_view, plan_entries_from_items, plan_entry_from_value, recipe_from_value,
    recipe_views, recipes_from_items,
    optional_i64, optional_int_of, plan_entries_of, plan_entry_of, recipe_of, recipes_of, ApiResponse, DeletedPlanEntry, PlanCreateRequest, PlanEntry, Recipe, RecipeView,
};
use crate::error::{error_of, AppError, ErrorCode, ErrorView};
use crate::json::Json;
use crate::meal_type::{meal_name, MealType};
use crate::output::{
    CommandOutput, OutputView, Presentation, PresentationView, Record, RecordView, Scalar,
    ScalarView, scalar_view,
};
use crate::bindings::chrono_date_display;
use crate::cli::{ApiCommand, PlanCommand, PlanSetArgs, PlanSetTargetArgs, RecipesCommand};
use crate::date_input::{
    date_input_in_domain, date_input_supported, parse_date_input, plan_range_defined,
    resolve_plan_range_checked, resolved_date, resolved_range, Date,
};
use crate::text::{
    is_blank, is_blank_str, opt_str_view, opt_view,
    append_str, concat2, eq_ignore_ascii_case, eq_ignore_ascii_case_str, i64_text, int_text,
    nat_text, u64_text,
};

verus! {

/// HTTP methods the client uses.
#[derive(Debug, Clone, Copy, PartialEq, Eq, Structural)]
pub enum HttpMethod {
    Get,
    Post,
    Delete,
}

/// A request to the API: the path below the base URL, the query parameters, and the JSON body
/// of a creation.
#[derive(Debug, Clone, PartialEq)]
pub struct ApiRequest {
    pub method: HttpMethod,
    pub path: String,
    pub query: Vec<(String, String)>,
    pub body: Option<PlanCreateRequest>,
}

/// The body of a creation, as values.
pub struct BodyView {
    pub date: Seq<char>,
    pub entry_type: Seq<char>,
    pub title: Option<Seq<char>>,
    pub text: Option<Seq<char>>,
    pub recipe_id: Option<Seq<char>>,
}

/// A request, as values.
pub struct RequestView {
    pub method: HttpMethod,
    pub path: Seq<char>,
    pub query: Seq<(Seq<char>, Seq<char>)>,
    pub body: Option<BodyView>,
}

pub open spec fn body_view(b: PlanCreateRequest) -> BodyView {
    BodyView {
        date: b.date@,
        entry_type: b.entry_type@,
        title: opt_view(b.title),
        text: opt_view(b.text),
        recipe_id: opt_view(b.recipe_id),
    }
}

pub open spec fn query_view(q: Seq<(String, String)>) -> Seq<(Seq<char>, Seq<char>)> {
    q.map_values(|p: (String, String)| (p.0@, p.1@))
}

impl View for ApiRequest {
    type V = RequestView;

    open spec fn view(&self) -> RequestView {
        RequestView {
            method: self.method,
            path: self.path@,
            query: query_view(self.query@),
            body: match self.body {
                Some(b) => Some(body_view(b)),
                None => None,
            },
        }
    }
}

/// The `page` parameter, sent for pages after the first.
pub open spec fn page_param(page: int) -> Seq<(Seq<char>, Seq<char>)> {
    if page > 1 {
        seq![("page"@, nat_text(page as nat))]
    } else {
        seq![]
    }
}

/// A page of a recipe search.
pub open spec fn search_request_view(query: Seq<char>, per_page: int, page: int) -> RequestView {
    RequestView {
        method: HttpMethod::Get,
        path: "/api/recipes"@,
        query: seq![("search"@, query), ("perPage"@, nat_text(per_page as nat))] + page_param(page),
        body: None,
    }
}

/// One recipe, by slug.
pub open spec fn recipe_request_view(slug: Seq<char>) -> RequestView {
    RequestView { method: HttpMethod::Get, path: "/api/recipes/"@ + slug, query: seq![], body: None }
}

/// A page of the meal plan between two dates, oldest first.
pub open spec fn plan_list_request_view(from: Seq<char>, to: Seq<char>, page: int) -> RequestView {
    RequestView {
        method: HttpMethod::Get,
        path: "/api/households/mealplans"@,
        query: seq![
            ("start_date"@, from),
            ("end_date"@, to),
            ("perPage"@, "100"@),
            ("orderBy"@, "date"@),
            ("orderDirection"@, "asc"@),
        ] + page_param(page),
        body: None,
    }
}

/// The creation of a meal plan entry.
pub open spec fn create_request_view(body: BodyView) -> RequestView {
    RequestView {
        method: HttpMethod::Post,
        path: "/api/households/mealplans"@,
        query: seq![],
        body: Some(body),
    }
}

/// The deletion of a meal plan entry.
pub open spec fn delete_request_view(id: int) -> RequestView {
    RequestView {
        method: HttpMethod::Delete,
        path: "/api/households/mealplans/"@ + int_text(id),
        query: seq![],
        body: None,
    }
}

/// The request that checks the token: the current user.
pub open spec fn auth_request_view() -> RequestView {
    RequestView { method: HttpMethod::Get, path: "/api/users/self"@, query: seq![], body: None }
}

fn pair(a: &str, b: String) -> (r: (String, String))
    ensures
        r.0@ == a@,
        r.1@ == b@,
{
    (a.to_owned(), b)
}

fn push_page(query: &mut Vec<(String, String)>, page: u64)
    ensures
        query_view(final(query)@) == query_view(old(query)@) + page_param(page as int),
{
    let ghost before = query@;
    if page > 1 {
        query.push(pair("page", u64_text(page)));
        assert(query_view(query@) =~= query_view(before) + page_param(page as int));
    } else {
        assert(query_view(query@) =~= query_view(before) + page_param(page as int));
    }
}

/// A page of a recipe search.
pub fn search_request(query: &str, per_page: u32, page: u64) -> (r: ApiRequest)
    ensures
        r@ == search_request_view(query@, per_page as int, page as int),
{
    let mut q: Vec<(String, String)> = Vec::new();
    q.push(pair("search", query.to_owned()));
    q.push(pair("perPage", u64_text(per_page as u64)));
    let ghost base = query_view(q@);
    assert(base =~= seq![("search"@, query@), ("perPage"@, nat_text(per_page as nat))]);
    push_page(&mut q, page);
    ApiRequest { method: HttpMethod::Get, path: "/api/recipes".to_owned(), query: q, body: None }
}

/// One recipe, by slug.
pub fn recipe_request(slug: &str) -> (r: ApiRequest)
    ensures
        r@ == recipe_request_view(slug@),
{
    let q: Vec<(String, String)> = Vec::new();
    assert(query_view(q@) =~= Seq::<(Seq<char>, Seq<char>)>::empty());
    ApiRequest {
        method: HttpMethod::Get,
        path: concat2("/api/recipes/", slug),
        query: q,
        body: None,
    }
}

/// A page of the meal plan between two dates.
pub fn plan_list_request(from: &str, to: &str, page: u64) -> (r: ApiRequest)
    ensures
        r@ == plan_list_request_view(from@, to@, page as int),
{
    let mut q: Vec<(String, String)> = Vec::new();
    q.push(pair("start_date", from.to_owned()));
    q.push(pair("end_date", to.to_owned()));
    q.push(pair("perPage", "100".to_owned()));
    q.push(pair("orderBy", "date".to_owned()));
    q.push(pair("orderDirection", "asc".to_owned()));
    assert(query_view(q@) =~= seq![
        ("start_date"@, from@),
        ("end_date"@, to@),
        ("perPage"@, "100"@),
        ("orderBy"@, "date"@),
        ("orderDirection"@, "asc"@),
    ]);
    push_page(&mut q, page);
    ApiRequest {
        method: HttpMethod::Get,
        path: "/api/households/mealplans".to_owned(),
        query: q,
        body: None,
    }
}

/// The creation of a meal plan entry.
pub fn create_request(body: PlanCreateRequest) -> (r: ApiRequest)
    ensures
        r@ == create_request_view(body_view(body)),
{
    let q: Vec<(String, String)> = Vec::new();
    assert(query_view(q@) =~= Seq::<(Seq<char>, Seq<char>)>::empty());
    ApiRequest {
        method: HttpMethod::Post,
        path: "/api/households/mealplans".to_owned(),
        query: q,
        body: Some(body),
    }
}

/// The deletion of a meal plan entry.
pub fn delete_request(id: i64) -> (r: ApiRequest)
    ensures
        r@ == delete_request_view(id as int),
{
    let q: Vec<(String, String)> = Vec::new();
    assert(query_view(q@) =~= Seq::<(Seq<char>, Seq<char>)>::empty());
    let mut path = String::new();
    append_str(&mut path, "/api/households/mealplans/");
    append_str(&mut path, i64_text(id).as_str());
    ApiRequest { method: HttpMethod::Delete, path, query: q, body: None }
}

/// The request that checks the token.
pub fn auth_request() -> (r: ApiRequest)
    ensures
        r@ == auth_request_view(),
{
    let q: Vec<(String, String)> = Vec::new();
    assert(query_view(q@) =~= Seq::<(Seq<char>, Seq<char>)>::empty());
    ApiRequest {
        method: HttpMethod::Get,
        path: "/api/users/self".to_owned(),
        query: q,
        body: None,
    }
}

/// An optional text as a plain value (`null` where absent).
pub open spec fn text_view(o: Option<String>) -> ScalarView {
    match o {
        Some(s) => ScalarView::Text(s@),
        None => ScalarView::Null,
    }
}

/// The first fields of every command record: `ok` true and the record's `type`.
pub open spec fn head(kind: Seq<char>) -> Seq<(Seq<char>, ScalarView)> {
    seq![("ok"@, ScalarView::Bool(true)), ("type"@, ScalarView::Text(kind))]
}

/// A search result: a recipe's id, slug and name.
pub open spec fn summary_record(r: RecipeView) -> RecordView {
    RecordView {
        fields: head("recipe"@) + seq![
            ("id"@, ScalarView::Text(r.id@)),
            ("slug"@, ScalarView::Text(r.slug@)),
            ("name"@, ScalarView::Text(r.name@)),
        ],
        ingredients: None,
    }
}

/// A recipe with its ingredients.
pub open spec fn details_record(r: RecipeView) -> RecordView {
    RecordView { fields: summary_record(r).fields, ingredients: Some(r.ingredients) }
}

/// A listed meal plan entry.
pub open spec fn entry_record(e: PlanEntry) -> RecordView {
    RecordView {
        fields: head("plan_entry"@) + seq![
            ("id"@, ScalarView::Int(e.id as int)),
            ("date"@, text_view(e.date)),
            ("meal"@, text_view(e.meal)),
            ("title"@, text_view(e.title)),
            ("recipeId"@, text_view(e.recipe_id)),
            ("recipe"@, text_view(e.recipe)),
        ],
        ingredients: None,
    }
}

/// A created meal plan entry.
pub open spec fn created_record(e: PlanEntry) -> RecordView {
    RecordView {
        fields: head("plan_created"@) + seq![
            ("id"@, ScalarView::Int(e.id as int)),
            ("date"@, text_view(e.date)),
            ("meal"@, text_view(e.meal)),
            ("title"@, text_view(e.title)),
            ("recipe"@, text_view(e.recipe)),
            ("recipeId"@, text_view(e.recipe_id)),
        ],
        ingredients: None,
    }
}

/// A replaced (deleted) meal plan entry.
pub open spec fn replaced_record(e: PlanEntry) -> RecordView {
    RecordView {
        fields: head("plan_deleted"@) + seq![
            ("id"@, ScalarView::Int(e.id as int)),
            ("date"@, text_view(e.date)),
            ("meal"@, text_view(e.meal)),
            ("title"@, text_view(e.title)),
            ("recipe"@, text_view(e.recipe)),
        ],
        ingredients: None,
    }
}

/// A deleted meal plan entry, as the deletion reported it; its id falls back to the id that
/// was deleted.
pub open spec fn deleted_record(id: int, d: DeletedPlanEntry) -> RecordView {
    RecordView {
        fields: head("plan_deleted"@) + seq![
            (
                "id"@,
                ScalarView::Int(
                    match d.id {
                        Some(i) => i as int,
                        None => id,
                    },
                ),
            ),
            ("date"@, text_view(d.date)),
            ("meal"@, text_view(d.meal)),
            ("title"@, text_view(d.title)),
            ("recipe"@, text_view(d.recipe)),
        ],
        ingredients: None,
    }
}

/// The result of a search that found nothing.
pub open spec fn empty_recipes_record(query: Seq<char>) -> RecordView {
    RecordView {
        fields: head("empty"@) + seq![
            ("resource"@, ScalarView::Text("recipe"@)),
            ("query"@, ScalarView::Text(query)),
        ],
        ingredients: None,
    }
}

/// The result of a listing that found nothing.
pub open spec fn empty_plan_record(from: Seq<char>, to: Seq<char>) -> RecordView {
    RecordView {
        fields: head("empty"@) + seq![
            ("resource"@, ScalarView::Text("plan_entry"@)),
            ("from"@, ScalarView::Text(from)),
            ("to"@, ScalarView::Text(to)),
        ],
        ingredients: None,
    }
}

fn text_scalar(o: &Option<String>) -> (r: Scalar)
    ensures
        scalar_view(r) == text_view(*o),
{
    match o {
        Some(s) => Scalar::Text(s.clone()),
        None => Scalar::Null,
    }
}

fn field(key: &str, value: Scalar) -> (r: (String, Scalar))
    ensures
        r.0@ == key@,
        r.1 == value,
{
    (key.to_owned(), value)
}

fn head_fields(kind: &str) -> (r: Vec<(String, Scalar)>)
    ensures
        fields_view(r@) == head(kind@),
{
    let mut v: Vec<(String, Scalar)> = Vec::new();
    v.push(field("ok", Scalar::Bool(true)));
    v.push(field("type", Scalar::Text(kind.to_owned())));
    assert(fields_view(v@) =~= head(kind@));
    v
}

/// The views of a record's fields.
pub open spec fn fields_view(f: Seq<(String, Scalar)>) -> Seq<(Seq<char>, ScalarView)> {
    f.map_values(|p: (String, Scalar)| (p.0@, scalar_view(p.1)))
}

fn push_field(v: &mut Vec<(String, Scalar)>, key: &str, value: Scalar)
    ensures
        fields_view(final(v)@) == fields_view(old(v)@).push((key@, scalar_view(value))),
{
    let ghost before = v@;
    v.push(field(key, value));
    assert(fields_view(v@) =~= fields_view(before).push((key@, scalar_view(value))));
}

fn summary_fields(r: &Recipe) -> (out: Vec<(String, Scalar)>)
    ensures
        fields_view(out@) == summary_record(r@).fields,
{
    let mut v = head_fields("recipe");
    push_field(&mut v, "id", Scalar::Text(r.id.clone()));
    push_field(&mut v, "slug", Scalar::Text(r.slug.clone()));
    push_field(&mut v, "name", Scalar::Text(r.name.clone()));
    assert(fields_view(v@) =~= summary_record(r@).fields);
    v
}

fn summary_record_of(r: &Recipe) -> (out: Record)
    ensures
        out@ == summary_record(r@),
{
    let fields = summary_fields(r);
    Record { fields, ingredients: None }
}

fn details_record_of(r: Recipe) -> (out: Record)
    ensures
        out@ == details_record(r@),
{
    let fields = summary_fields(&r);
    Record { fields, ingredients: Some(r.ingredients) }
}

fn entry_record_of(e: &PlanEntry) -> (out: Record)
    ensures
        out@ == entry_record(*e),
{
    let mut v = head_fields("plan_entry");
    push_field(&mut v, "id", Scalar::Int(e.id));
    push_field(&mut v, "date", text_scalar(&e.date));
    push_field(&mut v, "meal", text_scalar(&e.meal));
    push_field(&mut v, "title", text_scalar(&e.title));
    push_field(&mut v, "recipeId", text_scalar(&e.recipe_id));
    push_field(&mut v, "recipe", text_scalar(&e.recipe));
    assert(fields_view(v@) =~= entry_record(*e).fields);
    Record { fields: v, ingredients: None }
}

fn created_record_of(e: &PlanEntry) -> (out: Record)
    ensures
        out@ == created_record(*e),
{
    let mut v = head_fields("plan_created");
    push_field(&mut v, "id", Scalar::Int(e.id));
    push_field(&mut v, "date", text_scalar(&e.date));
    push_field(&mut v, "meal", text_scalar(&e.meal));
    push_field(&mut v, "title", text_scalar(&e.title));
    push_field(&mut v, "recipe", text_scalar(&e.recipe));
    push_field(&mut v, "recipeId", text_scalar(&e.recipe_id));
    assert(fields_view(v@) =~= created_record(*e).fields);
    Record { fields: v, ingredients: None }
}

fn replaced_record_of(e: &PlanEntry) -> (out: Record)
    ensures
        out@ == replaced_record(*e),
{
    let mut v = head_fields("plan_deleted");
    push_field(&mut v, "id", Scalar::Int(e.id));
    push_field(&mut v, "date", text_scalar(&e.date));
    push_field(&mut v, "meal", text_scalar(&e.meal));
    push_field(&mut v, "title", text_scalar(&e.title));
    push_field(&mut v, "recipe", text_scalar(&e.recipe));
    assert(fields_view(v@) =~= replaced_record(*e).fields);
    Record { fields: v, ingredients: None }
}

fn deleted_record_of(id: i64, d: &DeletedPlanEntry) -> (out: Record)
    ensures
        out@ == deleted_record(id as int, *d),
{
    let mut v = head_fields("plan_deleted");
    let shown = match d.id {
        Some(i) => i,
        None => id,
    };
    push_field(&mut v, "id", Scalar::Int(shown));
    push_field(&mut v, "date", text_scalar(&d.date));
    push_field(&mut v, "meal", text_scalar(&d.meal));
    push_field(&mut v, "title", text_scalar(&d.title));
    push_field(&mut v, "recipe", text_scalar(&d.recipe));
    assert(fields_view(v@) =~= deleted_record(id as int, *d).fields);
    Record { fields: v, ingredients: None }
}

fn empty_recipes_record_of(query: &str) -> (out: Record)
    ensures
        out@ == empty_recipes_record(query@),
{
    let mut v = head_fields("empty");
    push_field(&mut v, "resource", Scalar::Text("recipe".to_owned()));
    push_field(&mut v, "query", Scalar::Text(query.to_owned()));
    assert(fields_view(v@) =~= empty_recipes_record(query@).fields);
    Record { fields: v, ingredients: None }
}

fn empty_plan_record_of(from: &str, to: &str) -> (out: Record)
    ensures
        out@ == empty_plan_record(from@, to@),
{
    let mut v = head_fields("empty");
    push_field(&mut v, "resource", Scalar::Text("plan_entry".to_owned()));
    push_field(&mut v, "from", Scalar::Text(from.to_owned()));
    push_field(&mut v, "to", Scalar::Text(to.to_owned()));
    assert(fields_view(v@) =~= empty_plan_record(from@, to@).fields);
    Record { fields: v, ingredients: None }
}

/// What a resolved recipe is for: showing it, or planning it on a date and meal.
#[derive(Debug)]
pub enum RecipeUse {
    Details,
    Plan { date: String, meal: MealType },
}

/// What a meal plan listing is for: showing it (for one meal type or all), or finding the
/// entry that `plan set` replaces.
#[derive(Debug)]
pub enum ListUse {
    Show { meal: Option<MealType> },
    Replace { date: String, meal: MealType, recipe: Option<Recipe>, title: Option<String> },
}

/// Where a command stands between two requests.
#[derive(Debug)]
pub enum Session {
    /// Awaiting a recipe search.
    Searching { query: String },
    /// Awaiting the recipe whose slug is `query`.
    FetchingRecipe { query: String, then: RecipeUse },
    /// Awaiting a page of the search for recipes named `query`, with the exact (ASCII
    /// case-insensitive) name matches so far.
    MatchingName { query: String, page: u64, matches: Vec<Recipe>, then: RecipeUse },
    /// Awaiting a page of the meal plan, with the entries so far.
    Listing { from: String, to: String, page: u64, entries: Vec<PlanEntry>, then: ListUse },
    /// Awaiting the creation of an entry, which replaces `existing` where there is one.
    Creating { existing: Option<PlanEntry> },
    /// Awaiting the deletion of the entry that `created` replaces.
    Replacing { created: PlanEntry, original: PlanEntry },
    /// Awaiting the deletion of the new entry after the original could not be deleted.
    RollingBack { failure: AppError },
    /// Awaiting the deletion of an entry.
    Deleting { id: i64 },
    /// Nothing more to do.
    Finished,
}

/// What to do next: send a request, or finish with the command's result.
#[derive(Debug)]
pub enum Step {
    Send(ApiRequest),
    Finish(Result<CommandOutput, AppError>),
}

pub enum RecipeUseView {
    Details,
    Plan { date: Seq<char>, meal: MealType },
}

pub enum ListUseView {
    Show { meal: Option<MealType> },
    Replace {
        date: Seq<char>,
        meal: MealType,
        recipe: Option<RecipeView>,
        title: Option<Seq<char>>,
    },
}

pub enum SessionView {
    Searching { query: Seq<char> },
    FetchingRecipe { query: Seq<char>, then: RecipeUseView },
    MatchingName { query: Seq<char>, page: int, matches: Seq<RecipeView>, then: RecipeUseView },
    Listing { from: Seq<char>, to: Seq<char>, page: int, entries: Seq<PlanEntry>, then: ListUseView },
    Creating { existing: Option<PlanEntry> },
    Replacing { created: PlanEntry, original: PlanEntry },
    RollingBack { failure: ErrorView },
    Deleting { id: int },
    Finished,
}

pub enum StepView {
    Send(RequestView),
    Finish(Result<OutputView, ErrorView>),
}

impl View for RecipeUse {
    type V = RecipeUseView;

    open spec fn view(&self) -> RecipeUseView {
        match self {
            RecipeUse::Details => RecipeUseView::Details,
            RecipeUse::Plan { date, meal } => RecipeUseView::Plan { date: date@, meal: *meal },
        }
    }
}

impl View for ListUse {
    type V = ListUseView;

    open spec fn view(&self) -> ListUseView {
        match self {
            ListUse::Show { meal } => ListUseView::Show { meal: *meal },
            ListUse::Replace { date, meal, recipe, title } => ListUseView::Replace {
                date: date@,
                meal: *meal,
                recipe: match recipe {
                    Some(r) => Some(r@),
                    None => None,
                },
                title: opt_view(*title),
            },
        }
    }
}

impl View for Session {
    type V = SessionView;

    open spec fn view(&self) -> SessionView {
        match self {
            Session::Searching { query } => SessionView::Searching { query: query@ },
            Session::FetchingRecipe { query, then } => SessionView::FetchingRecipe {
                query: query@,
                then: then@,
            },
            Session::MatchingName { query, page, matches, then } => SessionView::MatchingName {
                query: query@,
                page: *page as int,
                matches: matches@.map_values(|r: Recipe| r@),
                then: then@,
            },
            Session::Listing { from, to, page, entries, then } => SessionView::Listing {
                from: from@,
                to: to@,
                page: *page as int,
                entries: entries@,
                then: then@,
            },
            Session::Creating { existing } => SessionView::Creating { existing: *existing },
            Session::Replacing { created, original } => SessionView::Replacing {
                created: *created,
                original: *original,
            },
            Session::RollingBack { failure } => SessionView::RollingBack { failure: failure@ },
            Session::Deleting { id } => SessionView::Deleting { id: *id as int },
            Session::Finished => SessionView::Finished,
        }
    }
}

impl View for Step {
    type V = StepView;

    open spec fn view(&self) -> StepView {
        match self {
            Step::Send(r) => StepView::Send(r@),
            Step::Finish(Ok(o)) => StepView::Finish(Ok(o@)),
            Step::Finish(Err(e)) => StepView::Finish(Err(e@)),
        }
    }
}

/// A reply to a request: the response, or the error for a request that could not be made.
pub open spec fn reply_view(reply: Result<ApiResponse, AppError>) -> Result<ApiResponse, ErrorView> {
    match reply {
        Ok(r) => Ok(r),
        Err(e) => Err(e@),
    }
}

/// The JSON body of a reply, or its error.
pub open spec fn reply_json(reply: Result<ApiResponse, ErrorView>, action: Seq<char>) -> Result<
    Json,
    ErrorView,
> {
    match reply {
        Ok(r) => checked_json_of(r, action),
        Err(e) => Err(e),
    }
}

/// What a deletion reports, or its error; a reply without a body reports the deleted id.
pub open spec fn deletion_of(reply: Result<ApiResponse, ErrorView>, id: int) -> Result<
    DeletedPlanEntry,
    ErrorView,
> {
    match reply {
        Err(e) => Err(e),
        Ok(r) => match checked_optional_json_of(r, "delete meal plan"@) {
            Err(e) => Err(e),
            Ok(None) => Ok(
                DeletedPlanEntry {
                    id: Some(id as i64),
                    date: None,
                    meal: None,
                    title: None,
                    recipe: None,
                },
            ),
            Ok(Some(v)) => deleted_entry_of(v),
        },
    }
}

/// Whether a collection response announces a page after `page` (`total_pages` or
/// `totalPages`).
pub open spec fn has_next_page(v: Json, page: int) -> bool {
    optional_int_of(v, seq!["total_pages"@, "totalPages"@]) matches Some(t) && page < t
}

/// The recipes whose name is `query`, ignoring ASCII case.
pub open spec fn name_matches(rs: Seq<RecipeView>, query: Seq<char>) -> Seq<RecipeView>
    decreases rs.len(),
{
    if rs.len() == 0 {
        seq![]
    } else {
        let rest = name_matches(rs.drop_last(), query);
        if eq_ignore_ascii_case(rs.last().name@, query) {
            rest.push(rs.last())
        } else {
            rest
        }
    }
}

/// The candidates of an ambiguous name, as `name (slug)` separated by commas.
pub open spec fn candidates_text(rs: Seq<RecipeView>) -> Seq<char>
    decreases rs.len(),
{
    if rs.len() == 0 {
        seq![]
    } else if rs.len() == 1 {
        rs[0].name@ + " ("@ + rs[0].slug@ + ")"@
    } else {
        candidates_text(rs.drop_last()) + ", "@ + rs.last().name@ + " ("@ + rs.last().slug@ + ")"@
    }
}

/// The error for a recipe reference that matches no slug and no name.
pub open spec fn recipe_not_found() -> ErrorView {
    error_of(ErrorCode::NotFound, "getting recipe: Recipe not found"@)
}

/// The error for a recipe name that several recipes carry.
pub open spec fn ambiguous_recipe(query: Seq<char>, rs: Seq<RecipeView>) -> ErrorView {
    error_of(
        ErrorCode::Ambiguous,
        "recipe name \""@ + query + "\" matches more than one recipe: "@ + candidates_text(rs),
    )
}

/// The error for more than one entry on the date and meal being set.
pub open spec fn duplicate_entries_message() -> Seq<char> {
    "multiple existing plan entries match this date and meal type; remove duplicates before replacing"@
}

/// The finish of a command.
pub open spec fn finish(r: Result<OutputView, ErrorView>) -> (SessionView, StepView) {
    (SessionView::Finished, StepView::Finish(r))
}

/// The entries of `es` for meal `meal`, or all of them.
pub open spec fn of_meal(es: Seq<PlanEntry>, meal: Option<MealType>) -> Seq<PlanEntry>
    decreases es.len(),
{
    if es.len() == 0 {
        seq![]
    } else {
        let rest = of_meal(es.drop_last(), meal);
        let keep = match meal {
            None => true,
            Some(m) => opt_view(es.last().meal) == Some(meal_name(m)),
        };
        if keep {
            rest.push(es.last())
        } else {
            rest
        }
    }
}

/// The entries of `es` on `date` for meal `meal`.
pub open spec fn on_slot(es: Seq<PlanEntry>, date: Seq<char>, meal: MealType) -> Seq<PlanEntry>
    decreases es.len(),
{
    if es.len() == 0 {
        seq![]
    } else {
        let rest = on_slot(es.drop_last(), date, meal);
        if opt_view(es.last().date) == Some(date) && opt_view(es.last().meal) == Some(meal_name(meal)) {
            rest.push(es.last())
        } else {
            rest
        }
    }
}

/// The body of the entry that `plan set` creates: the recipe where one was given, else the
/// title (with an empty description).
pub open spec fn plan_body(date: Seq<char>, meal: MealType, recipe: Option<RecipeView>, title: Option<Seq<char>>) -> BodyView {
    match recipe {
        Some(r) => BodyView {
            date,
            entry_type: meal_name(meal),
            title: None,
            text: None,
            recipe_id: Some(r.id@),
        },
        None => BodyView {
            date,
            entry_type: meal_name(meal),
            title: Some(
                match title {
                    Some(t) => t,
                    None => seq![],
                },
            ),
            text: Some(seq![]),
            recipe_id: None,
        },
    }
}

/// What follows once a recipe reference is resolved.
pub open spec fn recipe_resolved(r: RecipeView, then: RecipeUseView) -> (SessionView, StepView) {
    match then {
        RecipeUseView::Details => finish(
            Ok(
                OutputView {
                    presentation: PresentationView::RecipeDetails,
                    values: seq![details_record(r)],
                },
            ),
        ),
        RecipeUseView::Plan { date, meal } => (
            SessionView::Listing {
                from: date,
                to: date,
                page: 1,
                entries: seq![],
                then: ListUseView::Replace { date, meal, recipe: Some(r), title: None },
            },
            StepView::Send(plan_list_request_view(date, date, 1)),
        ),
    }
}

/// What follows once every page of the meal plan has arrived.
pub open spec fn listed(from: Seq<char>, to: Seq<char>, all: Seq<PlanEntry>, then: ListUseView) -> (
    SessionView,
    StepView,
) {
    match then {
        ListUseView::Show { meal } => {
            let shown = of_meal(all, meal);
            finish(
                Ok(
                    OutputView {
                        presentation: PresentationView::PlanList { from, to },
                        values: if shown.len() == 0 {
                            seq![empty_plan_record(from, to)]
                        } else {
                            shown.map_values(|e: PlanEntry| entry_record(e))
                        },
                    },
                ),
            )
        },
        ListUseView::Replace { date, meal, recipe, title } => {
            let existing = on_slot(all, date, meal);
            if existing.len() > 1 {
                finish(Err(error_of(ErrorCode::ApiError, duplicate_entries_message())))
            } else {
                (
                    SessionView::Creating {
                        existing: if existing.len() == 1 {
                            Some(existing[0])
                        } else {
                            None
                        },
                    },
                    StepView::Send(create_request_view(plan_body(date, meal, recipe, title))),
                )
            }
        },
    }
}

/// The message for a replacement whose original entry could not be deleted.
pub open spec fn rollback_message(rolled_back: bool, failure: Seq<char>) -> Seq<char> {
    (if rolled_back {
        "replacement could not remove the original entry; the new entry was rolled back"@
    } else {
        "replacement could not remove the original entry and the new entry could not be rolled back"@
    }) + ": "@ + failure
}

/// The transition of the command state machine on a reply.
pub open spec fn next(s: SessionView, reply: Result<ApiResponse, ErrorView>) -> (SessionView, StepView) {
    match s {
        SessionView::Searching { query } => match reply_json(reply, "search recipes"@) {
            Err(e) => finish(Err(e)),
            Ok(v) => match recipes_of(collection_of(v)) {
                Err(e) => finish(Err(e)),
                Ok(rs) => finish(
                    Ok(
                        OutputView {
                            presentation: PresentationView::RecipeSearch { query },
                            values: if rs.len() == 0 {
                                seq![empty_recipes_record(query)]
                            } else {
                                rs.map_values(|r: RecipeView| summary_record(r))
                            },
                        },
                    ),
                ),
            },
        },
        SessionView::FetchingRecipe { query, then } => {
            let found = match reply_json(reply, "get recipe"@) {
                Err(e) => Err(e),
                Ok(v) => recipe_of(v),
            };
            match found {
                Ok(r) => recipe_resolved(r, then),
                Err(e) => if e.code == ErrorCode::NotFound {
                    (
                        SessionView::MatchingName { query, page: 1, matches: seq![], then },
                        StepView::Send(search_request_view(query, 100, 1)),
                    )
                } else {
                    finish(Err(e))
                },
            }
        },
        SessionView::MatchingName { query, page, matches, then } => match reply_json(
            reply,
            "search recipes"@,
        ) {
            Err(e) => finish(Err(e)),
            Ok(v) => match recipes_of(collection_of(v)) {
                Err(e) => finish(Err(e)),
                Ok(rs) => {
                    let all = matches + name_matches(rs, query);
                    if has_next_page(v, page) {
                        (
                            SessionView::MatchingName { query, page: page + 1, matches: all, then },
                            StepView::Send(search_request_view(query, 100, page + 1)),
                        )
                    } else if all.len() == 0 {
                        finish(Err(recipe_not_found()))
                    } else if all.len() == 1 {
                        recipe_resolved(all[0], then)
                    } else {
                        finish(Err(ambiguous_recipe(query, all)))
                    }
                },
            },
        },
        SessionView::Listing { from, to, page, entries, then } => match reply_json(
            reply,
            "list meal plans"@,
        ) {
            Err(e) => finish(Err(e)),
            Ok(v) => match plan_entries_of(collection_of(v)) {
                Err(e) => finish(Err(e)),
                Ok(es) => {
                    let all = entries + es;
                    if has_next_page(v, page) {
                        (
                            SessionView::Listing { from, to, page: page + 1, entries: all, then },
                            StepView::Send(plan_list_request_view(from, to, page + 1)),
                        )
                    } else {
                        listed(from, to, all, then)
                    }
                },
            },
        },
        SessionView::Creating { existing } => {
            let created = match reply_json(reply, "create meal plan"@) {
                Err(e) => Err(e),
                Ok(v) => plan_entry_of(v),
            };
            match created {
                Err(e) => finish(Err(e)),
                Ok(c) => match existing {
                    None => finish(
                        Ok(
                            OutputView {
                                presentation: PresentationView::PlanSet,
                                values: seq![created_record(c)],
                            },
                        ),
                    ),
                    Some(o) => (
                        SessionView::Replacing { created: c, original: o },
                        StepView::Send(delete_request_view(o.id as int)),
                    ),
                },
            }
        },
        SessionView::Replacing { created, original } => match deletion_of(reply, original.id as int) {
            Ok(_) => finish(
                Ok(
                    OutputView {
                        presentation: PresentationView::PlanSet,
                        values: seq![created_record(created), replaced_record(original)],
                    },
                ),
            ),
            Err(e) => (
                SessionView::RollingBack { failure: e },
                StepView::Send(delete_request_view(created.id as int)),
            ),
        },
        SessionView::RollingBack { failure } => finish(
            Err(
                error_of(
                    failure.code,
                    rollback_message(deletion_of(reply, 0) is Ok, failure.message),
                ),
            ),
        ),
        SessionView::Deleting { id } => match deletion_of(reply, id) {
            Ok(d) => finish(
                Ok(
                    OutputView {
                        presentation: PresentationView::PlanDelete,
                        values: seq![deleted_record(id, d)],
                    },
                ),
            ),
            Err(e) => finish(Err(e)),
        },
        SessionView::Finished => finish(Err(error_of(ErrorCode::ApiError, seq![]))),
    }
}

fn reply_to_json(reply: Result<ApiResponse, AppError>, action: &str) -> (r: Result<Json, AppError>)
    requires
        reply matches Ok(resp) ==> 100 <= resp.status <= 999,
    ensures
        match (r, reply_json(reply_view(reply), action@)) {
            (Ok(x), Ok(y)) => x == y,
            (Err(e), Err(f)) => e@ == f,
            _ => false,
        },
{
    match reply {
        Ok(resp) => checked_json(resp, action),
        Err(e) => Err(e),
    }
}

fn deletion(reply: Result<ApiResponse, AppError>, id: i64) -> (r: Result<DeletedPlanEntry, AppError>)
    requires
        reply matches Ok(resp) ==> 100 <= resp.status <= 999,
    ensures
        match (r, deletion_of(reply_view(reply), id as int)) {
            (Ok(x), Ok(y)) => x == y,
            (Err(e), Err(f)) => e@ == f,
            _ => false,
        },
{
    match reply {
        Err(e) => Err(e),
        Ok(resp) => match checked_optional_json(resp, "delete meal plan") {
            Err(e) => Err(e),
            Ok(None) => Ok(
                DeletedPlanEntry { id: Some(id), date: None, meal: None, title: None, recipe: None },
            ),
            Ok(Some(v)) => deleted_plan_entry_from_value(&v),
        },
    }
}

fn recipes_in(v: &Json) -> (r: Result<Vec<Recipe>, AppError>)
    ensures
        match (r, recipes_of(collection_of(*v))) {
            (Ok(x), Ok(y)) => recipe_views(x@) == y,
            (Err(e), Err(f)) => e@ == f,
            _ => false,
        },
{
    match collection_items(v) {
        Some(items) => recipes_from_items(items),
        None => {
            let empty: Vec<Recipe> = Vec::new();
            assert(collection_of(*v) =~= Seq::<Json>::empty());
            assert(recipe_views(empty@) =~= Seq::<RecipeView>::empty());
            Ok(empty)
        },
    }
}

fn entries_in(v: &Json) -> (r: Result<Vec<PlanEntry>, AppError>)
    ensures
        match (r, plan_entries_of(collection_of(*v))) {
            (Ok(x), Ok(y)) => x@ == y,
            (Err(e), Err(f)) => e@ == f,
            _ => false,
        },
{
    match collection_items(v) {
        Some(items) => plan_entries_from_items(items),
        None => {
            let empty: Vec<PlanEntry> = Vec::new();
            assert(collection_of(*v) =~= Seq::<Json>::empty());
            assert(empty@ =~= Seq::<PlanEntry>::empty());
            Ok(empty)
        },
    }
}

fn has_next(v: &Json, page: u64) -> (r: bool)
    ensures
        r == has_next_page(*v, page as int),
        r ==> page < i64::MAX,
{
    let keys: [&str; 2] = ["total_pages", "totalPages"];
    assert(keys_view(keys@) =~= seq!["total_pages"@, "totalPages"@]);
    match optional_i64(v, &keys) {
        Some(t) => t >= 0 && (page as i128) < (t as i128),
        None => false,
    }
}

fn filter_names(rs: Vec<Recipe>, query: &str) -> (r: Vec<Recipe>)
    ensures
        recipe_views(r@) == name_matches(recipe_views(rs@), query@),
{
    let ghost all = recipe_views(rs@);
    let mut out: Vec<Recipe> = Vec::new();
    assert(all.take(0) =~= Seq::<RecipeView>::empty());
    assert(recipe_views(out@) =~= Seq::<RecipeView>::empty());
    for r in it: rs.into_iter()
        invariant
            it.seq() == rs@,
            all == recipe_views(rs@),
            recipe_views(out@) == name_matches(all.take(it.index() as int), query@),
    {
        let ghost i = it.index();
        proof {
            assert(r == rs@[i as int]);
            let t = all.take(i + 1);
            assert(t.drop_last() =~= all.take(i as int));
            assert(t.last() == all[i as int]);
        }
        if eq_ignore_ascii_case_str(r.name.as_str(), query) {
            let ghost before = out@;
            out.push(r);
            assert(recipe_views(out@) =~= recipe_views(before).push(out@.last()@));
        }
    }
    assert(all.take(all.len() as int) =~= all);
    out
}

fn candidates(rs: &Vec<Recipe>) -> (r: String)
    ensures
        r@ == candidates_text(recipe_views(rs@)),
{
    let ghost all = recipe_views(rs@);
    let mut out = String::new();
    let mut i: usize = 0;
    assert(all.take(0) =~= Seq::<RecipeView>::empty());
    while i < rs.len()
        invariant
            i <= rs@.len(),
            all == recipe_views(rs@),
            out@ == candidates_text(all.take(i as int)),
        decreases rs@.len() - i,
    {
        let ghost t = all.take(i + 1);
        assert(t.drop_last() =~= all.take(i as int));
        assert(t.last() == rs@[i as int]@);
        if i > 0 {
            append_str(&mut out, ", ");
        }
        append_str(&mut out, rs[i].name.as_str());
        append_str(&mut out, " (");
        append_str(&mut out, rs[i].slug.as_str());
        append_str(&mut out, ")");
        proof {
            if i == 0 {
                assert(t[0] == rs@[0]@);
                assert(out@ =~= candidates_text(t));
            }
        }
        i = i + 1;
    }
    assert(all.take(rs@.len() as int) =~= all);
    out
}

fn meal_matches(e: &PlanEntry, meal: MealType) -> (r: bool)
    ensures
        r == (opt_view(e.meal) == Some(meal_name(meal))),
{
    match &e.meal {
        Some(m) => crate::text::str_eq(m.as_str(), meal.as_str()),
        None => false,
    }
}

fn date_matches(e: &PlanEntry, date: &str) -> (r: bool)
    ensures
        r == (opt_view(e.date) == Some(date@)),
{
    match &e.date {
        Some(d) => crate::text::str_eq(d.as_str(), date),
        None => false,
    }
}

fn entries_of_meal(es: Vec<PlanEntry>, meal: Option<MealType>) -> (r: Vec<PlanEntry>)
    ensures
        r@ == of_meal(es@, meal),
{
    let mut out: Vec<PlanEntry> = Vec::new();
    assert(es@.take(0) =~= Seq::<PlanEntry>::empty());
    for e in it: es.into_iter()
        invariant
            it.seq() == es@,
            out@ == of_meal(es@.take(it.index() as int), meal),
    {
        let ghost i = it.index();
        proof {
            let t = es@.take(i + 1);
            assert(t.drop_last() =~= es@.take(i as int));
            assert(t.last() == es@[i as int]);
        }
        let keep = match meal {
            None => true,
            Some(m) => meal_matches(&e, m),
        };
        if keep {
            out.push(e);
        }
    }
    assert(es@.take(es@.len() as int) =~= es@);
    out
}

fn entries_on_slot(es: Vec<PlanEntry>, date: &str, meal: MealType) -> (r: Vec<PlanEntry>)
    ensures
        r@ == on_slot(es@, date@, meal),
{
    let mut out: Vec<PlanEntry> = Vec::new();
    assert(es@.take(0) =~= Seq::<PlanEntry>::empty());
    for e in it: es.into_iter()
        invariant
            it.seq() == es@,
            out@ == on_slot(es@.take(it.index() as int), date@, meal),
    {
        let ghost i = it.index();
        proof {
            let t = es@.take(i + 1);
            assert(t.drop_last() =~= es@.take(i as int));
            assert(t.last() == es@[i as int]);
        }
        if date_matches(&e, date) && meal_matches(&e, meal) {
            out.push(e);
        }
    }
    assert(es@.take(es@.len() as int) =~= es@);
    out
}

/// The views of a list of records.
pub open spec fn records_view(rs: Seq<Record>) -> Seq<RecordView> {
    rs.map_values(|r: Record| r@)
}

fn summary_records(rs: &Vec<Recipe>) -> (r: Vec<Record>)
    ensures
        records_view(r@) == recipe_views(rs@).map_values(|x: RecipeView| summary_record(x)),
{
    let mut out: Vec<Record> = Vec::new();
    let mut i: usize = 0;
    while i < rs.len()
        invariant
            i <= rs@.len(),
            out@.len() == i,
            forall|j: int| 0 <= j < i ==> (#[trigger] out@[j])@ == summary_record(rs@[j]@),
        decreases rs@.len() - i,
    {
        out.push(summary_record_of(&rs[i]));
        i = i + 1;
    }
    assert(records_view(out@) =~= recipe_views(rs@).map_values(|x: RecipeView| summary_record(x)));
    out
}

fn entry_records(es: &Vec<PlanEntry>) -> (r: Vec<Record>)
    ensures
        records_view(r@) == es@.map_values(|e: PlanEntry| entry_record(e)),
{
    let mut out: Vec<Record> = Vec::new();
    let mut i: usize = 0;
    while i < es.len()
        invariant
            i <= es@.len(),
            out@.len() == i,
            forall|j: int| 0 <= j < i ==> (#[trigger] out@[j])@ == entry_record(es@[j]),
        decreases es@.len() - i,
    {
        out.push(entry_record_of(&es[i]));
        i = i + 1;
    }
    assert(records_view(out@) =~= es@.map_values(|e: PlanEntry| entry_record(e)));
    out
}

fn output_of(presentation: Presentation, values: Vec<Record>) -> (r: CommandOutput)
    ensures
        r@ == (OutputView { presentation: presentation@, values: records_view(values@) }),
{
    CommandOutput { presentation, values }
}

fn done(r: Result<CommandOutput, AppError>) -> (out: (Session, Step))
    ensures
        (out.0@, out.1@) == finish(
            match r {
                Ok(o) => Ok(o@),
                Err(e) => Err(e@),
            },
        ),
{
    (Session::Finished, Step::Finish(r))
}

fn resolved(r: Recipe, then: RecipeUse) -> (out: (Session, Step))
    ensures
        (out.0@, out.1@) == recipe_resolved(r@, then@),
{
    match then {
        RecipeUse::Details => {
            let record = details_record_of(r);
            let mut values: Vec<Record> = Vec::new();
            values.push(record);
            assert(records_view(values@) =~= seq![details_record(r@)]);
            done(Ok(output_of(Presentation::RecipeDetails, values)))
        },
        RecipeUse::Plan { date, meal } => {
            let request = plan_list_request(date.as_str(), date.as_str(), 1);
            let entries: Vec<PlanEntry> = Vec::new();
            assert(entries@ =~= Seq::<PlanEntry>::empty());
            let to = date.clone();
            let key = date.clone();
            (
                Session::Listing {
                    from: date,
                    to,
                    page: 1,
                    entries,
                    then: ListUse::Replace { date: key, meal, recipe: Some(r), title: None },
                },
                Step::Send(request),
            )
        },
    }
}

fn body_for(date: &str, meal: MealType, recipe: &Option<Recipe>, title: &Option<String>) -> (r: PlanCreateRequest)
    ensures
        body_view(r) == plan_body(
            date@,
            meal,
            match recipe {
                Some(x) => Some(x@),
                None => None,
            },
            opt_view(*title),
        ),
{
    match recipe {
        Some(x) => {
            let b = PlanCreateRequest::recipe(date, meal.as_str(), x.id.as_str());
            assert(opt_view(b.title) == None::<Seq<char>>);
            assert(opt_view(b.text) == None::<Seq<char>>);
            b
        },
        None => {
            let t = match title {
                Some(t) => t.as_str(),
                None => "",
            };
            let b = PlanCreateRequest::title(date, meal.as_str(), t);
            proof {
                reveal_strlit("");
                assert(""@ =~= Seq::<char>::empty());
            }
            b
        },
    }
}

fn list_done(from: String, to: String, all: Vec<PlanEntry>, then: ListUse) -> (out: (Session, Step))
    ensures
        (out.0@, out.1@) == listed(from@, to@, all@, then@),
{
    match then {
        ListUse::Show { meal } => {
            let shown = entries_of_meal(all, meal);
            let values = if shown.len() == 0 {
                let mut v: Vec<Record> = Vec::new();
                v.push(empty_plan_record_of(from.as_str(), to.as_str()));
                assert(records_view(v@) =~= seq![empty_plan_record(from@, to@)]);
                v
            } else {
                entry_records(&shown)
            };
            done(Ok(output_of(Presentation::PlanList { from, to }, values)))
        },
        ListUse::Replace { date, meal, recipe, title } => {
            let mut existing = entries_on_slot(all, date.as_str(), meal);
            if existing.len() > 1 {
                return done(
                    Err(
                        AppError::new(
                            ErrorCode::ApiError,
                            "multiple existing plan entries match this date and meal type; remove duplicates before replacing".to_owned(),
                        ),
                    ),
                );
            }
            let body = body_for(date.as_str(), meal, &recipe, &title);
            let request = create_request(body);
            let original = existing.pop();
            (Session::Creating { existing: original }, Step::Send(request))
        },
    }
}

fn on_search(query: String, reply: Result<ApiResponse, AppError>) -> (r: (Session, Step))
    requires
        reply matches Ok(resp) ==> 100 <= resp.status <= 999,
    ensures
        (r.0@, r.1@) == next(SessionView::Searching { query: query@ }, reply_view(reply)),
{
    let v = match reply_to_json(reply, "search recipes") {
        Err(e) => {
            return done(Err(e));
        },
        Ok(v) => v,
    };
    let rs = match recipes_in(&v) {
        Err(e) => {
            return done(Err(e));
        },
        Ok(rs) => rs,
    };
    let values = if rs.len() == 0 {
        let mut out: Vec<Record> = Vec::new();
        out.push(empty_recipes_record_of(query.as_str()));
        assert(records_view(out@) =~= seq![empty_recipes_record(query@)]);
        out
    } else {
        summary_records(&rs)
    };
    done(Ok(output_of(Presentation::RecipeSearch { query }, values)))
}

fn on_recipe(query: String, then: RecipeUse, reply: Result<ApiResponse, AppError>) -> (r: (
    Session,
    Step,
))
    requires
        reply matches Ok(resp) ==> 100 <= resp.status <= 999,
    ensures
        (r.0@, r.1@) == next(
            SessionView::FetchingRecipe { query: query@, then: then@ },
            reply_view(reply),
        ),
{
    let found = match reply_to_json(reply, "get recipe") {
        Err(e) => Err(e),
        Ok(v) => recipe_from_value(&v),
    };
    match found {
        Ok(r) => resolved(r, then),
        Err(e) => if e.code() == ErrorCode::NotFound {
            let request = search_request(query.as_str(), 100, 1);
            let matches: Vec<Recipe> = Vec::new();
            assert(recipe_views(matches@) =~= Seq::<RecipeView>::empty());
            (Session::MatchingName { query, page: 1, matches, then }, Step::Send(request))
        } else {
            done(Err(e))
        },
    }
}

fn ambiguity(query: &str, all: &Vec<Recipe>) -> (r: AppError)
    ensures
        r@ == ambiguous_recipe(query@, recipe_views(all@)),
{
    let mut m = String::new();
    append_str(&mut m, "recipe name \"");
    append_str(&mut m, query);
    append_str(&mut m, "\" matches more than one recipe: ");
    append_str(&mut m, candidates(all).as_str());
    AppError::new(ErrorCode::Ambiguous, m)
}

fn on_name_page(
    query: String,
    page: u64,
    matches: Vec<Recipe>,
    then: RecipeUse,
    reply: Result<ApiResponse, AppError>,
) -> (r: (Session, Step))
    requires
        reply matches Ok(resp) ==> 100 <= resp.status <= 999,
    ensures
        (r.0@, r.1@) == next(
            SessionView::MatchingName {
                query: query@,
                page: page as int,
                matches: recipe_views(matches@),
                then: then@,
            },
            reply_view(reply),
        ),
{
    let v = match reply_to_json(reply, "search recipes") {
        Err(e) => {
            return done(Err(e));
        },
        Ok(v) => v,
    };
    let rs = match recipes_in(&v) {
        Err(e) => {
            return done(Err(e));
        },
        Ok(rs) => rs,
    };
    let mut all = matches;
    let ghost before = recipe_views(all@);
    let mut found = filter_names(rs, query.as_str());
    let ghost added = recipe_views(found@);
    all.append(&mut found);
    assert(recipe_views(all@) =~= before + added);
    if has_next(&v, page) {
        let request = search_request(query.as_str(), 100, page + 1);
        return (
            Session::MatchingName { query, page: page + 1, matches: all, then },
            Step::Send(request),
        );
    }
    if all.len() == 0 {
        return done(
            Err(AppError::new(ErrorCode::NotFound, "getting recipe: Recipe not found".to_owned())),
        );
    }
    if all.len() == 1 {
        let r = all.pop().unwrap();
        return resolved(r, then);
    }
    let e = ambiguity(query.as_str(), &all);
    done(Err(e))
}

fn on_plan_page(
    from: String,
    to: String,
    page: u64,
    entries: Vec<PlanEntry>,
    then: ListUse,
    reply: Result<ApiResponse, AppError>,
) -> (r: (Session, Step))
    requires
        reply matches Ok(resp) ==> 100 <= resp.status <= 999,
    ensures
        (r.0@, r.1@) == next(
            SessionView::Listing {
                from: from@,
                to: to@,
                page: page as int,
                entries: entries@,
                then: then@,
            },
            reply_view(reply),
        ),
{
    let v = match reply_to_json(reply, "list meal plans") {
        Err(e) => {
            return done(Err(e));
        },
        Ok(v) => v,
    };
    let mut es = match entries_in(&v) {
        Err(e) => {
            return done(Err(e));
        },
        Ok(es) => es,
    };
    let mut all = entries;
    let ghost before = all@;
    let ghost added = es@;
    all.append(&mut es);
    assert(all@ =~= before + added);
    if has_next(&v, page) {
        let request = plan_list_request(from.as_str(), to.as_str(), page + 1);
        return (
            Session::Listing { from, to, page: page + 1, entries: all, then },
            Step::Send(request),
        );
    }
    list_done(from, to, all, then)
}

fn on_created(existing: Option<PlanEntry>, reply: Result<ApiResponse, AppError>) -> (r: (
    Session,
    Step,
))
    requires
        reply matches Ok(resp) ==> 100 <= resp.status <= 999,
    ensures
        (r.0@, r.1@) == next(SessionView::Creating { existing }, reply_view(reply)),
{
    let created = match reply_to_json(reply, "create meal plan") {
        Err(e) => Err(e),
        Ok(v) => plan_entry_from_value(&v),
    };
    match created {
        Err(e) => done(Err(e)),
        Ok(c) => match existing {
            None => {
                let mut values: Vec<Record> = Vec::new();
                values.push(created_record_of(&c));
                assert(records_view(values@) =~= seq![created_record(c)]);
                done(Ok(output_of(Presentation::PlanSet, values)))
            },
            Some(o) => {
                let request = delete_request(o.id);
                (Session::Replacing { created: c, original: o }, Step::Send(request))
            },
        },
    }
}

fn on_replaced(created: PlanEntry, original: PlanEntry, reply: Result<ApiResponse, AppError>) -> (r: (
    Session,
    Step,
))
    requires
        reply matches Ok(resp) ==> 100 <= resp.status <= 999,
    ensures
        (r.0@, r.1@) == next(SessionView::Replacing { created, original }, reply_view(reply)),
{
    match deletion(reply, original.id) {
        Ok(_) => {
            let mut values: Vec<Record> = Vec::new();
            values.push(created_record_of(&created));
            values.push(replaced_record_of(&original));
            assert(records_view(values@) =~= seq![
                created_record(created),
                replaced_record(original),
            ]);
            done(Ok(output_of(Presentation::PlanSet, values)))
        },
        Err(e) => {
            let request = delete_request(created.id);
            (Session::RollingBack { failure: e }, Step::Send(request))
        },
    }
}

fn on_rolled_back(failure: AppError, reply: Result<ApiResponse, AppError>) -> (r: (Session, Step))
    requires
        reply matches Ok(resp) ==> 100 <= resp.status <= 999,
    ensures
        (r.0@, r.1@) == next(SessionView::RollingBack { failure: failure@ }, reply_view(reply)),
{
    let rolled_back = deletion(reply, 0).is_ok();
    let mut m = String::new();
    if rolled_back {
        append_str(
            &mut m,
            "replacement could not remove the original entry; the new entry was rolled back",
        );
    } else {
        append_str(
            &mut m,
            "replacement could not remove the original entry and the new entry could not be rolled back",
        );
    }
    append_str(&mut m, ": ");
    append_str(&mut m, failure.to_string().as_str());
    done(Err(AppError::new(failure.code(), m)))
}

fn on_deleted(id: i64, reply: Result<ApiResponse, AppError>) -> (r: (Session, Step))
    requires
        reply matches Ok(resp) ==> 100 <= resp.status <= 999,
    ensures
        (r.0@, r.1@) == next(SessionView::Deleting { id: id as int }, reply_view(reply)),
{
    match deletion(reply, id) {
        Ok(d) => {
            let mut values: Vec<Record> = Vec::new();
            values.push(deleted_record_of(id, &d));
            assert(records_view(values@) =~= seq![deleted_record(id as int, d)]);
            done(Ok(output_of(Presentation::PlanDelete, values)))
        },
        Err(e) => done(Err(e)),
    }
}

/// A command session ends exactly when it has a result: every step either sends a request and
/// keeps the session going, or finishes it.
pub proof fn finishes_exactly_with_a_result(s: SessionView, reply: Result<ApiResponse, ErrorView>)
    ensures
        next(s, reply).0 is Finished <==> next(s, reply).1 is Finish,
{
}

/// The command's next step once the reply to its last request has arrived.
pub fn advance(session: Session, reply: Result<ApiResponse, AppError>) -> (r: (Session, Step))
    requires
        !(session is Finished),
        reply matches Ok(resp) ==> 100 <= resp.status <= 999,
    ensures
        (r.0@, r.1@) == next(session@, reply_view(reply)),
        r.0 is Finished <==> r.1 is Finish,
{
    proof {
        finishes_exactly_with_a_result(session@, reply_view(reply));
    }
    match session {
        Session::Searching { query } => on_search(query, reply),
        Session::FetchingRecipe { query, then } => on_recipe(query, then, reply),
        Session::MatchingName { query, page, matches, then } => on_name_page(
            query,
            page,
            matches,
            then,
            reply,
        ),
        Session::Listing { from, to, page, entries, then } => on_plan_page(
            from,
            to,
            page,
            entries,
            then,
            reply,
        ),
        Session::Creating { existing } => on_created(existing, reply),
        Session::Replacing { created, original } => on_replaced(created, original, reply),
        Session::RollingBack { failure } => on_rolled_back(failure, reply),
        Session::Deleting { id } => on_deleted(id, reply),
        Session::Finished => done(Err(AppError::new(ErrorCode::ApiError, String::new()))),
    }
}

/// Whether a command can start: its date arguments lie within the date language's domain and
/// the range of a listing has its week boundaries within chrono's calendar.
pub open spec fn start_defined(command: ApiCommand, today: int) -> bool {
    match command {
        ApiCommand::Plan(PlanCommand::List { from, to, meal_type: _ }) => plan_range_defined(
            opt_view(from),
            opt_view(to),
            today,
        ),
        ApiCommand::Plan(PlanCommand::SetEntry(a)) => date_input_in_domain(a.date@),
        _ => true,
    }
}

/// The message for a blank search.
pub open spec fn empty_query_message() -> Seq<char> {
    "recipe search query cannot be empty"@
}

/// The message for `plan set` without exactly one of a title and a recipe.
pub open spec fn set_target_message() -> Seq<char> {
    "provide exactly one of --title or --recipe"@
}

/// The first step of a command, relative to `today`: its first request, or its error.
pub open spec fn started(command: ApiCommand, today: int) -> (SessionView, StepView) {
    match command {
        ApiCommand::Recipes(RecipesCommand::Search { query, limit }) => if is_blank(query@) {
            finish(Err(error_of(ErrorCode::InvalidArgs, empty_query_message())))
        } else {
            (
                SessionView::Searching { query: query@ },
                StepView::Send(search_request_view(query@, limit as int, 1)),
            )
        },
        ApiCommand::Recipes(RecipesCommand::Get { slug }) => (
            SessionView::FetchingRecipe { query: slug@, then: RecipeUseView::Details },
            StepView::Send(recipe_request_view(slug@)),
        ),
        ApiCommand::Plan(PlanCommand::List { from, to, meal_type }) => match resolved_range(
            opt_view(from),
            opt_view(to),
            today,
        ) {
            Err(e) => finish(Err(e)),
            Ok((a, b)) => {
                let (f, t) = (chrono_date_display(a), chrono_date_display(b));
                (
                    SessionView::Listing {
                        from: f,
                        to: t,
                        page: 1,
                        entries: seq![],
                        then: ListUseView::Show { meal: meal_type },
                    },
                    StepView::Send(plan_list_request_view(f, t, 1)),
                )
            },
        },
        ApiCommand::Plan(PlanCommand::SetEntry(a)) => match resolved_date("--date"@, a.date@, today) {
            Err(e) => finish(Err(e)),
            Ok(d) => {
                let date = chrono_date_display(d);
                match (a.target.title, a.target.recipe) {
                    (Some(t), None) => (
                        SessionView::Listing {
                            from: date,
                            to: date,
                            page: 1,
                            entries: seq![],
                            then: ListUseView::Replace {
                                date,
                                meal: a.meal_type,
                                recipe: None,
                                title: Some(t@),
                            },
                        },
                        StepView::Send(plan_list_request_view(date, date, 1)),
                    ),
                    (None, Some(q)) => (
                        SessionView::FetchingRecipe {
                            query: q@,
                            then: RecipeUseView::Plan { date, meal: a.meal_type },
                        },
                        StepView::Send(recipe_request_view(q@)),
                    ),
                    _ => finish(Err(error_of(ErrorCode::InvalidArgs, set_target_message()))),
                }
            },
        },
        ApiCommand::Plan(PlanCommand::Delete { id }) => (
            SessionView::Deleting { id: id as int },
            StepView::Send(delete_request_view(id as int)),
        ),
    }
}

fn as_deref(o: &Option<String>) -> (r: Option<&str>)
    ensures
        opt_str_view(r) == opt_view(*o),
{
    match o {
        Some(s) => Some(s.as_str()),
        None => None,
    }
}

fn start_listing(from: String, to: String, then: ListUse) -> (r: (Session, Step))
    ensures
        r.0@ == (SessionView::Listing {
            from: from@,
            to: to@,
            page: 1,
            entries: seq![],
            then: then@,
        }),
        r.1@ == StepView::Send(plan_list_request_view(from@, to@, 1)),
{
    let request = plan_list_request(from.as_str(), to.as_str(), 1);
    let entries: Vec<PlanEntry> = Vec::new();
    assert(entries@ =~= Seq::<PlanEntry>::empty());
    (Session::Listing { from, to, page: 1, entries, then }, Step::Send(request))
}

fn start_set(args: PlanSetArgs, today: Date) -> (r: (Session, Step))
    requires
        date_input_in_domain(args.date@),
    ensures
        (r.0@, r.1@) == started(ApiCommand::Plan(PlanCommand::SetEntry(args)), today@),
{
    let PlanSetArgs { date, meal_type, target } = args;
    let d = match parse_date_input("--date", date.as_str(), today) {
        Err(e) => {
            return done(Err(e));
        },
        Ok(d) => d,
    };
    let day = d.to_text();
    let PlanSetTargetArgs { title, recipe } = target;
    match (title, recipe) {
        (Some(t), None) => {
            let key = day.clone();
            let to = day.clone();
            start_listing(
                day,
                to,
                ListUse::Replace { date: key, meal: meal_type, recipe: None, title: Some(t) },
            )
        },
        (None, Some(q)) => {
            let request = recipe_request(q.as_str());
            (
                Session::FetchingRecipe { query: q, then: RecipeUse::Plan { date: day, meal: meal_type } },
                Step::Send(request),
            )
        },
        _ => done(
            Err(
                AppError::new(
                    ErrorCode::InvalidArgs,
                    "provide exactly one of --title or --recipe".to_owned(),
                ),
            ),
        ),
    }
}

/// The first step of a command that talks to the API, relative to `today`; `None` where the
/// command's arguments lie outside what it can resolve (see `start_defined`).
pub fn start(command: ApiCommand, today: Date) -> (r: Option<(Session, Step)>)
    ensures
        r is Some <==> start_defined(command, today@),
        r matches Some(x) ==> (x.0@, x.1@) == started(command, today@),
        r matches Some(x) ==> (x.0 is Finished <==> x.1 is Finish),
{
    match command {
        ApiCommand::Recipes(RecipesCommand::Search { query, limit }) => {
            if is_blank_str(query.as_str()) {
                return Some(
                    done(
                        Err(
                            AppError::new(
                                ErrorCode::InvalidArgs,
                                "recipe search query cannot be empty".to_owned(),
                            ),
                        ),
                    ),
                );
            }
            let request = search_request(query.as_str(), limit, 1);
            Some((Session::Searching { query }, Step::Send(request)))
        },
        ApiCommand::Recipes(RecipesCommand::Get { slug }) => {
            let request = recipe_request(slug.as_str());
            Some((Session::FetchingRecipe { query: slug, then: RecipeUse::Details }, Step::Send(request)))
        },
        ApiCommand::Plan(PlanCommand::List { from, to, meal_type }) => {
            let range = match resolve_plan_range_checked(as_deref(&from), as_deref(&to), today) {
                None => {
                    return None;
                },
                Some(range) => range,
            };
            match range {
                Err(e) => Some(done(Err(e))),
                Ok((a, b)) => Some(
                    start_listing(a.to_text(), b.to_text(), ListUse::Show { meal: meal_type }),
                ),
            }
        },
        ApiCommand::Plan(PlanCommand::SetEntry(args)) => {
            if !date_input_supported(args.date.as_str()) {
                return None;
            }
            Some(start_set(args, today))
        },
        ApiCommand::Plan(PlanCommand::Delete { id }) => {
            let request = delete_request(id);
            Some((Session::Deleting { id }, Step::Send(request)))
        },
    }
}

/// The outcome of the token check: the current user could be read, or the request's error.
pub open spec fn auth_outcome_of(reply: Result<ApiResponse, ErrorView>) -> Result<(), ErrorView> {
    match reply_json(reply, "check authentication"@) {
        Ok(_) => Ok(()),
        Err(e) => Err(e),
    }
}

/// The outcome of the token check (`auth_request`) from its reply.
pub fn auth_outcome(reply: Result<ApiResponse, AppError>) -> (r: Result<(), AppError>)
    requires
        reply matches Ok(resp) ==> 100 <= resp.status <= 999,
    ensures
        match (r, auth_outcome_of(reply_view(reply))) {
            (Ok(()), Ok(())) => true,
            (Err(e), Err(f)) => e@ == f,
            _ => false,
        },
{
    match reply_to_json(reply, "check authentication") {
        Ok(_) => Ok(()),
        Err(e) => Err(e),
    }
}

} // verus!
