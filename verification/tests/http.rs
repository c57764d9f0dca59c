use chrono::{Datelike, Duration, Local, NaiveDate};
use mealie_cli::cli::{ApiCommand, PlanCommand, PlanSetArgs, PlanSetTargetArgs, RecipesCommand};
use mealie_cli::client::{ApiResponse, Ingredient, PlanCreateRequest};
use mealie_cli::date_input::Date;
use mealie_cli::json::{FloatValue, Json, JsonNumber};
use mealie_cli::meal_type::MealType;
use mealie_cli::output::{is_presentable, write_human, write_quiet, CommandOutput, Record, Scalar};
use mealie_cli::session::{advance, auth_outcome, auth_request, start, ApiRequest, HttpMethod, Step};
use mealie_cli::status::{status_finish, status_start, StatusStart};
use mealie_cli::{AppError, ErrorCode};

const URL: &str = "http://127.0.0.1:1234";

fn env() -> Vec<(String, String)> {
    vec![
        ("MEALIE_URL".to_string(), URL.to_string()),
        ("MEALIE_TOKEN".to_string(), "secret-token".to_string()),
        ("USE_INSECURE_HTTP".to_string(), "yes".to_string()),
    ]
}

fn float_value(f: f64) -> FloatValue {
    FloatValue {
        rendering: if f.is_finite() {
            Some(serde_json::Value::from(f).to_string())
        } else {
            None
        },
    }
}

fn to_json(v: &serde_json::Value) -> Json {
    match v {
        serde_json::Value::Null => Json::Null,
        serde_json::Value::Bool(b) => Json::Bool(*b),
        serde_json::Value::Number(n) => Json::Number(JsonNumber {
            text: n.to_string(),
            int: n.as_i64(),
            float: float_value(n.as_f64().unwrap_or(f64::NAN)),
        }),
        serde_json::Value::String(s) => Json::Str {
            text: s.clone(),
            float: s.parse::<f64>().ok().map(float_value),
        },
        serde_json::Value::Array(items) => Json::Array(items.iter().map(to_json).collect()),
        serde_json::Value::Object(map) => {
            Json::Object(map.iter().map(|(k, v)| (k.clone(), to_json(v))).collect())
        }
    }
}

fn response(status: u16, body: &str) -> ApiResponse {
    ApiResponse {
        status,
        body: Some(body.to_string()),
        json: serde_json::from_str::<serde_json::Value>(body.trim())
            .ok()
            .map(|v| to_json(&v)),
    }
}

/// One expected request and the reply it gets.
struct Exchange {
    method: HttpMethod,
    path: String,
    query: Option<Vec<(String, String)>>,
    body: Option<serde_json::Value>,
    status: u16,
    reply: String,
}

fn expect(method: HttpMethod, path: &str) -> Exchange {
    Exchange {
        method,
        path: path.to_string(),
        query: None,
        body: None,
        status: 200,
        reply: String::new(),
    }
}

impl Exchange {
    fn query(mut self, pairs: &[(&str, &str)]) -> Self {
        self.query = Some(pairs.iter().map(|(k, v)| (k.to_string(), v.to_string())).collect());
        self
    }

    fn body(mut self, json: &str) -> Self {
        self.body = Some(serde_json::from_str(json).expect("expected body JSON"));
        self
    }

    fn reply(mut self, status: u16, body: &str) -> Self {
        self.status = status;
        self.reply = body.to_string();
        self
    }
}

fn plan_query(from: &str, to: &str) -> Vec<(&'static str, String)> {
    vec![
        ("start_date", from.to_string()),
        ("end_date", to.to_string()),
        ("perPage", "100".to_string()),
        ("orderBy", "date".to_string()),
        ("orderDirection", "asc".to_string()),
    ]
}

fn with_plan_query(ex: Exchange, from: &str, to: &str, extra: &[(&str, &str)]) -> Exchange {
    let mut pairs: Vec<(String, String)> = plan_query(from, to)
        .into_iter()
        .map(|(k, v)| (k.to_string(), v))
        .collect();
    for (k, v) in extra {
        pairs.push((k.to_string(), v.to_string()));
    }
    Exchange { query: Some(pairs), ..ex }
}

fn body_value(b: &PlanCreateRequest) -> serde_json::Value {
    let mut map = serde_json::Map::new();
    map.insert("date".into(), b.date.clone().into());
    map.insert("entryType".into(), b.entry_type.clone().into());
    if let Some(t) = &b.title {
        map.insert("title".into(), t.clone().into());
    }
    if let Some(t) = &b.text {
        map.insert("text".into(), t.clone().into());
    }
    if let Some(r) = &b.recipe_id {
        map.insert("recipeId".into(), r.clone().into());
    }
    serde_json::Value::Object(map)
}

fn sorted(mut pairs: Vec<(String, String)>) -> Vec<(String, String)> {
    pairs.sort();
    pairs
}

fn check(request: &ApiRequest, ex: &Exchange) {
    assert_eq!(request.method, ex.method, "method of {request:?}");
    assert_eq!(request.path.replace(' ', "%20"), ex.path, "path of {request:?}");
    if let Some(q) = &ex.query {
        assert_eq!(sorted(request.query.clone()), sorted(q.clone()), "query of {request:?}");
    }
    if let Some(b) = &ex.body {
        let sent = request.body.as_ref().map(body_value);
        assert_eq!(sent.as_ref(), Some(b), "body of {request:?}");
    }
}

/// Runs a command against a scripted server: each request must be the next expected one.
fn run(command: ApiCommand, today: Date, script: Vec<Exchange>) -> Result<CommandOutput, AppError> {
    let (mut session, mut step) = start(command, today).expect("command can start");
    let mut script = script.into_iter();
    loop {
        match step {
            Step::Finish(result) => {
                assert!(script.next().is_none(), "an expected request was not sent");
                return result;
            }
            Step::Send(request) => {
                let ex = script
                    .next()
                    .unwrap_or_else(|| panic!("unexpected request {request:?}"));
                check(&request, &ex);
                let (s, st) = advance(session, Ok(response(ex.status, &ex.reply)));
                session = s;
                step = st;
            }
        }
    }
}

fn scalar_value(v: &Scalar) -> serde_json::Value {
    match v {
        Scalar::Null => serde_json::Value::Null,
        Scalar::Bool(b) => serde_json::Value::Bool(*b),
        Scalar::Int(i) => serde_json::Value::from(*i),
        Scalar::Text(t) => serde_json::Value::String(t.clone()),
    }
}

fn text_value(t: &Option<String>) -> serde_json::Value {
    match t {
        Some(t) => serde_json::Value::String(t.clone()),
        None => serde_json::Value::Null,
    }
}

fn ingredient_value(i: &Ingredient) -> serde_json::Value {
    let quantity = i
        .quantity
        .as_ref()
        .and_then(|q| q.rendering.as_ref())
        .and_then(|t| serde_json::from_str(t).ok())
        .unwrap_or(serde_json::Value::Null);
    let mut map = serde_json::Map::new();
    map.insert("quantity".into(), quantity);
    map.insert("unit".into(), text_value(&i.unit));
    map.insert("unit_abbreviation".into(), text_value(&i.unit_abbreviation));
    map.insert("food".into(), text_value(&i.food));
    map.insert("note".into(), text_value(&i.note));
    map.insert("display".into(), text_value(&i.display));
    map.insert("original_text".into(), text_value(&i.original_text));
    map.insert("title".into(), text_value(&i.title));
    map.insert("reference_id".into(), text_value(&i.reference_id));
    serde_json::Value::Object(map)
}

fn record_value(r: &Record) -> serde_json::Value {
    let mut map = serde_json::Map::new();
    for (k, v) in &r.fields {
        map.insert(k.clone(), scalar_value(v));
    }
    if let Some(items) = &r.ingredients {
        map.insert(
            "ingredients".into(),
            serde_json::Value::Array(items.iter().map(ingredient_value).collect()),
        );
    }
    serde_json::Value::Object(map)
}

fn human(output: &CommandOutput) -> String {
    assert!(is_presentable(&output.presentation, &output.values));
    write_human(&output.presentation, &output.values)
}

fn pretty_json(output: &CommandOutput) -> String {
    let values: Vec<_> = output.values.iter().map(record_value).collect();
    format!("{}\n", serde_json::to_string_pretty(&values).expect("json"))
}

fn ndjson(output: &CommandOutput) -> String {
    output
        .values
        .iter()
        .map(|r| format!("{}\n", serde_json::to_string(&record_value(r)).expect("json")))
        .collect()
}

fn date(value: &str) -> Date {
    let d = NaiveDate::parse_from_str(value, "%Y-%m-%d").expect("valid test date");
    Date::from_days_from_ce(d.num_days_from_ce()).expect("date in range")
}

fn today() -> Date {
    let d = Local::now().date_naive();
    Date::from_days_from_ce(d.num_days_from_ce()).expect("date in range")
}

fn search(query: &str, limit: u32) -> ApiCommand {
    ApiCommand::Recipes(RecipesCommand::Search { query: query.to_string(), limit })
}

fn get(slug: &str) -> ApiCommand {
    ApiCommand::Recipes(RecipesCommand::Get { slug: slug.to_string() })
}

fn list(from: Option<&str>, to: Option<&str>, meal_type: Option<MealType>) -> ApiCommand {
    ApiCommand::Plan(PlanCommand::List {
        from: from.map(str::to_string),
        to: to.map(str::to_string),
        meal_type,
    })
}

fn set(date: &str, meal_type: MealType, title: Option<&str>, recipe: Option<&str>) -> ApiCommand {
    ApiCommand::Plan(PlanCommand::SetEntry(PlanSetArgs {
        date: date.to_string(),
        meal_type,
        target: PlanSetTargetArgs {
            title: title.map(str::to_string),
            recipe: recipe.map(str::to_string),
        },
    }))
}

fn delete(id: i64) -> ApiCommand {
    ApiCommand::Plan(PlanCommand::Delete { id })
}

fn status_run(env: Vec<(String, String)>, reply: Option<(u16, &str)>) -> (Record, u8) {
    match status_start(&env) {
        StatusStart::Report(record, exit) => {
            assert!(reply.is_none(), "no connection check was expected");
            (record, exit)
        }
        StatusStart::Check { config, url } => {
            assert_eq!(config.token, "secret-token");
            let request = auth_request();
            assert_eq!(request.method, HttpMethod::Get);
            assert_eq!(request.path, "/api/users/self");
            let (status, body) = reply.expect("a connection check");
            status_finish(url, auth_outcome(Ok(response(status, body))))
        }
    }
}

fn status_value(record: &Record) -> serde_json::Value {
    record_value(record)
}

#[test]
fn status_checks_configuration_connectivity_and_authentication() {
    let (record, exit) = status_run(env(), Some((200, r#"{"id":"user-id"}"#)));

    assert_eq!(exit, 0);
    assert_eq!(
        mealie_cli::output::write_status(&record),
        format!(
            "Mealie status: ready\nURL:            configured and valid ({})\nToken:          configured\nServer:         reachable\nAuthentication: successful\n",
            URL
        )
    );
}

#[test]
fn successful_structured_status_omits_the_optional_hint_field() {
    let (record, _) = status_run(env(), Some((200, r#"{"id":"user-id"}"#)));
    let output = format!("{}\n", serde_json::to_string(&status_value(&record)).unwrap());
    let status: serde_json::Value = serde_json::from_str(&output).expect("status JSON");

    assert_eq!(status["ok"], true);
    assert!(status.get("hint").is_none());
}

#[test]
fn status_json_has_a_stable_schema_without_the_token() {
    let (record, exit) = status_run(env(), Some((401, "")));
    let output = format!(
        "{}\n",
        serde_json::to_string_pretty(&vec![status_value(&record)]).unwrap()
    );
    let values: serde_json::Value = serde_json::from_str(&output).expect("status JSON");
    let status = &values[0];

    assert_eq!(exit, 4);
    assert_eq!(status["ok"], false);
    assert_eq!(status["type"], "status");
    assert_eq!(status["url_configured"], true);
    assert_eq!(status["url_valid"], true);
    assert_eq!(status["token_configured"], true);
    assert_eq!(status["server_reachable"], true);
    assert_eq!(status["authenticated"], false);
    assert_eq!(status["error"], "authentication");
    assert!(!output.contains("secret-token"));
}

#[test]
fn status_reports_unexpected_responses_and_unreachable_servers() {
    let (record, exit) = status_run(env(), Some((500, "oops")));
    let value = status_value(&record);
    assert_eq!(exit, 1);
    assert_eq!(value["error"], "api_error");
    assert_eq!(value["authenticated"], false);

    let (record, exit) = status_finish(
        URL.to_string(),
        Err(AppError::from_request_failure(false, "connection refused".to_string())),
    );
    let value = status_value(&record);
    assert_eq!(exit, 5);
    assert_eq!(value["error"], "network_error");
    assert_eq!(value["server_reachable"], false);
    assert!(value["authenticated"].is_null());
}

#[test]
fn searches_recipes() {
    let output = run(
        search("pesto chicken", 5),
        today(),
        vec![expect(HttpMethod::Get, "/api/recipes")
            .query(&[("search", "pesto chicken"), ("perPage", "5")])
            .reply(200, r#"{"items":[{"id":"r1","slug":"pesto-chicken","name":"Pesto Chicken"}]}"#)],
    )
    .expect("search output");

    assert_eq!(
        human(&output),
        "NAME           SLUG           ID\nPesto Chicken  pesto-chicken  r1\n"
    );
}

#[test]
fn searches_recipes_from_data_wrapper() {
    let output = run(
        search("pesto", 10),
        today(),
        vec![expect(HttpMethod::Get, "/api/recipes")
            .query(&[("search", "pesto"), ("perPage", "10")])
            .reply(200, r#"{"data":[{"id":"r1","slug":"pesto","name":"Pesto"}]}"#)],
    )
    .expect("search output");

    assert_eq!(human(&output), "NAME   SLUG   ID\nPesto  pesto  r1\n");
}

#[test]
fn search_empty_outputs_empty_record() {
    let output = run(
        search("missing", 10),
        today(),
        vec![expect(HttpMethod::Get, "/api/recipes")
            .query(&[("search", "missing"), ("perPage", "10")])
            .reply(200, r#"{"items":[]}"#)],
    )
    .expect("empty search output");

    assert_eq!(human(&output), "No recipes found for \"missing\".\n");
}

#[test]
fn gets_recipe() {
    let output = run(
        get("pesto-chicken"),
        today(),
        vec![expect(HttpMethod::Get, "/api/recipes/pesto-chicken")
            .reply(200, r#"{"id":"r1","slug":"pesto-chicken","name":"Pesto Chicken"}"#)],
    )
    .expect("recipe output");
    let output = pretty_json(&output);

    assert!(output.contains("\"type\": \"recipe\""));
    assert!(output.contains("\"slug\": \"pesto-chicken\""));
}

#[test]
fn gets_recipe_by_unique_case_insensitive_name_after_slug_lookup_misses() {
    let output = run(
        get("Pesto Chicken"),
        today(),
        vec![
            expect(HttpMethod::Get, "/api/recipes/Pesto%20Chicken").reply(404, ""),
            expect(HttpMethod::Get, "/api/recipes")
                .query(&[("search", "Pesto Chicken"), ("perPage", "100")])
                .reply(
                    200,
                    r#"{"items":[{"id":"r1","slug":"pesto-chicken","name":"pEsTo ChIcKeN"}]}"#,
                ),
        ],
    )
    .expect("recipe output");
    let output = pretty_json(&output);

    assert!(output.contains("\"slug\": \"pesto-chicken\""));
    assert!(output.contains("\"name\": \"pEsTo ChIcKeN\""));
}

#[test]
fn name_lookup_preserves_not_found_when_no_exact_name_matches() {
    let error = run(
        get("Pesto Chicken"),
        today(),
        vec![
            expect(HttpMethod::Get, "/api/recipes/Pesto%20Chicken").reply(404, ""),
            expect(HttpMethod::Get, "/api/recipes")
                .query(&[("search", "Pesto Chicken"), ("perPage", "100")])
                .reply(
                    200,
                    r#"{"items":[{"id":"r1","slug":"pesto-chicken","name":"Pesto chicken with rice"}]}"#,
                ),
        ],
    )
    .err()
    .expect("no exact recipe name");

    assert_eq!(error.code(), ErrorCode::NotFound);
}

#[test]
fn name_lookup_reports_all_exact_name_matches_across_search_pages() {
    let error = run(
        get("Pesto Chicken"),
        today(),
        vec![
            expect(HttpMethod::Get, "/api/recipes/Pesto%20Chicken").reply(404, ""),
            expect(HttpMethod::Get, "/api/recipes")
                .query(&[("search", "Pesto Chicken"), ("perPage", "100")])
                .reply(
                    200,
                    r#"{"total_pages":2,"items":[{"id":"r1","slug":"pesto-chicken","name":"Pesto Chicken"}]}"#,
                ),
            expect(HttpMethod::Get, "/api/recipes")
                .query(&[("search", "Pesto Chicken"), ("perPage", "100"), ("page", "2")])
                .reply(
                    200,
                    r#"{"totalPages":2,"items":[{"id":"r2","slug":"pesto-chicken-2","name":"PESTO CHICKEN"}]}"#,
                ),
        ],
    )
    .err()
    .expect("ambiguous recipe name");

    assert_eq!(error.code(), ErrorCode::Ambiguous);
    assert!(error.to_string().contains("Pesto Chicken (pesto-chicken)"));
    assert!(error.to_string().contains("PESTO CHICKEN (pesto-chicken-2)"));
}

#[test]
fn plan_set_does_not_mutate_when_recipe_name_has_no_exact_match() {
    let error = run(
        set("2026-05-16", MealType::Dinner, None, Some("Pesto Chicken")),
        today(),
        vec![
            expect(HttpMethod::Get, "/api/recipes/Pesto%20Chicken").reply(404, ""),
            expect(HttpMethod::Get, "/api/recipes")
                .query(&[("search", "Pesto Chicken"), ("perPage", "100")])
                .reply(200, r#"{"items":[]}"#),
        ],
    )
    .err()
    .expect("no exact recipe name");

    assert_eq!(error.code(), ErrorCode::NotFound);
}

#[test]
fn plan_set_does_not_mutate_when_recipe_name_is_ambiguous() {
    let error = run(
        set("2026-05-16", MealType::Dinner, None, Some("Pesto Chicken")),
        today(),
        vec![
            expect(HttpMethod::Get, "/api/recipes/Pesto%20Chicken").reply(404, ""),
            expect(HttpMethod::Get, "/api/recipes")
                .query(&[("search", "Pesto Chicken"), ("perPage", "100")])
                .reply(
                    200,
                    r#"{"items":[{"id":"r1","slug":"pesto-chicken","name":"Pesto Chicken"},{"id":"r2","slug":"pesto-chicken-2","name":"PESTO CHICKEN"}]}"#,
                ),
        ],
    )
    .err()
    .expect("ambiguous recipe name");

    assert_eq!(error.code(), ErrorCode::Ambiguous);
}

#[test]
fn gets_recipe_as_human_readable_details_by_default() {
    let output = run(
        get("pesto-chicken"),
        today(),
        vec![expect(HttpMethod::Get, "/api/recipes/pesto-chicken")
            .reply(200, r#"{"id":"r1","slug":"pesto-chicken","name":"Pesto Chicken"}"#)],
    )
    .expect("recipe details");

    assert_eq!(
        human(&output),
        "Name: Pesto Chicken\nSlug: pesto-chicken\nID:   r1\nIngredients: None listed\n"
    );
}

#[test]
fn gets_all_recipe_ingredients() {
    let output = run(
        get("chicken-casserole"),
        today(),
        vec![expect(HttpMethod::Get, "/api/recipes/chicken-casserole").reply(
            200,
            r#"{
                "id":"r1",
                "slug":"chicken-casserole",
                "name":"Chicken Casserole",
                "recipeIngredient":[
                    {
                        "quantity":250,
                        "unit":{"name":"gram","abbreviation":"g"},
                        "food":{"name":"bacon"},
                        "note":"snipped",
                        "display":"250 grams bacon snipped",
                        "originalText":"250g dry cured bacon, snipped"
                    },
                    {
                        "quantity":8,
                        "unit":null,
                        "food":{"name":"chicken thighs"},
                        "display":"8 chicken thighs",
                        "originalText":"8 skinless chicken thighs, bone in"
                    }
                ]
            }"#,
        )],
    )
    .expect("recipe ingredients");

    assert_eq!(
        human(&output),
        "Name: Chicken Casserole\nSlug: chicken-casserole\nID:   r1\nIngredients (2):\n- 250g dry cured bacon, snipped\n- 8 skinless chicken thighs, bone in\n"
    );
}

#[test]
fn ndjson_output_remains_available_explicitly() {
    let output = run(
        get("pesto-chicken"),
        today(),
        vec![expect(HttpMethod::Get, "/api/recipes/pesto-chicken")
            .reply(200, r#"{"id":"r1","slug":"pesto-chicken","name":"Pesto Chicken"}"#)],
    )
    .expect("NDJSON recipe");

    assert_eq!(
        ndjson(&output),
        "{\"id\":\"r1\",\"ingredients\":[],\"name\":\"Pesto Chicken\",\"ok\":true,\"slug\":\"pesto-chicken\",\"type\":\"recipe\"}\n"
    );
}

#[test]
fn maps_not_found() {
    let error = run(
        get("missing"),
        today(),
        vec![
            expect(HttpMethod::Get, "/api/recipes/missing").reply(
                404,
                r#"{"detail":{"message":"No Entry Found","error":true,"exception":null}}"#,
            ),
            expect(HttpMethod::Get, "/api/recipes")
                .query(&[("search", "missing"), ("perPage", "100")])
                .reply(200, r#"{"items":[]}"#),
        ],
    )
    .err()
    .expect("404");

    assert_eq!(error.code(), ErrorCode::NotFound);
    assert_eq!(error.to_human(), "Error getting recipe: Recipe not found");
}

#[test]
fn lists_plan_with_type_filter() {
    let output = run(
        list(Some("2026-05-13"), Some("2026-05-16"), Some(MealType::Dinner)),
        today(),
        vec![with_plan_query(
            expect(HttpMethod::Get, "/api/households/mealplans"),
            "2026-05-13",
            "2026-05-16",
            &[],
        )
        .reply(
            200,
            r#"{"items":[
                {"id":1,"date":"2026-05-13","entryType":"breakfast","title":"Toast"},
                {"id":2,"date":"2026-05-13","entryType":"dinner","title":"Pasta","recipe":{"id":"r2","name":"Pasta"}}
            ]}"#,
        )],
    )
    .expect("plan list");
    let output = human(&output);

    assert!(output.contains("2026-05-13  dinner  Pasta  Pasta   2"));
    assert!(!output.contains("breakfast"));
}

#[test]
fn lists_plan_across_all_pages() {
    let output = run(
        list(Some("2026-05-13"), Some("2026-05-16"), None),
        today(),
        vec![
            with_plan_query(
                expect(HttpMethod::Get, "/api/households/mealplans"),
                "2026-05-13",
                "2026-05-16",
                &[],
            )
            .reply(
                200,
                r#"{"page":1,"total_pages":2,"items":[{"id":1,"date":"2026-05-13","entryType":"dinner","title":"Pasta"}]}"#,
            ),
            with_plan_query(
                expect(HttpMethod::Get, "/api/households/mealplans"),
                "2026-05-13",
                "2026-05-16",
                &[("page", "2")],
            )
            .reply(
                200,
                r#"{"page":2,"total_pages":2,"items":[{"id":2,"date":"2026-05-14","entryType":"dinner","title":"Curry"}]}"#,
            ),
        ],
    )
    .expect("paginated plan list");
    let output = human(&output);

    assert!(output.contains("2026-05-13  dinner  Pasta"));
    assert!(output.contains("2026-05-14  dinner  Curry"));
}

#[test]
fn lists_plan_from_top_level_array() {
    let output = run(
        list(Some("2026-05-13"), Some("2026-05-16"), None),
        today(),
        vec![with_plan_query(
            expect(HttpMethod::Get, "/api/households/mealplans"),
            "2026-05-13",
            "2026-05-16",
            &[],
        )
        .reply(
            200,
            r#"[
                {"id":1,"date":"2026-05-13","entryType":"dinner","title":"Pasta"}
            ]"#,
        )],
    )
    .expect("plan list");

    assert_eq!(
        human(&output),
        "Meal plan entries from 2026-05-13 to 2026-05-16:\nDATE        MEAL    TITLE  RECIPE  ID\n2026-05-13  dinner  Pasta  -       1\n"
    );
}

#[test]
fn lists_the_remainder_of_the_current_week_when_no_dates_are_given() {
    let today_date = Local::now().date_naive();
    let sunday =
        today_date + Duration::days((6 - today_date.weekday().num_days_from_monday()).into());
    let output = run(
        list(None, None, None),
        today(),
        vec![with_plan_query(
            expect(HttpMethod::Get, "/api/households/mealplans"),
            &today_date.to_string(),
            &sunday.to_string(),
            &[],
        )
        .reply(200, r#"{"items":[]}"#)],
    )
    .expect("default plan list");
    let record: serde_json::Value = serde_json::from_str(&ndjson(&output)).expect("empty plan record");

    assert_eq!(record["from"], today_date.to_string());
    assert_eq!(record["to"], sunday.to_string());
}

#[test]
fn plan_set_normalizes_relative_dates_before_listing_and_creating() {
    let date = Local::now().date_naive() + Duration::days(1);
    let date = date.to_string();
    let output = run(
        set("+1d", MealType::Dinner, Some("Soup"), None),
        today(),
        vec![
            with_plan_query(expect(HttpMethod::Get, "/api/households/mealplans"), &date, &date, &[])
                .reply(200, r#"{"items":[]}"#),
            expect(HttpMethod::Post, "/api/households/mealplans")
                .body(&format!(
                    r#"{{"date":"{date}","entryType":"dinner","title":"Soup","text":""}}"#
                ))
                .reply(
                    200,
                    &format!(r#"{{"id":1,"date":"{date}","entryType":"dinner","title":"Soup"}}"#),
                ),
        ],
    )
    .expect("relative plan set");
    let record: serde_json::Value = serde_json::from_str(&ndjson(&output)).expect("plan record");

    assert_eq!(record["date"], date);
}

#[test]
fn empty_plan_list_explains_the_requested_range() {
    let output = run(
        list(Some("2026-05-13"), Some("2026-05-16"), None),
        today(),
        vec![expect(HttpMethod::Get, "/api/households/mealplans").reply(200, r#"{"items":[]}"#)],
    )
    .expect("empty plan list");

    assert_eq!(
        human(&output),
        "No meal plan entries found from 2026-05-13 to 2026-05-16.\n"
    );
}

#[test]
fn sets_title_replacement() {
    let output = run(
        set("2026-05-13", MealType::Dinner, Some("Bolognaise"), None),
        today(),
        vec![
            with_plan_query(
                expect(HttpMethod::Get, "/api/households/mealplans"),
                "2026-05-13",
                "2026-05-13",
                &[],
            )
            .reply(
                200,
                r#"{"items":[{"id":10,"date":"2026-05-13","entryType":"dinner","title":"Old"}]}"#,
            ),
            expect(HttpMethod::Post, "/api/households/mealplans")
                .body(r#"{"date":"2026-05-13","entryType":"dinner","title":"Bolognaise","text":""}"#)
                .reply(
                    200,
                    r#"{"id":11,"date":"2026-05-13","entryType":"dinner","title":"Bolognaise"}"#,
                ),
            expect(HttpMethod::Delete, "/api/households/mealplans/10").reply(204, ""),
        ],
    )
    .expect("plan set");

    assert_eq!(
        human(&output),
        "Replaced dinner on 2026-05-13 with Bolognaise (ID 11).\n"
    );
}

#[test]
fn keeps_existing_entry_when_replacement_create_fails() {
    let error = run(
        set("2026-05-13", MealType::Dinner, Some("Bolognaise"), None),
        today(),
        vec![
            expect(HttpMethod::Get, "/api/households/mealplans").reply(
                200,
                r#"{"items":[{"id":10,"date":"2026-05-13","entryType":"dinner","title":"Old"}]}"#,
            ),
            expect(HttpMethod::Post, "/api/households/mealplans").reply(500, ""),
        ],
    )
    .err()
    .expect("create failure");

    assert_eq!(error.code(), ErrorCode::ApiError);
}

#[test]
fn rolls_back_new_entry_when_original_cannot_be_deleted() {
    let error = run(
        set("2026-05-13", MealType::Dinner, Some("Bolognaise"), None),
        today(),
        vec![
            expect(HttpMethod::Get, "/api/households/mealplans").reply(
                200,
                r#"{"items":[{"id":10,"date":"2026-05-13","entryType":"dinner","title":"Old"}]}"#,
            ),
            expect(HttpMethod::Post, "/api/households/mealplans").reply(
                200,
                r#"{"id":11,"date":"2026-05-13","entryType":"dinner","title":"Bolognaise"}"#,
            ),
            expect(HttpMethod::Delete, "/api/households/mealplans/10").reply(500, ""),
            expect(HttpMethod::Delete, "/api/households/mealplans/11").reply(204, ""),
        ],
    )
    .err()
    .expect("delete failure");

    assert_eq!(error.code(), ErrorCode::ApiError);
    assert!(
        error.to_human().contains("the new entry was rolled back"),
        "{}",
        error.to_human()
    );
}

#[test]
fn sets_recipe_replacement() {
    let output = run(
        set("2026-05-16", MealType::Dinner, None, Some("pesto-chicken")),
        today(),
        vec![
            expect(HttpMethod::Get, "/api/recipes/pesto-chicken")
                .reply(200, r#"{"id":"r2","slug":"pesto-chicken","name":"Pesto Chicken"}"#),
            with_plan_query(
                expect(HttpMethod::Get, "/api/households/mealplans"),
                "2026-05-16",
                "2026-05-16",
                &[],
            )
            .reply(200, r#"{"items":[]}"#),
            expect(HttpMethod::Post, "/api/households/mealplans")
                .body(r#"{"date":"2026-05-16","entryType":"dinner","recipeId":"r2"}"#)
                .reply(
                    200,
                    r#"{"id":12,"date":"2026-05-16","entryType":"dinner","recipe":{"id":"r2","name":"Pesto Chicken"}}"#,
                ),
        ],
    )
    .expect("recipe plan set");

    assert_eq!(
        human(&output),
        "Created dinner on 2026-05-16 with Pesto Chicken (ID 12).\n"
    );
}

#[test]
fn deletes_plan_with_no_content_response() {
    let output = run(
        delete(123),
        today(),
        vec![expect(HttpMethod::Delete, "/api/households/mealplans/123").reply(204, "")],
    )
    .expect("delete output");

    assert_eq!(write_quiet(&output.values), "123\n");
}

#[test]
fn delete_confirms_which_plan_entry_was_removed() {
    let output = run(
        delete(123),
        today(),
        vec![expect(HttpMethod::Delete, "/api/households/mealplans/123").reply(204, "")],
    )
    .expect("delete output");

    assert_eq!(human(&output), "Deleted meal plan entry 123.\n");
}

#[test]
fn maps_api_error() {
    let error = run(
        get("pesto-chicken"),
        today(),
        vec![expect(HttpMethod::Get, "/api/recipes/pesto-chicken")
            .reply(500, r#"{"message":"database unavailable"}"#)],
    )
    .err()
    .expect("api error");

    assert_eq!(error.code(), ErrorCode::ApiError);
    assert_eq!(
        error.to_string(),
        "get recipe: database unavailable (HTTP 500 Internal Server Error)"
    );
}

#[test]
fn maps_authentication_error_with_hint() {
    let error = run(
        get("pesto-chicken"),
        today(),
        vec![expect(HttpMethod::Get, "/api/recipes/pesto-chicken")
            .reply(401, r#"{"detail":"invalid token"}"#)],
    )
    .err()
    .expect("authentication error");

    assert_eq!(error.code(), ErrorCode::Authentication);
    assert_eq!(error.exit_code(), 4);
    assert!(error.to_human().contains("Check MEALIE_TOKEN"));
}

#[test]
fn rejects_reversed_plan_range_before_calling_api() {
    let error = run(list(Some("2026-05-17"), Some("2026-05-16"), None), today(), vec![])
        .err()
        .expect("reversed range");

    assert_eq!(error.code(), ErrorCode::InvalidArgs);
    assert_eq!(
        error.to_string(),
        "--from (2026-05-17) must be on or before --to (2026-05-16)"
    );
}

#[test]
fn rejects_blank_recipe_query() {
    let error = run(search("   ", 10), today(), vec![]).err().expect("blank query");

    assert_eq!(error.code(), ErrorCode::InvalidArgs);
    assert_eq!(error.to_string(), "recipe search query cannot be empty");
}

#[test]
fn fixed_today_requests_the_remainder_of_its_week() {
    let output = run(
        list(None, None, None),
        date("2026-05-13"),
        vec![with_plan_query(
            expect(HttpMethod::Get, "/api/households/mealplans"),
            "2026-05-13",
            "2026-05-17",
            &[],
        )
        .reply(200, r#"{"items":[]}"#)],
    )
    .expect("default plan list");
    let record: serde_json::Value = serde_json::from_str(&ndjson(&output)).expect("empty plan record");

    assert_eq!(record["from"], "2026-05-13");
    assert_eq!(record["to"], "2026-05-17");
}

#[test]
fn fixed_today_normalizes_space_separated_negative_relative_plan_list_requests() {
    let output = run(
        list(Some("-1w"), Some("-1d"), None),
        date("2026-05-13"),
        vec![with_plan_query(
            expect(HttpMethod::Get, "/api/households/mealplans"),
            "2026-05-06",
            "2026-05-12",
            &[],
        )
        .reply(200, r#"{"items":[]}"#)],
    )
    .expect("negative relative plan list");
    let record: serde_json::Value = serde_json::from_str(&ndjson(&output)).expect("empty plan record");

    assert_eq!(record["from"], "2026-05-06");
    assert_eq!(record["to"], "2026-05-12");
}

#[test]
fn fixed_today_normalizes_space_separated_negative_relative_plan_set_requests() {
    let output = run(
        set("-1d", MealType::Dinner, Some("Soup"), None),
        date("2026-05-13"),
        vec![
            with_plan_query(
                expect(HttpMethod::Get, "/api/households/mealplans"),
                "2026-05-12",
                "2026-05-12",
                &[],
            )
            .reply(200, r#"{"items":[]}"#),
            expect(HttpMethod::Post, "/api/households/mealplans")
                .body(r#"{"date":"2026-05-12","entryType":"dinner","title":"Soup","text":""}"#)
                .reply(200, r#"{"id":1,"date":"2026-05-12","entryType":"dinner","title":"Soup"}"#),
        ],
    )
    .expect("relative plan set");
    let record: serde_json::Value = serde_json::from_str(&ndjson(&output)).expect("plan record");

    assert_eq!(record["date"], "2026-05-12");
}

#[test]
fn validates_dates() {
    let error = run(list(Some("2026-99-99"), Some("2026-05-16"), None), today(), vec![])
        .err()
        .expect("invalid date should fail");

    assert_eq!(error.code(), ErrorCode::InvalidArgs);
}

#[test]
fn plan_set_needs_exactly_one_target() {
    let error = run(set("2026-05-13", MealType::Dinner, None, None), today(), vec![])
        .err()
        .expect("no target");
    assert_eq!(error.code(), ErrorCode::InvalidArgs);
    assert_eq!(error.to_string(), "provide exactly one of --title or --recipe");

    let both = run(
        set("2026-05-13", MealType::Dinner, Some("Soup"), Some("soup")),
        today(),
        vec![],
    )
    .err()
    .expect("two targets");
    assert_eq!(both.code(), ErrorCode::InvalidArgs);
}

#[test]
fn plan_set_checks_the_date_before_the_target() {
    let error = run(set("someday", MealType::Lunch, None, None), today(), vec![])
        .err()
        .expect("invalid date");

    assert!(error.to_string().starts_with("--date must use YYYY-MM-DD"));
}

#[test]
fn plan_set_refuses_duplicate_entries_on_the_slot() {
    let error = run(
        set("2026-05-13", MealType::Dinner, Some("Soup"), None),
        today(),
        vec![expect(HttpMethod::Get, "/api/households/mealplans").reply(
            200,
            r#"{"items":[
                {"id":1,"date":"2026-05-13","entryType":"dinner","title":"A"},
                {"id":2,"date":"2026-05-13","entryType":"dinner","title":"B"},
                {"id":3,"date":"2026-05-13","entryType":"lunch","title":"C"}
            ]}"#,
        )],
    )
    .err()
    .expect("duplicates");

    assert_eq!(error.code(), ErrorCode::ApiError);
    assert_eq!(
        error.to_string(),
        "multiple existing plan entries match this date and meal type; remove duplicates before replacing"
    );
}

#[test]
fn plan_set_keeps_entries_of_other_meals() {
    let output = run(
        set("2026-05-13", MealType::Lunch, Some("Salad"), None),
        today(),
        vec![
            expect(HttpMethod::Get, "/api/households/mealplans").reply(
                200,
                r#"{"items":[{"id":10,"date":"2026-05-13","entryType":"dinner","title":"Old"}]}"#,
            ),
            expect(HttpMethod::Post, "/api/households/mealplans")
                .body(r#"{"date":"2026-05-13","entryType":"lunch","title":"Salad","text":""}"#)
                .reply(200, r#"{"id":11,"date":"2026-05-13","entryType":"lunch","title":"Salad"}"#),
        ],
    )
    .expect("created beside the dinner");

    assert_eq!(human(&output), "Created lunch on 2026-05-13 with Salad (ID 11).\n");
    assert_eq!(write_quiet(&output.values), "11\n");
}

#[test]
fn failed_rollback_says_so() {
    let error = run(
        set("2026-05-13", MealType::Dinner, Some("Bolognaise"), None),
        today(),
        vec![
            expect(HttpMethod::Get, "/api/households/mealplans").reply(
                200,
                r#"{"items":[{"id":10,"date":"2026-05-13","entryType":"dinner","title":"Old"}]}"#,
            ),
            expect(HttpMethod::Post, "/api/households/mealplans")
                .reply(200, r#"{"id":11,"date":"2026-05-13","entryType":"dinner"}"#),
            expect(HttpMethod::Delete, "/api/households/mealplans/10")
                .reply(401, r#"{"detail":"no"}"#),
            expect(HttpMethod::Delete, "/api/households/mealplans/11").reply(500, ""),
        ],
    )
    .err()
    .expect("delete failure");

    assert_eq!(error.code(), ErrorCode::Authentication);
    assert_eq!(
        error.to_string(),
        "replacement could not remove the original entry and the new entry could not be rolled back: delete meal plan: no (HTTP 401 Unauthorized)"
    );
}

#[test]
fn deletion_reports_what_the_server_returned() {
    let output = run(
        delete(7),
        today(),
        vec![expect(HttpMethod::Delete, "/api/households/mealplans/7").reply(
            200,
            r#"{"id":7,"date":"2026-05-13","entryType":"dinner","title":"Soup"}"#,
        )],
    )
    .expect("deleted");
    let record: serde_json::Value = serde_json::from_str(&ndjson(&output)).expect("record");

    assert_eq!(record["type"], "plan_deleted");
    assert_eq!(record["id"], 7);
    assert_eq!(record["meal"], "dinner");
    assert_eq!(record["title"], "Soup");
}

#[test]
fn transport_failures_end_the_command() {
    let (session, step) = start(get("pesto"), today()).expect("starts");
    assert!(matches!(step, Step::Send(_)));
    let (_, step) = advance(
        session,
        Err(AppError::from_request_failure(false, "connection refused".to_string())),
    );
    match step {
        Step::Finish(Err(e)) => {
            assert_eq!(e.code(), ErrorCode::NetworkError);
            assert_eq!(e.exit_code(), 5);
        }
        other => panic!("unexpected step {other:?}"),
    }
}
