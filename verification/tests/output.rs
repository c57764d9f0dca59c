use mealie_cli::client::Ingredient;
use mealie_cli::json::FloatValue;
use mealie_cli::output::{
    ingredient_line, is_presentable, record, table, write_human, write_ingredients, write_quiet,
    write_status, OutputMode, Presentation, Record, Scalar,
};

fn fields(pairs: Vec<(&str, Scalar)>) -> Vec<(String, Scalar)> {
    pairs.into_iter().map(|(k, v)| (k.to_string(), v)).collect()
}

fn text(s: &str) -> Scalar {
    Scalar::Text(s.to_string())
}

fn ingredient() -> Ingredient {
    Ingredient {
        quantity: None,
        unit: None,
        unit_abbreviation: None,
        food: None,
        note: None,
        display: None,
        original_text: None,
        title: None,
        reference_id: None,
    }
}

#[test]
fn formats_multiple_quiet_ids() {
    let values = vec![
        record("plan_deleted", fields(vec![("id", Scalar::Int(10))])),
        record("plan_created", fields(vec![("id", Scalar::Int(11))])),
        record("empty", fields(vec![("resource", text("recipe"))])),
    ];

    assert_eq!(write_quiet(&values), "10\n11\n");
}

#[test]
fn quiet_output_is_empty_without_changes() {
    let values = vec![
        record("recipe", fields(vec![("id", text("r1"))])),
        record("plan_entry", fields(vec![("id", Scalar::Int(3))])),
    ];

    assert_eq!(write_quiet(&values), "");
}

#[test]
fn records_start_with_ok_and_type() {
    let r = record("recipe", fields(vec![("id", text("r1"))]));

    assert_eq!(
        r.fields,
        fields(vec![("ok", Scalar::Bool(true)), ("type", text("recipe")), ("id", text("r1"))])
    );
    assert!(r.ingredients.is_none());
}

#[test]
fn output_flags_pick_one_mode() {
    assert_eq!(OutputMode::from_flags(true, true, true).ok(), Some(OutputMode::Json));
    assert_eq!(OutputMode::from_flags(false, true, true).ok(), Some(OutputMode::Ndjson));
    assert_eq!(OutputMode::from_flags(false, false, true).ok(), Some(OutputMode::Quiet));
    assert_eq!(OutputMode::from_flags(false, false, false).ok(), Some(OutputMode::Human));
}

#[test]
fn tables_align_columns_by_characters() {
    let output = table(
        &["NAME", "SLUG", "ID"],
        vec![
            vec!["Pesto Chicken".to_string(), "pesto-chicken".to_string(), "r1".to_string()],
            vec!["Crème".to_string(), "creme".to_string(), "r22".to_string()],
        ],
    );

    assert_eq!(
        output,
        "NAME           SLUG           ID\nPesto Chicken  pesto-chicken  r1\nCrème          creme          r22\n"
    );
}

#[test]
fn ingredient_lines_prefer_original_text_then_display_then_parts() {
    let mut original = ingredient();
    original.original_text = Some("250g  dry\ncured bacon".to_string());
    original.display = Some("ignored".to_string());
    assert_eq!(ingredient_line(&original).as_deref(), Some("250g dry cured bacon"));

    let mut parts = ingredient();
    parts.quantity = Some(FloatValue { rendering: Some("1.5".to_string()) });
    parts.unit_abbreviation = Some("tbsp".to_string());
    parts.food = Some("olive oil".to_string());
    parts.note = Some(String::new());
    assert_eq!(ingredient_line(&parts).as_deref(), Some("1.5 tbsp olive oil"));

    assert_eq!(ingredient_line(&ingredient()), None);
}

#[test]
fn ingredients_are_listed_with_section_titles() {
    let mut sauce = ingredient();
    sauce.title = Some("Sauce".to_string());
    sauce.display = Some("2 cloves garlic".to_string());
    let mut bare = ingredient();
    bare.title = Some("Topping".to_string());
    let mut r = record("recipe", fields(vec![("name", text("Pasta"))]));
    r.ingredients = Some(vec![sauce, bare]);

    assert_eq!(
        write_ingredients(&r),
        "Ingredients (2):\nSauce:\n- 2 cloves garlic\nTopping:\n"
    );

    let plain = record("recipe", fields(vec![]));
    assert_eq!(write_ingredients(&plain), "Ingredients: None listed\n");
}

#[test]
fn plan_set_confirms_creation_or_replacement() {
    let created = record(
        "plan_created",
        fields(vec![
            ("id", Scalar::Int(12)),
            ("date", text("2026-05-16")),
            ("meal", text("dinner")),
            ("title", Scalar::Null),
            ("recipe", text("Pesto Chicken")),
        ]),
    );
    let values = vec![created.clone()];
    assert!(is_presentable(&Presentation::PlanSet, &values));
    assert_eq!(
        write_human(&Presentation::PlanSet, &values),
        "Created dinner on 2026-05-16 with Pesto Chicken (ID 12).\n"
    );

    let replaced = vec![created, record("plan_deleted", fields(vec![("id", Scalar::Int(10))]))];
    assert_eq!(
        write_human(&Presentation::PlanSet, &replaced),
        "Replaced dinner on 2026-05-16 with Pesto Chicken (ID 12).\n"
    );

    let unlabeled = vec![record("plan_created", fields(vec![("id", Scalar::Int(1))]))];
    assert_eq!(
        write_human(&Presentation::PlanSet, &unlabeled),
        "Created - on - with meal plan entry (ID 1).\n"
    );
}

#[test]
fn presentations_that_need_a_record_say_so() {
    assert!(!is_presentable(&Presentation::PlanSet, &vec![]));
    assert!(!is_presentable(&Presentation::RecipeDetails, &vec![]));
    assert!(is_presentable(
        &Presentation::RecipeSearch { query: "x".to_string() },
        &vec![]
    ));
}

#[test]
fn plan_lists_show_dashes_for_missing_fields() {
    let values = vec![record(
        "plan_entry",
        fields(vec![
            ("id", Scalar::Int(2)),
            ("date", text("2026-05-13")),
            ("meal", text("dinner")),
            ("title", text("Pasta")),
            ("recipe", Scalar::Null),
        ]),
    )];
    let presentation = Presentation::PlanList {
        from: "2026-05-13".to_string(),
        to: "2026-05-16".to_string(),
    };

    assert_eq!(
        write_human(&presentation, &values),
        "Meal plan entries from 2026-05-13 to 2026-05-16:\nDATE        MEAL    TITLE  RECIPE  ID\n2026-05-13  dinner  Pasta  -       2\n"
    );
}

#[test]
fn status_report_lists_each_check() {
    let r = record(
        "status",
        fields(vec![
            ("url", text("https://mealie.example")),
            ("url_configured", Scalar::Bool(true)),
            ("url_valid", Scalar::Bool(true)),
            ("token_configured", Scalar::Bool(true)),
            ("server_reachable", Scalar::Bool(false)),
            ("authenticated", Scalar::Null),
            ("hint", text("Check the server.")),
        ]),
    );
    let mut r2: Record = r.clone();
    r2.fields[0] = ("ok".to_string(), Scalar::Bool(false));

    assert_eq!(
        write_status(&r2),
        "Mealie status: action required\nURL:            configured and valid (https://mealie.example)\nToken:          configured\nServer:         unreachable\nAuthentication: not checked\nNext step: Check the server.\n"
    );
}

#[test]
fn tables_accept_short_rows_and_long_last_cells() {
    let output = table(
        &["A", "B"],
        vec![vec!["x".to_string()], vec!["yy".to_string(), "zzzz".to_string()]],
    );

    assert_eq!(output, "A   B\nx\nyy  zzzz\n");
}
