//! What the command state machine guarantees about `plan set` and recipe lookups, whatever the
//! server answers.
use vstd::prelude::*;

use crate::client::{collection_of, plan_entries_of, recipe_of, recipes_of, ApiResponse, PlanEntry, RecipeView};
use crate::json::Json;
use crate::output::{OutputView, PresentationView};
use crate::cli::{ApiCommand, PlanCommand, PlanSetArgs, RecipesCommand};
use crate::date_input::resolved_date;
use crate::error::{error_of, ErrorCode, ErrorView};
use crate::meal_type::{meal_name, MealType};
use crate::session::{
    create_request_view, delete_request_view, duplicate_entries_message, empty_plan_record,
    entry_record, has_next_page, listed, of_meal, plan_body, name_matches, next, on_slot, plan_list_request_view, recipe_resolved, reply_json,
    page_param, set_target_message, started, HttpMethod, RequestView, ListUseView, RecipeUseView, SessionView, StepView,
};
use crate::text::{eq_ignore_ascii_case, is_blank, nat_text, opt_view};

verus! {

/// Whether a recipe's name is `query`, ignoring ASCII case.
pub open spec fn exact_name(r: RecipeView, query: Seq<char>) -> bool {
    eq_ignore_ascii_case(r.name@, query)
}

/// Whether an entry sits on `date` for meal `meal`.
pub open spec fn on_date_and_meal(e: PlanEntry, date: Seq<char>, meal: MealType) -> bool {
    opt_view(e.date) == Some(date) && opt_view(e.meal) == Some(meal_name(meal))
}

/// Whether a step sends a request with method `m`.
pub open spec fn sends(step: StepView, m: HttpMethod) -> bool {
    step matches StepView::Send(req) && req.method == m
}

/// The name matches of a search page are exactly its recipes whose name is the query, ignoring
/// ASCII case, in the order the server gave them.
pub proof fn name_matches_are_exact(rs: Seq<RecipeView>, query: Seq<char>)
    ensures
        forall|i: int|
            0 <= i < name_matches(rs, query).len() ==> exact_name(
                #[trigger] name_matches(rs, query)[i],
                query,
            ) && rs.contains(name_matches(rs, query)[i]),
        forall|j: int|
            0 <= j < rs.len() && exact_name(#[trigger] rs[j], query) ==> name_matches(
                rs,
                query,
            ).contains(rs[j]),
    decreases rs.len(),
{
    if rs.len() > 0 {
        let rest = rs.drop_last();
        name_matches_are_exact(rest, query);
        let m = name_matches(rs, query);
        let mr = name_matches(rest, query);
        assert forall|i: int| 0 <= i < m.len() implies exact_name(#[trigger] m[i], query)
            && rs.contains(m[i]) by {
            if i < mr.len() {
                assert(m[i] == mr[i]);
                let k = choose|k: int| 0 <= k < rest.len() && rest[k] == mr[i];
                assert(rs[k] == rest[k]);
            } else {
                assert(m[i] == rs.last());
                assert(rs[rs.len() - 1] == rs.last());
            }
        }
        assert forall|j: int| 0 <= j < rs.len() && exact_name(#[trigger] rs[j], query) implies m.contains(
            rs[j],
        ) by {
            if j < rs.len() - 1 {
                assert(rest[j] == rs[j]);
                let k = choose|k: int| 0 <= k < mr.len() && mr[k] == rest[j];
                assert(m[k] == mr[k]);
            } else {
                assert(m[m.len() - 1] == rs[j]);
            }
        }
    }
}

proof fn on_slot_entries_match(es: Seq<PlanEntry>, date: Seq<char>, meal: MealType)
    ensures
        forall|i: int|
            0 <= i < on_slot(es, date, meal).len() ==> on_date_and_meal(
                #[trigger] on_slot(es, date, meal)[i],
                date,
                meal,
            ),
    decreases es.len(),
{
    if es.len() > 0 {
        on_slot_entries_match(es.drop_last(), date, meal);
        let m = on_slot(es, date, meal);
        let mr = on_slot(es.drop_last(), date, meal);
        assert forall|i: int| 0 <= i < m.len() implies on_date_and_meal(#[trigger] m[i], date, meal) by {
            if i < mr.len() {
                assert(m[i] == mr[i]);
            }
        }
    }
}

/// `plan set` replaces only an entry on the same date and meal type: when the listing of the
/// date is complete, the entry it will replace (if any) sits on that date and meal.
pub proof fn replacement_targets_same_date_and_meal(
    from: Seq<char>,
    to: Seq<char>,
    page: int,
    entries: Seq<PlanEntry>,
    date: Seq<char>,
    meal: MealType,
    recipe: Option<RecipeView>,
    title: Option<Seq<char>>,
    reply: Result<ApiResponse, ErrorView>,
)
    ensures
        ({
            let s = SessionView::Listing {
                from,
                to,
                page,
                entries,
                then: ListUseView::Replace { date, meal, recipe, title },
            };
            next(s, reply).0 matches SessionView::Creating { existing: Some(o) } ==> on_date_and_meal(
                o,
                date,
                meal,
            )
        }),
{
    let s = SessionView::Listing {
        from,
        to,
        page,
        entries,
        then: ListUseView::Replace { date, meal, recipe, title },
    };
    if let SessionView::Creating { existing: Some(o) } = next(s, reply).0 {
        if let Ok(v) = reply_json(reply, "list meal plans"@) {
            if let Ok(es) = plan_entries_of(collection_of(v)) {
                let all = entries + es;
                on_slot_entries_match(all, date, meal);
                assert(on_slot(all, date, meal)[0] == o);
            }
        }
    }
}

/// While a recipe reference is being resolved or recipes are searched, no entry is created or
/// deleted: the next request, if any, is a read.
pub proof fn lookups_never_mutate(s: SessionView, reply: Result<ApiResponse, ErrorView>)
    requires
        s is Searching || s is FetchingRecipe || s is MatchingName,
    ensures
        !sends(next(s, reply).1, HttpMethod::Post),
        !sends(next(s, reply).1, HttpMethod::Delete),
{
}

/// Reading the meal plan never deletes anything; it creates an entry only when `plan set`
/// replaces one.
pub proof fn listing_never_deletes(s: SessionView, reply: Result<ApiResponse, ErrorView>)
    requires
        s is Listing,
    ensures
        !sends(next(s, reply).1, HttpMethod::Delete),
        sends(next(s, reply).1, HttpMethod::Post) ==> (s matches SessionView::Listing {
            then: ListUseView::Replace { .. },
            ..
        }),
{
}

/// An existing entry is deleted only after its replacement was created: the creation's reply
/// leads to a deletion only when there is an entry to replace, and then of that entry.
pub proof fn deletes_only_after_creation(existing: Option<PlanEntry>, reply: Result<ApiResponse, ErrorView>)
    ensures
        ({
            let (s2, step) = next(SessionView::Creating { existing }, reply);
            &&& step is Send ==> (existing matches Some(o) && (step == StepView::Send(
                delete_request_view(o.id as int),
            ) && (s2 matches SessionView::Replacing { original, .. } && original == o)))
            &&& !sends(step, HttpMethod::Post)
        }),
{
}

/// When the original entry cannot be deleted, the new entry is deleted again (rolled back), and
/// the failure is kept to be reported.
pub proof fn failed_replacement_rolls_back(
    created: PlanEntry,
    original: PlanEntry,
    reply: Result<ApiResponse, ErrorView>,
)
    ensures
        ({
            let (s2, step) = next(SessionView::Replacing { created, original }, reply);
            ||| step matches StepView::Finish(Ok(_))
            ||| (s2 is RollingBack && step == StepView::Send(delete_request_view(created.id as int)))
        }),
{
}

/// A rollback always ends the command with the original deletion's error code, and its message
/// ends with that error's message.
pub proof fn rollback_reports_the_failure(failure: ErrorView, reply: Result<ApiResponse, ErrorView>)
    ensures
        ({
            let (s2, step) = next(SessionView::RollingBack { failure }, reply);
            &&& s2 is Finished
            &&& step matches StepView::Finish(Err(e)) && e.code == failure.code
                && e.message.len() >= failure.message.len() && e.message.subrange(
                e.message.len() - failure.message.len(),
                e.message.len() as int,
            ) == failure.message
        }),
{
    let (s2, step) = next(SessionView::RollingBack { failure }, reply);
    if let StepView::Finish(Err(e)) = step {
        assert(e.message.subrange(e.message.len() - failure.message.len(), e.message.len() as int)
            =~= failure.message);
    }
}

/// A name lookup never settles on a fuzzy match: while pages arrive it keeps only exact
/// (ASCII case-insensitive) name matches, it resolves to a recipe only when exactly one exists,
/// and several of them are refused as ambiguous.
pub proof fn name_lookup_is_exact(
    query: Seq<char>,
    page: int,
    matches: Seq<RecipeView>,
    then: RecipeUseView,
    reply: Result<ApiResponse, ErrorView>,
)
    requires
        forall|i: int| 0 <= i < matches.len() ==> exact_name(#[trigger] matches[i], query),
    ensures
        ({
            let (s2, step) = next(SessionView::MatchingName { query, page, matches, then }, reply);
            ||| step matches StepView::Finish(Err(_))
            ||| (s2 matches SessionView::MatchingName { query: q, matches: m, .. } && q == query
                && forall|i: int| 0 <= i < m.len() ==> exact_name(#[trigger] m[i], query))
            ||| exists|r: RecipeView| exact_name(r, query) && #[trigger] recipe_resolved(r, then) == (s2, step)
        }),
{
    let (s2, step) = next(SessionView::MatchingName { query, page, matches, then }, reply);
    if let Ok(v) = reply_json(reply, "search recipes"@) {
        if let Ok(rs) = recipes_of(collection_of(v)) {
            let found = name_matches(rs, query);
            let all = matches + found;
            name_matches_are_exact(rs, query);
            assert forall|i: int| 0 <= i < all.len() implies exact_name(#[trigger] all[i], query) by {
                if i >= matches.len() {
                    assert(all[i] == found[i - matches.len()]);
                }
            }
            if !has_next_page(v, page) && all.len() == 1 {
                assert(exact_name(all[0], query));
                assert(recipe_resolved(all[0], then) == (s2, step));
            }
        }
    }
}

/// Several exact name matches are always refused as ambiguous once the last page has arrived.
pub proof fn several_exact_names_are_ambiguous(
    query: Seq<char>,
    page: int,
    matches: Seq<RecipeView>,
    then: RecipeUseView,
    reply: Result<ApiResponse, ErrorView>,
    v: Json,
    rs: Seq<RecipeView>,
)
    requires
        reply_json(reply, "search recipes"@) == Ok::<Json, ErrorView>(v),
        recipes_of(collection_of(v)) == Ok::<Seq<RecipeView>, ErrorView>(rs),
        !has_next_page(v, page),
        matches.len() + name_matches(rs, query).len() >= 2,
    ensures
        next(SessionView::MatchingName { query, page, matches, then }, reply).1 matches StepView::Finish(
            Err(e),
        ) && e.code == ErrorCode::Ambiguous,
{
}

/// A recipe reference is first tried as a slug: a recipe found by slug is used as is, and a
/// name search follows only when the slug was not found.
pub proof fn slug_is_tried_first(
    query: Seq<char>,
    then: RecipeUseView,
    reply: Result<ApiResponse, ErrorView>,
)
    ensures
        ({
            let found = match reply_json(reply, "get recipe"@) {
                Err(e) => Err(e),
                Ok(v) => recipe_of(v),
            };
            let (s2, step) = next(SessionView::FetchingRecipe { query, then }, reply);
            &&& found matches Ok(r) ==> recipe_resolved(r, then) == (s2, step)
            &&& s2 is MatchingName ==> (found matches Err(e) && e.code == ErrorCode::NotFound)
        }),
{
}

/// `plan set` needs exactly one of a title and a recipe: with both or neither it sends nothing
/// and fails with an argument error, whatever its date. That error is the target error where
/// the date resolves, and the date's own error where it does not (the date is read first).
pub proof fn plan_set_needs_one_target(args: PlanSetArgs, today: int)
    requires
        (args.target.title is Some) == (args.target.recipe is Some),
    ensures
        ({
            let (s2, step) = started(ApiCommand::Plan(PlanCommand::SetEntry(args)), today);
            &&& s2 is Finished
            &&& step matches StepView::Finish(Err(e)) && e.code == ErrorCode::InvalidArgs
            &&& match resolved_date("--date"@, args.date@, today) {
                Ok(_) => step == StepView::Finish(
                    Err(error_of(ErrorCode::InvalidArgs, set_target_message())),
                ),
                Err(d) => step == StepView::Finish(Err(d)),
            }
        }),
{
    assert(resolved_date("--date"@, args.date@, today) matches Err(d) ==> d.code
        == ErrorCode::InvalidArgs);
}

/// The state and step after the replies `replies`, one after the other, starting from `s`.
pub open spec fn drive(s: SessionView, replies: Seq<Result<ApiResponse, ErrorView>>) -> (
    SessionView,
    StepView,
)
    decreases replies.len(),
{
    if replies.len() <= 1 {
        next(s, replies[0])
    } else {
        drive(next(s, replies[0]).0, replies.drop_first())
    }
}

/// The entries of several pages, in page order.
pub open spec fn flatten(pages: Seq<Seq<PlanEntry>>) -> Seq<PlanEntry>
    decreases pages.len(),
{
    if pages.len() == 0 {
        seq![]
    } else {
        pages[0] + flatten(pages.drop_first())
    }
}

/// A listing over `n` pages reads them all, in order: after each page but the last it asks for
/// the next page of the same range, holding the entries so far; once the last page (the one
/// that announces no further page) has arrived, the command goes on with the entries of all
/// pages concatenated in page order.
pub proof fn listing_collects_every_page(
    from: Seq<char>,
    to: Seq<char>,
    page: int,
    entries: Seq<PlanEntry>,
    then: ListUseView,
    replies: Seq<Result<ApiResponse, ErrorView>>,
    bodies: Seq<Json>,
    pages: Seq<Seq<PlanEntry>>,
)
    requires
        replies.len() >= 1,
        bodies.len() == replies.len(),
        pages.len() == replies.len(),
        forall|k: int|
            0 <= k < replies.len() ==> reply_json(#[trigger] replies[k], "list meal plans"@)
                == Ok::<Json, ErrorView>(bodies[k]),
        forall|k: int|
            0 <= k < replies.len() ==> plan_entries_of(collection_of(#[trigger] bodies[k]))
                == Ok::<Seq<PlanEntry>, ErrorView>(pages[k]),
        forall|k: int| 0 <= k < replies.len() - 1 ==> has_next_page(#[trigger] bodies[k], page + k),
        !has_next_page(bodies[replies.len() - 1], page + replies.len() - 1),
    ensures
        forall|k: int|
            0 <= k < replies.len() - 1 ==> #[trigger] drive(
                SessionView::Listing { from, to, page, entries, then },
                replies.take(k + 1),
            ) == (
                SessionView::Listing {
                    from,
                    to,
                    page: page + k + 1,
                    entries: entries + flatten(pages.take(k + 1)),
                    then,
                },
                StepView::Send(plan_list_request_view(from, to, page + k + 1)),
            ),
        drive(SessionView::Listing { from, to, page, entries, then }, replies) == listed(
            from,
            to,
            entries + flatten(pages),
            then,
        ),
    decreases replies.len(),
{
    let s = SessionView::Listing { from, to, page, entries, then };
    assert(reply_json(replies[0], "list meal plans"@) == Ok::<Json, ErrorView>(bodies[0]));
    assert(plan_entries_of(collection_of(bodies[0])) == Ok::<Seq<PlanEntry>, ErrorView>(pages[0]));
    let acc = entries + pages[0];
    if replies.len() == 1 {
        assert(flatten(pages.drop_first()) =~= Seq::<PlanEntry>::empty());
        assert(entries + flatten(pages) =~= acc);
    } else {
        assert(has_next_page(bodies[0], page));
        let rest = replies.drop_first();
        let rest_bodies = bodies.drop_first();
        let rest_pages = pages.drop_first();
        assert forall|k: int| 0 <= k < rest.len() implies reply_json(#[trigger] rest[k], "list meal plans"@)
            == Ok::<Json, ErrorView>(rest_bodies[k]) by {
            assert(rest[k] == replies[k + 1]);
        }
        assert forall|k: int| 0 <= k < rest.len() implies plan_entries_of(collection_of(#[trigger] rest_bodies[k]))
            == Ok::<Seq<PlanEntry>, ErrorView>(rest_pages[k]) by {
            assert(rest_bodies[k] == bodies[k + 1]);
        }
        assert forall|k: int| 0 <= k < rest.len() - 1 implies has_next_page(#[trigger] rest_bodies[k], page + 1 + k) by {
            assert(rest_bodies[k] == bodies[k + 1]);
        }
        assert(rest_bodies[rest.len() - 1] == bodies[replies.len() - 1]);
        listing_collects_every_page(from, to, page + 1, acc, then, rest, rest_bodies, rest_pages);
        assert(next(s, replies[0]).0 == SessionView::Listing { from, to, page: page + 1, entries: acc, then });
        assert(acc + flatten(rest_pages) =~= entries + flatten(pages));
        assert forall|k: int| 0 <= k < replies.len() - 1 implies #[trigger] drive(s, replies.take(k + 1)) == (
            SessionView::Listing {
                from,
                to,
                page: page + k + 1,
                entries: entries + flatten(pages.take(k + 1)),
                then,
            },
            StepView::Send(plan_list_request_view(from, to, page + k + 1)),
        ) by {
            let t = replies.take(k + 1);
            assert(t[0] == replies[0]);
            let pt = pages.take(k + 1);
            assert(pt[0] == pages[0]);
            assert(pt.drop_first() =~= rest_pages.take(k));
            if k == 0 {
                assert(flatten(pt.drop_first()) =~= Seq::<PlanEntry>::empty());
                assert(entries + flatten(pt) =~= acc);
            } else {
                assert(t.drop_first() =~= rest.take(k));
                let j = k - 1;
                assert(drive(
                    SessionView::Listing { from, to, page: page + 1, entries: acc, then },
                    rest.take(j + 1),
                ) == (
                    SessionView::Listing {
                        from,
                        to,
                        page: page + 1 + j + 1,
                        entries: acc + flatten(rest_pages.take(j + 1)),
                        then,
                    },
                    StepView::Send(plan_list_request_view(from, to, page + 1 + j + 1)),
                ));
                assert(acc + flatten(rest_pages.take(k)) =~= entries + flatten(pt));
            }
        }
    }
}

/// Whether an entry belongs to the listing of meal `meal` (every entry, without one).
pub open spec fn shown_for(e: PlanEntry, meal: Option<MealType>) -> bool {
    match meal {
        None => true,
        Some(m) => opt_view(e.meal) == Some(meal_name(m)),
    }
}

/// The entries a listing shows are exactly those of the meal asked for, in the order listed;
/// without a meal type, all of them.
pub proof fn meal_filter_is_exact(es: Seq<PlanEntry>, meal: Option<MealType>)
    ensures
        forall|i: int|
            0 <= i < of_meal(es, meal).len() ==> shown_for(#[trigger] of_meal(es, meal)[i], meal)
                && es.contains(of_meal(es, meal)[i]),
        forall|j: int|
            0 <= j < es.len() && shown_for(#[trigger] es[j], meal) ==> of_meal(es, meal).contains(
                es[j],
            ),
        meal is None ==> of_meal(es, meal) == es,
    decreases es.len(),
{
    if es.len() > 0 {
        let rest = es.drop_last();
        meal_filter_is_exact(rest, meal);
        let m = of_meal(es, meal);
        let mr = of_meal(rest, meal);
        assert forall|i: int| 0 <= i < m.len() implies shown_for(#[trigger] m[i], meal) && es.contains(
            m[i],
        ) by {
            if i < mr.len() {
                assert(m[i] == mr[i]);
                let k = choose|k: int| 0 <= k < rest.len() && rest[k] == mr[i];
                assert(es[k] == rest[k]);
            } else {
                assert(es[es.len() - 1] == es.last());
            }
        }
        assert forall|j: int| 0 <= j < es.len() && shown_for(#[trigger] es[j], meal) implies m.contains(
            es[j],
        ) by {
            if j < es.len() - 1 {
                assert(rest[j] == es[j]);
                let k = choose|k: int| 0 <= k < mr.len() && mr[k] == rest[j];
                assert(m[k] == mr[k]);
            } else {
                assert(m[m.len() - 1] == es[j]);
            }
        }
        if meal is None {
            assert(es =~= rest.push(es.last()));
        }
    }
}

/// Once every page has arrived, `plan list` shows the entries of its meal type as records in
/// the order listed, or the empty record for its range when none is left.
pub proof fn listing_result(from: Seq<char>, to: Seq<char>, all: Seq<PlanEntry>, meal: Option<MealType>)
    ensures
        listed(from, to, all, ListUseView::Show { meal }) == (
            SessionView::Finished,
            StepView::Finish(
                Ok(
                    OutputView {
                        presentation: PresentationView::PlanList { from, to },
                        values: if of_meal(all, meal).len() == 0 {
                            seq![empty_plan_record(from, to)]
                        } else {
                            of_meal(all, meal).map_values(|e: PlanEntry| entry_record(e))
                        },
                    },
                ),
            ),
        ),
{
    meal_filter_is_exact(all, meal);
}

/// With more than one entry already on the date and meal, `plan set` creates and deletes
/// nothing: it fails with the duplicate-entries error.
pub proof fn duplicates_are_refused(
    from: Seq<char>,
    to: Seq<char>,
    all: Seq<PlanEntry>,
    date: Seq<char>,
    meal: MealType,
    recipe: Option<RecipeView>,
    title: Option<Seq<char>>,
)
    requires
        on_slot(all, date, meal).len() > 1,
    ensures
        listed(from, to, all, ListUseView::Replace { date, meal, recipe, title }) == (
            SessionView::Finished,
            StepView::Finish(Err(error_of(ErrorCode::ApiError, duplicate_entries_message()))),
        ),
{
}

/// With at most one entry on the date and meal, `plan set` first creates the new entry (for the
/// recipe where there is one, else for the title), keeping the entry to replace, if any, to be
/// deleted afterwards.
pub proof fn replacement_creates_first(
    from: Seq<char>,
    to: Seq<char>,
    all: Seq<PlanEntry>,
    date: Seq<char>,
    meal: MealType,
    recipe: Option<RecipeView>,
    title: Option<Seq<char>>,
)
    requires
        on_slot(all, date, meal).len() <= 1,
    ensures
        listed(from, to, all, ListUseView::Replace { date, meal, recipe, title }) == (
            SessionView::Creating {
                existing: if on_slot(all, date, meal).len() == 1 {
                    Some(on_slot(all, date, meal)[0])
                } else {
                    None
                },
            },
            StepView::Send(create_request_view(plan_body(date, meal, recipe, title))),
        ),
{
}

proof fn on_slot_is_complete(es: Seq<PlanEntry>, date: Seq<char>, meal: MealType)
    ensures
        forall|i: int|
            0 <= i < es.len() && on_date_and_meal(#[trigger] es[i], date, meal) ==> on_slot(
                es,
                date,
                meal,
            ).contains(es[i]),
    decreases es.len(),
{
    if es.len() > 0 {
        let rest = es.drop_last();
        on_slot_is_complete(rest, date, meal);
        let m = on_slot(es, date, meal);
        let mr = on_slot(rest, date, meal);
        assert forall|i: int| 0 <= i < es.len() && on_date_and_meal(#[trigger] es[i], date, meal)
            implies m.contains(es[i]) by {
            if i < es.len() - 1 {
                assert(rest[i] == es[i]);
                let k = choose|k: int| 0 <= k < mr.len() && mr[k] == rest[i];
                assert(m[k] == mr[k]);
            } else {
                assert(es.last() == es[i]);
                assert(m[m.len() - 1] == es[i]);
            }
        }
    }
}

/// The entries `plan set` considers for replacement are exactly the listed entries on the set
/// date for the set meal type, whatever else they hold (a title, a recipe or neither): each of
/// them is such an entry, and every such entry is among them. So with a single entry on that
/// date and meal, it is the one replaced.
pub proof fn replacement_slot_is_exact(es: Seq<PlanEntry>, date: Seq<char>, meal: MealType)
    ensures
        forall|i: int|
            0 <= i < on_slot(es, date, meal).len() ==> on_date_and_meal(
                #[trigger] on_slot(es, date, meal)[i],
                date,
                meal,
            ),
        forall|i: int|
            0 <= i < es.len() && on_date_and_meal(#[trigger] es[i], date, meal) ==> on_slot(
                es,
                date,
                meal,
            ).contains(es[i]),
{
    on_slot_entries_match(es, date, meal);
    on_slot_is_complete(es, date, meal);
}

/// A recipe search asks for one page of `limit` recipes named by the query: its first request
/// is `GET /api/recipes` with `search` set to the query and `perPage` to the limit, in decimal.
/// A blank query sends nothing and fails with an argument error.
pub proof fn search_asks_for_the_limit(query: String, limit: u32, today: int)
    ensures
        !is_blank(query@) ==> started(
            ApiCommand::Recipes(RecipesCommand::Search { query, limit }),
            today,
        ).1 == StepView::Send(
            RequestView {
                method: HttpMethod::Get,
                path: "/api/recipes"@,
                query: seq![("search"@, query@), ("perPage"@, nat_text(limit as nat))],
                body: None,
            },
        ),
        is_blank(query@) ==> started(
            ApiCommand::Recipes(RecipesCommand::Search { query, limit }),
            today,
        ).1 == StepView::Finish(Err(error_of(ErrorCode::InvalidArgs, "recipe search query cannot be empty"@))),
{
    let q = seq![("search"@, query@), ("perPage"@, nat_text(limit as nat))];
    assert(q + page_param(1) =~= q);
}

} // verus!
