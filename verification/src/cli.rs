//! The commands the program accepts, as plain values (argument parsing itself happens in the
//! program that embeds this library).
use vstd::prelude::*;

use crate::meal_type::MealType;

verus! {

#[derive(Debug, Clone, PartialEq, Eq)]
pub enum RecipesCommand {
    /// Search recipes by name or ingredient.
    Search { query: String, limit: u32 },
    /// Retrieve one recipe and its ingredients by exact slug or name.
    Get { slug: String },
}

#[derive(Debug, Clone, PartialEq, Eq)]
pub enum PlanCommand {
    /// List meal plan entries in a date range; each bound is optional.
    List { from: Option<String>, to: Option<String>, meal_type: Option<MealType> },
    /// Create or replace a meal plan entry.
    SetEntry(PlanSetArgs),
    /// Delete a meal plan entry by ID.
    Delete { id: i64 },
}

/// The commands that talk to the API (`completion` and `status` are handled without a session).
#[derive(Debug, Clone, PartialEq, Eq)]
pub enum ApiCommand {
    Recipes(RecipesCommand),
    Plan(PlanCommand),
}

#[derive(Debug, Clone, PartialEq, Eq)]
pub struct PlanSetArgs {
    pub date: String,
    pub meal_type: MealType,
    pub target: PlanSetTargetArgs,
}

#[derive(Debug, Clone, PartialEq, Eq)]
pub struct PlanSetTargetArgs {
    pub title: Option<String>,
    pub recipe: Option<String>,
}

} // verus!
