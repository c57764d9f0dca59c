//! The meal slots a plan entry can occupy.
use vstd::prelude::*;

verus! {

#[derive(Debug, Clone, Copy, PartialEq, Eq, Structural)]
pub enum MealType {
    Breakfast,
    Lunch,
    Dinner,
    Side,
    Snack,
    Drink,
    Dessert,
}

/// The name Mealie uses for each meal type.
pub open spec fn meal_name(m: MealType) -> Seq<char> {
    match m {
        MealType::Breakfast => "breakfast"@,
        MealType::Lunch => "lunch"@,
        MealType::Dinner => "dinner"@,
        MealType::Side => "side"@,
        MealType::Snack => "snack"@,
        MealType::Drink => "drink"@,
        MealType::Dessert => "dessert"@,
    }
}

impl MealType {
    pub fn as_str(&self) -> (r: &'static str)
        ensures
            r@ == meal_name(*self),
    {
        match self {
            MealType::Breakfast => "breakfast",
            MealType::Lunch => "lunch",
            MealType::Dinner => "dinner",
            MealType::Side => "side",
            MealType::Snack => "snack",
            MealType::Drink => "drink",
            MealType::Dessert => "dessert",
        }
    }
}

} // verus!
