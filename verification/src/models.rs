//! The records the service stores and the requests and answers it exchanges.
use vstd::prelude::*;

verus! {

/// A calendar date (`chrono::NaiveDate`), carried through as it is.
#[verifier::external_type_specification]
#[verifier::external_body]
pub struct ExNaiveDate(chrono::NaiveDate);

/// A date and time of day (`chrono::NaiveDateTime`), carried through as it is.
#[verifier::external_type_specification]
#[verifier::external_body]
pub struct ExNaiveDateTime(chrono::NaiveDateTime);

/// A member of the family.
#[derive(Debug, PartialEq, Eq)]
pub struct User {
    pub id: i32,
    pub name: String,
    pub monthly_budget_cents: i64,
}

#[derive(Debug, PartialEq, Eq)]
pub struct CreateUserRequest {
    pub name: String,
    pub monthly_budget_cents: i64,
}

#[derive(Debug, PartialEq, Eq)]
pub struct UpdateUserRequest {
    pub name: Option<String>,
    pub monthly_budget_cents: Option<i64>,
}

/// An income or expense category.
#[derive(Debug, PartialEq, Eq)]
pub struct Category {
    pub id: i32,
    pub name: String,
    pub category_type: String,
    pub icon: String,
    pub budget_percent: i32,
}

/// An income (positive amount) or expense (negative amount).
#[derive(Debug)]
pub struct Transaction {
    pub id: i32,
    pub user_id: i32,
    pub amount_cents: i64,
    pub category_id: i32,
    pub note: String,
    pub date: chrono::NaiveDate,
    pub created_at: Option<chrono::NaiveDateTime>,
}

#[derive(Debug, PartialEq, Eq)]
pub struct CreateTxRequest {
    pub amount_cents: i64,
    pub category_id: i32,
    pub note: String,
    pub date: String,
}

#[derive(Debug)]
pub struct UpdateTxRequest {
    pub amount_cents: Option<i64>,
    pub category_id: Option<i32>,
    pub note: Option<String>,
    pub date: Option<chrono::NaiveDate>,
}

/// A monthly budget for a category.
#[derive(Debug)]
pub struct Budget {
    pub id: i32,
    pub category_id: i32,
    pub person: Option<String>,
    pub month: chrono::NaiveDate,
    pub amount_cents: i64,
}

#[derive(Debug)]
pub struct BudgetRequest {
    pub category_id: i32,
    pub person: Option<String>,
    pub month: chrono::NaiveDate,
    pub amount_cents: i64,
}

/// The total and number of transactions of one user in one category.
#[derive(Debug, PartialEq, Eq, Clone, Copy)]
pub struct SummaryRow {
    pub user_id: i32,
    pub category_id: i32,
    pub total_cents: i64,
    pub count: i64,
}

#[derive(Debug, PartialEq, Eq)]
pub struct SummaryResponse {
    pub by_person_category: Vec<SummaryRow>,
    pub total_income: i64,
    pub total_expense: i64,
}

#[derive(Debug, PartialEq, Eq)]
pub struct MonthlyTrend {
    pub month: String,
    pub income: i64,
    pub expense: i64,
}

/// What was budgeted for an expense category in a month, and what was spent.
#[derive(Debug, PartialEq, Eq)]
pub struct BudgetStatus {
    pub id: i32,
    pub category_id: i32,
    pub category_name: String,
    pub icon: String,
    pub person: Option<String>,
    pub budget_percent: i32,
    pub monthly_income: i64,
    pub budgeted: i64,
    pub spent: i64,
    pub remaining: i64,
}

#[derive(Debug, PartialEq, Eq)]
pub struct TxQuery {
    pub person: Option<String>,
    pub category_id: Option<i32>,
    pub month: Option<String>,
    pub limit: Option<i64>,
    pub offset: Option<i64>,
}

} // verus!
