//! Budgets: how they are listed, what an upsert must satisfy, and how a
//! month's budget status per expense category is worked out.
use vstd::prelude::*;
use crate::error::AppError;
use crate::models::{BudgetRequest, BudgetStatus, Category};
use crate::sql::{lemma_count_append, lemma_no_placeholder, lemma_one_placeholder, ParamView, SqlParam, SqlQuery};

verus! {

#[derive(Debug, PartialEq, Eq)]
pub struct BudgetQuery {
    pub month: Option<String>,
}

#[derive(Debug, PartialEq, Eq)]
pub struct StatusQuery {
    pub month: Option<String>,
}

/// The text of the budget listing, for one month or for all.
pub open spec fn list_sql(by_month: bool) -> Seq<char> {
    "SELECT id, category_id, person, month, amount_cents FROM budgets WHERE 1=1"@ + if by_month {
        " AND DATE_FORMAT(month, '%Y-%m') = ?"@
    } else {
        Seq::empty()
    }
}

/// The budget listing reads every budget; asking for a month adds exactly
/// one condition, that the budget's month is that month.
pub proof fn lemma_list_filter()
    ensures
        list_sql(false) == "SELECT id, category_id, person, month, amount_cents FROM budgets WHERE 1=1"@,
        list_sql(true) == list_sql(false) + " AND DATE_FORMAT(month, '%Y-%m') = ?"@,
{
    assert(list_sql(false) =~= "SELECT id, category_id, person, month, amount_cents FROM budgets WHERE 1=1"@);
}

/// The query that lists budgets, of one month (`YYYY-MM`) when the request
/// names one.
pub fn list_query(q: &BudgetQuery) -> (r: SqlQuery)
    ensures
        r.sql@ == list_sql(q.month is Some),
        r.params() == match q.month {
            Some(m) => seq![ParamView::Text(m@)],
            None => Seq::empty(),
        },
        r.well_bound(),
{
    proof {
        reveal_strlit("SELECT id, category_id, person, month, amount_cents FROM budgets WHERE 1=1");
        reveal_strlit(" AND DATE_FORMAT(month, '%Y-%m') = ?");
        lemma_no_placeholder(
            "SELECT id, category_id, person, month, amount_cents FROM budgets WHERE 1=1"@,
        );
        lemma_one_placeholder(" AND DATE_FORMAT(month, '%Y-%m') = ?"@);
        lemma_no_placeholder(Seq::<char>::empty());
    }
    let mut r = SqlQuery::new(
        "SELECT id, category_id, person, month, amount_cents FROM budgets WHERE 1=1",
    );
    let ghost base = r.sql@;
    if let Some(m) = &q.month {
        r.push_sql(" AND DATE_FORMAT(month, '%Y-%m') = ?");
        r.bind(SqlParam::Text(m.clone()));
    }
    proof {
        let f = if q.month is Some { " AND DATE_FORMAT(month, '%Y-%m') = ?"@ } else { Seq::<char>::empty() };
        assert(r.sql@ =~= base + f);
        lemma_count_append(base, f);
        assert(r.params() =~= match q.month {
            Some(m) => seq![ParamView::Text(m@)],
            None => Seq::<ParamView>::empty(),
        });
    }
    r
}

/// A budget's amount must not be negative.
pub fn check_budget_request(req: &BudgetRequest) -> (r: Result<(), AppError>)
    ensures
        req.amount_cents < 0 ==> (r matches Err(e) && e.is_bad_request("budget amount must be >= 0"@)),
        req.amount_cents >= 0 ==> r is Ok,
{
    if req.amount_cents < 0 {
        Err(AppError::bad_request("budget amount must be >= 0"))
    } else {
        Ok(())
    }
}

/// The month a status is worked out for: the requested one, or, when none
/// is requested, the current month (`current`, in the same `YYYY-MM` form).
pub fn status_month(q: StatusQuery, current: String) -> (r: String)
    ensures
        r@ == match q.month {
            Some(m) => m@,
            None => current@,
        },
{
    match q.month {
        Some(m) => m,
        None => current,
    }
}

/// The user's monthly income, 0 when none is recorded.
pub fn income_or_zero(income: Option<i64>) -> (r: i64)
    ensures
        r == match income {
            Some(i) => i,
            None => 0,
        },
{
    match income {
        Some(i) => i,
        None => 0,
    }
}

/// Integer division rounding toward zero, as `/` on `i64` does.
pub open spec fn div_toward_zero(a: int, b: int) -> int {
    if a >= 0 {
        a / b
    } else {
        -((-a) / b)
    }
}

/// The part of the income budgeted for a category: its percentage of the
/// income, rounded toward zero.
pub open spec fn budgeted_spec(income: i64, percent: i32) -> int {
    div_toward_zero(income * percent, 100)
}

/// What was spent: the size of the (negative) total of the month's expenses.
pub open spec fn spent_spec(spent_total: Option<i64>) -> int {
    let s = match spent_total {
        Some(s) => s as int,
        None => 0,
    };
    if s < 0 {
        -s
    } else {
        s
    }
}

/// The budgeted amount is the category's percentage of the income, cut
/// toward zero to whole cents; what was spent is the size of the total.
pub proof fn lemma_budget_arithmetic(income: i64, percent: i32, total: Option<i64>)
    ensures
        ({
            let p = income * percent;
            let b = budgeted_spec(income, percent);
            &&& p >= 0 ==> 0 <= p - 100 * b < 100
            &&& p < 0 ==> 0 <= 100 * b - p < 100
        }),
        spent_spec(total) >= 0,
        total is None ==> spent_spec(total) == 0,
        forall|s: i64| total == Some(s) ==> spent_spec(total) == s || spent_spec(total) == -s,
{
    let p = income * percent;
    if p >= 0 {
        vstd::arithmetic::div_mod::lemma_fundamental_div_mod(p, 100);
    } else {
        vstd::arithmetic::div_mod::lemma_fundamental_div_mod(-p, 100);
    }
}

/// The budget status of the expense category `cat` for a month, given the
/// user's monthly income and the total of the user's expenses in it that
/// month (if any).
pub fn budget_status(cat: Category, monthly_income: i64, spent_total: Option<i64>) -> (r:
    BudgetStatus)
    requires
        i64::MIN <= monthly_income * cat.budget_percent <= i64::MAX,
        spent_total != Some(i64::MIN),
        i64::MIN <= budgeted_spec(monthly_income, cat.budget_percent) - spent_spec(spent_total)
            <= i64::MAX,
    ensures
        r.id == cat.id,
        r.category_id == cat.id,
        r.category_name@ == cat.name@,
        r.icon@ == cat.icon@,
        r.person is None,
        r.budget_percent == cat.budget_percent,
        r.monthly_income == monthly_income,
        r.budgeted == budgeted_spec(monthly_income, cat.budget_percent),
        r.spent == spent_spec(spent_total),
        r.spent >= 0,
        r.remaining == r.budgeted - r.spent,
{
    let product = monthly_income * (cat.budget_percent as i64);
    let budgeted = product / 100;
    let total = match spent_total {
        Some(s) => s,
        None => 0,
    };
    let spent = if total < 0 {
        -total
    } else {
        total
    };
    BudgetStatus {
        id: cat.id,
        category_id: cat.id,
        category_name: cat.name,
        icon: cat.icon,
        person: None,
        budget_percent: cat.budget_percent,
        monthly_income,
        budgeted,
        spent,
        remaining: budgeted - spent,
    }
}

} // verus!
