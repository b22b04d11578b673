//! The summary page: which transactions it totals, and the income and
//! expense totals of the rows it gets.
use vstd::prelude::*;
use crate::models::{SummaryResponse, SummaryRow};
use crate::sql::{lemma_count_append, lemma_no_placeholder, lemma_one_placeholder, ParamView, SqlParam, SqlQuery};

verus! {

#[derive(Debug, PartialEq, Eq)]
pub struct SummaryQuery {
    pub month: Option<String>,
}

/// The text of the summary query: an admin sees everyone's transactions,
/// anyone else only their own; optionally for one month.
pub open spec fn summary_sql(admin: bool, by_month: bool) -> Seq<char> {
    "SELECT user_id, category_id, CAST(SUM(amount_cents) AS SIGNED) as total_cents, COUNT(*) as count FROM transactions WHERE 1=1"@
        + (if admin {
        Seq::empty()
    } else {
        " AND user_id = ?"@
    }) + (if by_month {
        " AND DATE_FORMAT(date, '%Y-%m') = ?"@
    } else {
        Seq::empty()
    }) + " GROUP BY user_id, category_id"@
}

pub open spec fn summary_params(admin: bool, user_id: i32, month: Option<String>) -> Seq<ParamView> {
    (if admin {
        Seq::empty()
    } else {
        seq![ParamView::Int(user_id)]
    }) + match month {
        Some(m) => seq![ParamView::Text(m@)],
        None => Seq::empty(),
    }
}

/// The query that totals transactions per user and category.
pub fn summary_query(admin: bool, user_id: i32, month: &Option<String>) -> (r: SqlQuery)
    ensures
        r.sql@ == summary_sql(admin, month is Some),
        r.params() == summary_params(admin, user_id, *month),
        r.well_bound(),
{
    proof {
        reveal_strlit(
            "SELECT user_id, category_id, CAST(SUM(amount_cents) AS SIGNED) as total_cents, COUNT(*) as count FROM transactions WHERE 1=1",
        );
        reveal_strlit(" AND user_id = ?");
        reveal_strlit(" AND DATE_FORMAT(date, '%Y-%m') = ?");
        reveal_strlit(" GROUP BY user_id, category_id");
        lemma_no_placeholder(
            "SELECT user_id, category_id, CAST(SUM(amount_cents) AS SIGNED) as total_cents, COUNT(*) as count FROM transactions WHERE 1=1"@,
        );
        lemma_one_placeholder(" AND user_id = ?"@);
        lemma_one_placeholder(" AND DATE_FORMAT(date, '%Y-%m') = ?"@);
        lemma_no_placeholder(" GROUP BY user_id, category_id"@);
        lemma_no_placeholder(Seq::<char>::empty());
    }
    let mut r = SqlQuery::new(
        "SELECT user_id, category_id, CAST(SUM(amount_cents) AS SIGNED) as total_cents, COUNT(*) as count FROM transactions WHERE 1=1",
    );
    let ghost s0 = r.sql@;
    if !admin {
        r.push_sql(" AND user_id = ?");
        r.bind(SqlParam::Int(user_id));
    }
    let ghost s1 = r.sql@;
    let ghost b1 = r.params();
    if let Some(m) = month {
        r.push_sql(" AND DATE_FORMAT(date, '%Y-%m') = ?");
        r.bind(SqlParam::Text(m.clone()));
    }
    let ghost s2 = r.sql@;
    r.push_sql(" GROUP BY user_id, category_id");
    proof {
        let f1 = if admin { Seq::<char>::empty() } else { " AND user_id = ?"@ };
        let f2 = if month is Some { " AND DATE_FORMAT(date, '%Y-%m') = ?"@ } else { Seq::<char>::empty() };
        assert(s1 =~= s0 + f1);
        assert(s2 =~= s1 + f2);
        lemma_count_append(s0, f1);
        lemma_count_append(s1, f2);
        lemma_count_append(s2, " GROUP BY user_id, category_id"@);
        assert(b1 =~= if admin { Seq::<ParamView>::empty() } else { seq![ParamView::Int(user_id)] });
        assert(r.params() =~= summary_params(admin, user_id, *month));
    }
    r
}

/// The summary query without filters: everyone's transactions, totalled per
/// user and category.
pub proof fn lemma_summary_unfiltered()
    ensures
        summary_sql(true, false)
            == "SELECT user_id, category_id, CAST(SUM(amount_cents) AS SIGNED) as total_cents, COUNT(*) as count FROM transactions WHERE 1=1 GROUP BY user_id, category_id"@,
        summary_params(true, 0, None) == Seq::<ParamView>::empty(),
{
    reveal_strlit(
        "SELECT user_id, category_id, CAST(SUM(amount_cents) AS SIGNED) as total_cents, COUNT(*) as count FROM transactions WHERE 1=1",
    );
    reveal_strlit(" GROUP BY user_id, category_id");
    reveal_strlit(
        "SELECT user_id, category_id, CAST(SUM(amount_cents) AS SIGNED) as total_cents, COUNT(*) as count FROM transactions WHERE 1=1 GROUP BY user_id, category_id",
    );
    assert(summary_sql(true, false) =~= "SELECT user_id, category_id, CAST(SUM(amount_cents) AS SIGNED) as total_cents, COUNT(*) as count FROM transactions WHERE 1=1 GROUP BY user_id, category_id"@);
    assert(summary_params(true, 0, None) =~= Seq::<ParamView>::empty());
}

/// Each filter is one condition placed just before the grouping, with its
/// value bound last: a user who is no admin sees only rows with their own
/// `user_id`, and a month keeps only rows of exactly that month, whoever asks.
pub proof fn lemma_summary_filters(admin: bool, user_id: i32, month: Seq<char>, m: String)
    requires
        m@ == month,
    ensures
        ({
            let g = " GROUP BY user_id, category_id"@;
            let base = summary_sql(admin, false);
            &&& base.len() >= g.len()
            &&& base.skip(base.len() - g.len()) == g
            &&& summary_sql(admin, true) == base.take(base.len() - g.len())
                + " AND DATE_FORMAT(date, '%Y-%m') = ?"@ + g
            &&& summary_params(admin, user_id, Some(m)) == summary_params(admin, user_id, None).push(
                ParamView::Text(month),
            )
        }),
        ({
            let g = " GROUP BY user_id, category_id"@;
            let all = summary_sql(true, false);
            summary_sql(false, false) == all.take(all.len() - g.len()) + " AND user_id = ?"@ + g
        }),
        summary_params(false, user_id, None) == seq![ParamView::Int(user_id)],
        summary_params(true, user_id, None) == Seq::<ParamView>::empty(),
{
    let g = " GROUP BY user_id, category_id"@;
    let head = "SELECT user_id, category_id, CAST(SUM(amount_cents) AS SIGNED) as total_cents, COUNT(*) as count FROM transactions WHERE 1=1"@;
    let u = if admin { Seq::<char>::empty() } else { " AND user_id = ?"@ };
    let base = summary_sql(admin, false);
    assert(base =~= head + u + g);
    assert(base.skip(base.len() - g.len()) =~= g);
    assert(base.take(base.len() - g.len()) =~= head + u);
    assert(summary_sql(admin, true) =~= head + u + " AND DATE_FORMAT(date, '%Y-%m') = ?"@ + g);
    assert(summary_params(admin, user_id, Some(m)) =~= summary_params(admin, user_id, None).push(
        ParamView::Text(month),
    ));
    let all = summary_sql(true, false);
    assert(all =~= head + g);
    assert(all.take(all.len() - g.len()) =~= head);
    assert(summary_sql(false, false) =~= head + " AND user_id = ?"@ + g);
    assert(summary_params(false, user_id, None) =~= seq![ParamView::Int(user_id)]);
    assert(summary_params(true, user_id, None) =~= Seq::<ParamView>::empty());
}

/// The query for a summary request from the user `session` (if the request
/// names one) who is an `admin` or not: a request that names no user, like
/// an admin's, totals everyone's transactions; anyone else's totals only
/// their own. `admin` is not consulted when no user is named.
pub fn summary_query_for(session: Option<i32>, admin: bool, month: &Option<String>) -> (r: SqlQuery)
    ensures
        r.sql@ == summary_sql(session is None || admin, month is Some),
        r.params() == summary_params(
            session is None || admin,
            match session {
                Some(id) => id,
                None => 0,
            },
            *month,
        ),
        r.well_bound(),
{
    match session {
        Some(id) => summary_query(admin, id, month),
        None => summary_query(true, 0, month),
    }
}

/// The sum of the positive totals of the rows.
pub open spec fn income_total(rows: Seq<SummaryRow>) -> int
    decreases rows.len(),
{
    if rows.len() == 0 {
        0
    } else {
        income_total(rows.drop_last()) + if rows.last().total_cents > 0 {
            rows.last().total_cents as int
        } else {
            0
        }
    }
}

/// The sum of the sizes of the negative totals of the rows.
pub open spec fn expense_total(rows: Seq<SummaryRow>) -> int
    decreases rows.len(),
{
    if rows.len() == 0 {
        0
    } else {
        expense_total(rows.drop_last()) + if rows.last().total_cents < 0 {
            -(rows.last().total_cents as int)
        } else {
            0
        }
    }
}

/// The sum of all totals of the rows.
pub open spec fn net_total(rows: Seq<SummaryRow>) -> int
    decreases rows.len(),
{
    if rows.len() == 0 {
        0
    } else {
        net_total(rows.drop_last()) + rows.last().total_cents
    }
}

proof fn lemma_totals_prefix(rows: Seq<SummaryRow>, k: int)
    requires
        0 <= k <= rows.len(),
    ensures
        0 <= income_total(rows.take(k)) <= income_total(rows),
        0 <= expense_total(rows.take(k)) <= expense_total(rows),
    decreases rows.len() - k,
{
    if k < rows.len() {
        lemma_totals_prefix(rows, k + 1);
        assert(rows.take(k + 1).drop_last() =~= rows.take(k));
        lemma_totals_nonnegative(rows.take(k));
    } else {
        assert(rows.take(k) =~= rows);
        lemma_totals_nonnegative(rows);
    }
}

proof fn lemma_totals_nonnegative(rows: Seq<SummaryRow>)
    ensures
        income_total(rows) >= 0,
        expense_total(rows) >= 0,
    decreases rows.len(),
{
    if rows.len() > 0 {
        lemma_totals_nonnegative(rows.drop_last());
    }
}

/// Income minus expense is the net of all totals, and neither is negative.
pub proof fn lemma_income_minus_expense(rows: Seq<SummaryRow>)
    ensures
        income_total(rows) - expense_total(rows) == net_total(rows),
        income_total(rows) >= 0,
        expense_total(rows) >= 0,
    decreases rows.len(),
{
    lemma_totals_nonnegative(rows);
    if rows.len() > 0 {
        lemma_income_minus_expense(rows.drop_last());
    }
}

/// The summary of the rows: the rows themselves, the sum of the positive
/// totals as income and the sum of the sizes of the negative ones as expense.
pub fn summarize(rows: Vec<SummaryRow>) -> (r: SummaryResponse)
    requires
        income_total(rows@) <= i64::MAX,
        expense_total(rows@) <= i64::MAX,
    ensures
        r.by_person_category@ == rows@,
        r.total_income == income_total(rows@),
        r.total_expense == expense_total(rows@),
{
    let mut income: i64 = 0;
    let mut expense: i64 = 0;
    let n = rows.len();
    for i in 0..n
        invariant
            n == rows@.len(),
            income_total(rows@) <= i64::MAX,
            expense_total(rows@) <= i64::MAX,
            income == income_total(rows@.take(i as int)),
            expense == expense_total(rows@.take(i as int)),
    {
        let row = rows[i];
        proof {
            lemma_totals_prefix(rows@, i + 1);
            assert(rows@.take(i + 1).drop_last() =~= rows@.take(i as int));
            assert(rows@.take(i + 1).last() == row);
            lemma_totals_nonnegative(rows@.take(i as int));
        }
        if row.total_cents > 0 {
            income = income + row.total_cents;
        } else if row.total_cents < 0 {
            expense = expense + (-row.total_cents);
        }
    }
    assert(rows@.take(n as int) =~= rows@);
    SummaryResponse { by_person_category: rows, total_income: income, total_expense: expense }
}

} // verus!
