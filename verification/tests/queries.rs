use kemenkeu_backend::db::migration_statements;
use kemenkeu_backend::handlers::budgets::{self, BudgetQuery};
use kemenkeu_backend::handlers::categories::{self, CategoryQuery};
use kemenkeu_backend::handlers::summary::{summarize, summary_query, summary_query_for};
use kemenkeu_backend::handlers::transactions;
use kemenkeu_backend::models::{SummaryRow, TxQuery};
use kemenkeu_backend::sql::{SqlParam, SqlQuery};

fn placeholders(q: &SqlQuery) -> usize {
    q.sql.chars().filter(|c| *c == '?').count()
}

#[test]
fn category_listing_query() {
    let q = categories::list_query(&CategoryQuery { category_type: None });
    assert_eq!(q.sql, "SELECT id, name, type AS category_type, icon, budget_percent FROM categories ORDER BY type, id");
    assert!(q.binds.is_empty());
    let q = categories::list_query(&CategoryQuery { category_type: Some("income".to_string()) });
    assert_eq!(
        q.sql,
        "SELECT id, name, type AS category_type, icon, budget_percent FROM categories WHERE type = ? ORDER BY type, id"
    );
    assert_eq!(q.binds, vec![SqlParam::Text("income".to_string())]);
    assert_eq!(placeholders(&q), q.binds.len());
}

#[test]
fn transaction_listing_query_without_filters() {
    let q = transactions::list_query(&TxQuery { person: None, category_id: None, month: None, limit: None, offset: None });
    assert_eq!(
        q.sql,
        "SELECT id, user_id, amount_cents, category_id, note, date, created_at FROM transactions WHERE 1=1 ORDER BY date DESC, id DESC LIMIT ? OFFSET ?"
    );
    assert_eq!(q.binds, vec![SqlParam::BigInt(100), SqlParam::BigInt(0)]);
    assert_eq!(placeholders(&q), q.binds.len());
}

#[test]
fn transaction_listing_query_with_all_filters() {
    let q = transactions::list_query(&TxQuery {
        person: Some("Saya".to_string()),
        category_id: Some(3),
        month: Some("2024-05".to_string()),
        limit: Some(1000),
        offset: Some(20),
    });
    assert_eq!(
        q.sql,
        "SELECT id, user_id, amount_cents, category_id, note, date, created_at FROM transactions WHERE 1=1 AND person = ? AND category_id = ? AND DATE_FORMAT(date, '%Y-%m') = ? ORDER BY date DESC, id DESC LIMIT ? OFFSET ?"
    );
    assert_eq!(
        q.binds,
        vec![
            SqlParam::Text("Saya".to_string()),
            SqlParam::Int(3),
            SqlParam::Text("2024-05".to_string()),
            SqlParam::BigInt(200),
            SqlParam::BigInt(20)
        ]
    );
    assert_eq!(placeholders(&q), q.binds.len());
}

#[test]
fn transaction_listing_query_by_category_only() {
    let q = transactions::list_query(&TxQuery { person: None, category_id: Some(7), month: None, limit: Some(10), offset: None });
    assert_eq!(q.binds, vec![SqlParam::Int(7), SqlParam::BigInt(10), SqlParam::BigInt(0)]);
    assert_eq!(placeholders(&q), 3);
}

#[test]
fn budget_listing_query_by_month() {
    let q = budgets::list_query(&BudgetQuery { month: Some("2024-01".to_string()) });
    assert_eq!(
        q.sql,
        "SELECT id, category_id, person, month, amount_cents FROM budgets WHERE 1=1 AND DATE_FORMAT(month, '%Y-%m') = ?"
    );
    assert_eq!(q.binds, vec![SqlParam::Text("2024-01".to_string())]);
}

#[test]
fn summary_query_for_admin_and_member() {
    let q = summary_query(true, 5, &None);
    assert_eq!(
        q.sql,
        "SELECT user_id, category_id, CAST(SUM(amount_cents) AS SIGNED) as total_cents, COUNT(*) as count FROM transactions WHERE 1=1 GROUP BY user_id, category_id"
    );
    assert!(q.binds.is_empty());
    let q = summary_query(false, 5, &Some("2024-03".to_string()));
    assert_eq!(
        q.sql,
        "SELECT user_id, category_id, CAST(SUM(amount_cents) AS SIGNED) as total_cents, COUNT(*) as count FROM transactions WHERE 1=1 AND user_id = ? AND DATE_FORMAT(date, '%Y-%m') = ? GROUP BY user_id, category_id"
    );
    assert_eq!(q.binds, vec![SqlParam::Int(5), SqlParam::Text("2024-03".to_string())]);
    assert_eq!(placeholders(&q), 2);
}

fn row(user: i32, cat: i32, total: i64) -> SummaryRow {
    SummaryRow { user_id: user, category_id: cat, total_cents: total, count: 1 }
}

#[test]
fn summary_totals() {
    let rows = vec![row(1, 1, 500_000), row(1, 2, -120_000), row(2, 2, -30_000), row(2, 3, 0), row(2, 1, 250)];
    let s = summarize(rows.clone());
    assert_eq!(s.by_person_category, rows);
    assert_eq!(s.total_income, 500_250);
    assert_eq!(s.total_expense, 150_000);
    let net: i64 = rows.iter().map(|r| r.total_cents).sum();
    assert_eq!(s.total_income - s.total_expense, net);
}

#[test]
fn summary_of_nothing() {
    let s = summarize(Vec::new());
    assert_eq!((s.total_income, s.total_expense), (0, 0));
    assert!(s.by_person_category.is_empty());
}

#[test]
fn migration_script_is_split_into_statements() {
    let script = "CREATE TABLE a (id INT);\n\n  CREATE TABLE b (id INT) ;\n ; \n-- end\n";
    assert_eq!(
        migration_statements(script),
        vec!["CREATE TABLE a (id INT)".to_string(), "CREATE TABLE b (id INT)".to_string(), "-- end".to_string()]
    );
    assert!(migration_statements("").is_empty());
    assert!(migration_statements(" ;;\n; ").is_empty());
    assert_eq!(migration_statements("SELECT 1"), vec!["SELECT 1".to_string()]);
}

#[test]
fn summary_without_a_session_covers_everyone() {
    let open = summary_query_for(None, false, &Some("2024-03".to_string()));
    assert_eq!(open, summary_query(true, 0, &Some("2024-03".to_string())));
    assert_eq!(open.binds, vec![SqlParam::Text("2024-03".to_string())]);
    let member = summary_query_for(Some(4), false, &None);
    assert_eq!(member.binds, vec![SqlParam::Int(4)]);
    assert_eq!(member, summary_query(false, 4, &None));
    let admin = summary_query_for(Some(4), true, &None);
    assert!(admin.binds.is_empty());
}
