use kemenkeu_backend::error::{write_error, write_error_from_text, AppError};
use kemenkeu_backend::handlers::budgets::{
    budget_status, check_budget_request, income_or_zero, status_month, BudgetQuery,
    StatusQuery,
};
use kemenkeu_backend::handlers::categories::{
    category_type_valid, changed_category, default_icon, new_category, write_failure,
    CategoryFields, CategoryQuery, CreateCategoryRequest, UpdateCategoryRequest,
};
use kemenkeu_backend::handlers::transactions::{
    changed_transaction, check_new_transaction, page_limit, page_offset,
};
use kemenkeu_backend::handlers::users::{
    create_error, new_user_name, update_error, updated_user_name,
};
use kemenkeu_backend::handlers::{deletion_outcome, found, Resource};
use kemenkeu_backend::models::{
    BudgetRequest, BudgetStatus, Category, CreateTxRequest, CreateUserRequest, Transaction,
    UpdateTxRequest, UpdateUserRequest, User,
};

fn bad(msg: &str) -> AppError {
    AppError::BadRequest(msg.to_string())
}

fn date(y: i32, m: u32, d: u32) -> chrono::NaiveDate {
    chrono::NaiveDate::from_ymd_opt(y, m, d).unwrap()
}

fn category(name: &str, ty: &str, icon: &str, percent: i32) -> Category {
    Category {
        id: 4,
        name: name.to_string(),
        category_type: ty.to_string(),
        icon: icon.to_string(),
        budget_percent: percent,
    }
}

#[test]
fn new_user_name_is_trimmed() {
    let req = CreateUserRequest { name: "  Budi \n".to_string(), monthly_budget_cents: 0 };
    assert_eq!(new_user_name(&req), Ok("Budi".to_string()));
}

#[test]
fn blank_user_name_is_refused() {
    let req = CreateUserRequest { name: " \t\u{3000} ".to_string(), monthly_budget_cents: 10 };
    assert_eq!(new_user_name(&req), Err(bad("name is required")));
    let req = CreateUserRequest { name: String::new(), monthly_budget_cents: 0 };
    assert_eq!(new_user_name(&req), Err(bad("name is required")));
}

#[test]
fn user_update_keeps_or_replaces_the_name() {
    let existing = User { id: 1, name: "Sari".to_string(), monthly_budget_cents: 100 };
    let keep = UpdateUserRequest { name: None, monthly_budget_cents: Some(5) };
    assert_eq!(updated_user_name(&existing, &keep), Ok("Sari".to_string()));
    let rename = UpdateUserRequest { name: Some(" Dewi ".to_string()), monthly_budget_cents: None };
    assert_eq!(updated_user_name(&existing, &rename), Ok("Dewi".to_string()));
    let blank = UpdateUserRequest { name: Some("   ".to_string()), monthly_budget_cents: None };
    assert_eq!(updated_user_name(&existing, &blank), Err(bad("name is required")));
}

#[test]
fn default_icon_is_a_package() {
    assert_eq!(default_icon(), "\u{1F4E6}");
}

#[test]
fn category_types() {
    assert!(category_type_valid("income"));
    assert!(category_type_valid("expense"));
    assert!(!category_type_valid("Income"));
    assert!(!category_type_valid("savings"));
    assert!(!category_type_valid(""));
}

#[test]
fn new_category_is_checked_and_trimmed() {
    let req = CreateCategoryRequest {
        name: "  Makan ".to_string(),
        category_type: "expense".to_string(),
        icon: "x".to_string(),
    };
    assert_eq!(
        new_category(req),
        Ok(CategoryFields {
            name: "Makan".to_string(),
            category_type: "expense".to_string(),
            icon: "x".to_string()
        })
    );
    let req = CreateCategoryRequest {
        name: "  ".to_string(),
        category_type: "other".to_string(),
        icon: "x".to_string(),
    };
    assert_eq!(new_category(req), Err(bad("name is required")));
    let req = CreateCategoryRequest {
        name: "Gaji".to_string(),
        category_type: "other".to_string(),
        icon: "x".to_string(),
    };
    assert_eq!(new_category(req), Err(bad("type must be income or expense")));
}

#[test]
fn empty_category_update_keeps_the_category() {
    let req = UpdateCategoryRequest { name: None, category_type: None, icon: None };
    assert_eq!(
        changed_category(category("Gaji", "income", "i", 0), req),
        Ok(CategoryFields {
            name: "Gaji".to_string(),
            category_type: "income".to_string(),
            icon: "i".to_string()
        })
    );
}

#[test]
fn category_update_replaces_named_fields() {
    let req = UpdateCategoryRequest {
        name: Some(" Bonus ".to_string()),
        category_type: None,
        icon: Some("b".to_string()),
    };
    assert_eq!(
        changed_category(category("Gaji", "income", "i", 0), req),
        Ok(CategoryFields {
            name: "Bonus".to_string(),
            category_type: "income".to_string(),
            icon: "b".to_string()
        })
    );
    let req = UpdateCategoryRequest { name: None, category_type: Some("gift".to_string()), icon: None };
    assert_eq!(
        changed_category(category("Gaji", "income", "i", 0), req),
        Err(bad("type must be income or expense"))
    );
}

#[test]
fn write_errors_are_classified_by_text() {
    assert_eq!(
        write_error_from_text("Duplicate entry 'Budi' for key 'name'".to_string(), "user already exists"),
        bad("user already exists")
    );
    assert_eq!(
        write_error_from_text("connection reset".to_string(), "user already exists"),
        AppError::Internal("connection reset".to_string())
    );
    assert_eq!(
        write_error_from_text("duplicate entry".to_string(), "x"),
        AppError::Internal("duplicate entry".to_string())
    );
}

#[test]
fn database_errors_are_classified() {
    let dup = sqlx::Error::Protocol("Duplicate entry 'Makan' for key 'name'".to_string());
    assert_eq!(create_error(&dup), bad("user already exists"));
    assert_eq!(update_error(&dup), bad("user name already exists"));
    assert_eq!(write_failure(&dup), bad("category already exists"));
    let other = sqlx::Error::RowNotFound;
    let text = other.to_string();
    assert_eq!(write_error(&other, "category already exists"), AppError::Internal(text));
}

#[test]
fn deletions_of_nothing_are_not_found() {
    assert_eq!(
        deletion_outcome(Resource::User, 0),
        Err(AppError::NotFound("user not found".to_string()))
    );
    assert_eq!(
        deletion_outcome(Resource::Category, 0),
        Err(AppError::NotFound("category not found".to_string()))
    );
    assert_eq!(
        deletion_outcome(Resource::Transaction, 0),
        Err(AppError::NotFound("transaction not found".to_string()))
    );
    assert_eq!(
        deletion_outcome(Resource::Budget, 0),
        Err(AppError::NotFound("budget not found".to_string()))
    );
    assert_eq!(deletion_outcome(Resource::Budget, 1), Ok(()));
    assert_eq!(deletion_outcome(Resource::User, 3), Ok(()));
}

#[test]
fn lookups_of_nothing_are_not_found() {
    assert_eq!(found(Resource::Transaction, Some(8)), Ok(8));
    assert_eq!(
        found::<i32>(Resource::Transaction, None),
        Err(AppError::NotFound("transaction not found".to_string()))
    );
}

#[test]
fn message_of_an_error() {
    assert_eq!(bad("m").message(), "m");
    assert_eq!(AppError::Internal("i".to_string()).message(), "i");
}

#[test]
fn page_limits() {
    assert_eq!(page_limit(None), 100);
    assert_eq!(page_limit(Some(50)), 50);
    assert_eq!(page_limit(Some(200)), 200);
    assert_eq!(page_limit(Some(500)), 200);
    assert_eq!(page_limit(Some(-1)), -1);
    assert_eq!(page_offset(None), 0);
    assert_eq!(page_offset(Some(40)), 40);
}

fn new_tx(amount: i64) -> CreateTxRequest {
    CreateTxRequest { amount_cents: amount, category_id: 1, note: String::new(), date: "2024-05-01".to_string() }
}

#[test]
fn new_transactions_are_checked() {
    assert_eq!(check_new_transaction(&new_tx(0), "Saya"), Err(bad("amount must be non-zero")));
    assert_eq!(check_new_transaction(&new_tx(0), "Bob"), Err(bad("amount must be non-zero")));
    assert_eq!(
        check_new_transaction(&new_tx(-500), "Bob"),
        Err(bad("person must be Saya or Pasangan"))
    );
    assert_eq!(check_new_transaction(&new_tx(-500), "Saya"), Ok(()));
    assert_eq!(check_new_transaction(&new_tx(700), "Pasangan"), Ok(()));
}

fn tx() -> Transaction {
    Transaction {
        id: 9,
        user_id: 2,
        amount_cents: -1500,
        category_id: 3,
        note: "lunch".to_string(),
        date: date(2024, 5, 1),
        created_at: None,
    }
}

#[test]
fn transaction_update_merges_fields() {
    let keep = UpdateTxRequest { amount_cents: None, category_id: None, note: None, date: None };
    let f = changed_transaction(tx(), "Saya".to_string(), keep, None);
    assert_eq!(f.person, "Saya");
    assert_eq!((f.amount_cents, f.category_id, f.note.as_str(), f.date), (-1500, 3, "lunch", date(2024, 5, 1)));
    let change = UpdateTxRequest {
        amount_cents: Some(-2000),
        category_id: Some(5),
        note: Some("dinner".to_string()),
        date: Some(date(2024, 6, 2)),
    };
    let f = changed_transaction(tx(), "Saya".to_string(), change, Some("Pasangan".to_string()));
    assert_eq!(f.person, "Pasangan");
    assert_eq!((f.amount_cents, f.category_id, f.note.as_str(), f.date), (-2000, 5, "dinner", date(2024, 6, 2)));
}

#[test]
fn negative_budget_is_refused() {
    let req = BudgetRequest { category_id: 1, person: None, month: date(2024, 5, 1), amount_cents: -1 };
    assert_eq!(check_budget_request(&req), Err(bad("budget amount must be >= 0")));
    let req = BudgetRequest { category_id: 1, person: Some("Saya".to_string()), month: date(2024, 5, 1), amount_cents: 0 };
    assert_eq!(check_budget_request(&req), Ok(()));
}

#[test]
fn status_month_defaults_to_the_current_month() {
    assert_eq!(status_month(StatusQuery { month: Some("2024-02".to_string()) }, "2030-07".to_string()), "2024-02");
    assert_eq!(status_month(StatusQuery { month: None }, "2024-03".to_string()), "2024-03");
}

#[test]
fn income_defaults_to_zero() {
    assert_eq!(income_or_zero(None), 0);
    assert_eq!(income_or_zero(Some(300)), 300);
}

#[test]
fn budget_status_of_a_category() {
    let s = budget_status(category("Makan", "expense", "m", 30), 1_000_000, Some(-250_000));
    assert_eq!(
        s,
        BudgetStatus {
            id: 4,
            category_id: 4,
            category_name: "Makan".to_string(),
            icon: "m".to_string(),
            person: None,
            budget_percent: 30,
            monthly_income: 1_000_000,
            budgeted: 300_000,
            spent: 250_000,
            remaining: 50_000,
        }
    );
}

#[test]
fn budget_status_rounds_toward_zero_and_may_be_overspent() {
    let s = budget_status(category("Makan", "expense", "m", 33), 1001, None);
    assert_eq!((s.budgeted, s.spent, s.remaining), (330, 0, 330));
    let s = budget_status(category("Makan", "expense", "m", 33), -1001, Some(-500));
    assert_eq!((s.budgeted, s.spent, s.remaining), (-330, 500, -830));
}

#[test]
fn budget_queries_build() {
    let q = kemenkeu_backend::handlers::budgets::list_query(&BudgetQuery { month: None });
    assert_eq!(q.sql, "SELECT id, category_id, person, month, amount_cents FROM budgets WHERE 1=1");
    assert!(q.binds.is_empty());
    let _ = CategoryQuery::default();
}

#[test]
fn accepted_user_name_is_accepted_again_unchanged() {
    let first = new_user_name(&CreateUserRequest { name: "\u{a0} Rina\t".to_string(), monthly_budget_cents: 0 }).unwrap();
    assert_eq!(first, "Rina");
    let existing = User { id: 2, name: first.clone(), monthly_budget_cents: 0 };
    let again = updated_user_name(&existing, &UpdateUserRequest { name: Some(first.clone()), monthly_budget_cents: None });
    assert_eq!(again, Ok(first.clone()));
    let kept = updated_user_name(&existing, &UpdateUserRequest { name: None, monthly_budget_cents: None });
    assert_eq!(kept, Ok(first));
}

#[test]
fn accepted_category_survives_an_empty_update() {
    let req = CreateCategoryRequest {
        name: " Transport \n".to_string(),
        category_type: "expense".to_string(),
        icon: "t".to_string(),
    };
    let f = new_category(req).unwrap();
    let stored = Category { id: 1, name: f.name, category_type: f.category_type, icon: f.icon, budget_percent: 10 };
    let again = changed_category(stored, UpdateCategoryRequest { name: None, category_type: None, icon: None });
    assert_eq!(
        again,
        Ok(CategoryFields {
            name: "Transport".to_string(),
            category_type: "expense".to_string(),
            icon: "t".to_string()
        })
    );
}
