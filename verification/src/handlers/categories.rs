//! Income and expense categories: which are listed, and what a new or
//! changed category is stored with.
use vstd::prelude::*;
use crate::error::{write_error, write_error_spec, AppError};
use crate::models::Category;
use crate::sql::{
    lemma_count_append, lemma_no_placeholder, lemma_one_placeholder, ParamView, SqlParam, SqlQuery,
};
use crate::handlers::users::is_inner_text;
use crate::text::{is_whitespace, lemma_trim_idempotent, lemma_trim_shape, same_text, trim, trimmed, ws_prefix_len};

verus! {

#[derive(Debug, PartialEq, Eq, Default)]
pub struct CategoryQuery {
    pub category_type: Option<String>,
}

#[derive(Debug, PartialEq, Eq)]
pub struct CreateCategoryRequest {
    pub name: String,
    pub category_type: String,
    pub icon: String,
}

#[derive(Debug, PartialEq, Eq)]
pub struct UpdateCategoryRequest {
    pub name: Option<String>,
    pub category_type: Option<String>,
    pub icon: Option<String>,
}

/// The fields a category is written with.
#[derive(Debug, PartialEq, Eq)]
pub struct CategoryFields {
    pub name: String,
    pub category_type: String,
    pub icon: String,
}

/// The icon of a category created without one.
pub fn default_icon() -> (r: String)
    ensures
        r@ == "\u{1F4E6}"@,
{
    String::from_str("\u{1F4E6}")
}

/// The two kinds of category.
pub open spec fn is_category_type(t: Seq<char>) -> bool {
    t == "income"@ || t == "expense"@
}

/// The answer for a category with the given name, type and icon: the name
/// is trimmed and must not be empty, and the type is income or expense.
pub open spec fn category_outcome(
    name: Seq<char>,
    ty: Seq<char>,
    icon: Seq<char>,
    r: Result<CategoryFields, AppError>,
) -> bool {
    if trim(name).len() == 0 {
        r matches Err(e) && e.is_bad_request("name is required"@)
    } else if !is_category_type(ty) {
        r matches Err(e) && e.is_bad_request("type must be income or expense"@)
    } else {
        r matches Ok(f) && f.name@ == trim(name) && f.category_type@ == ty && f.icon@ == icon
    }
}

/// What a category check answers: a name made only of whitespace is
/// refused first, then a type other than "income" or "expense"; otherwise
/// the category is accepted with its name exactly as given without the
/// surrounding whitespace, and its type and icon as given.
pub proof fn lemma_category_check(
    name: Seq<char>,
    ty: Seq<char>,
    icon: Seq<char>,
    r: Result<CategoryFields, AppError>,
)
    requires
        category_outcome(name, ty, icon, r),
    ensures
        (forall|k: int| 0 <= k < name.len() ==> is_whitespace(#[trigger] name[k])) ==> (r matches Err(
            e,
        ) && e.is_bad_request("name is required"@)),
        !(forall|k: int| 0 <= k < name.len() ==> is_whitespace(#[trigger] name[k])) && ty != "income"@
            && ty != "expense"@ ==> (r matches Err(e) && e.is_bad_request(
            "type must be income or expense"@,
        )),
        r matches Ok(f) ==> is_inner_text(name, f.name@) && (f.category_type@ == "income"@
            || f.category_type@ == "expense"@) && f.category_type@ == ty && f.icon@ == icon,
{
    lemma_trim_shape(name);
    if let Ok(f) = r {
        let a = ws_prefix_len(name) as int;
        assert(name.subrange(a, a + f.name@.len()) == f.name@);
    }
}

/// A category that was accepted is accepted again, unchanged: an update
/// that leaves every field out keeps the category as it is.
pub proof fn lemma_accepted_category_is_stable(
    name: Seq<char>,
    ty: Seq<char>,
    icon: Seq<char>,
    first: Result<CategoryFields, AppError>,
    again: Result<CategoryFields, AppError>,
)
    requires
        category_outcome(name, ty, icon, first),
        first is Ok,
        category_outcome(
            first->Ok_0.name@,
            first->Ok_0.category_type@,
            first->Ok_0.icon@,
            again,
        ),
    ensures
        again matches Ok(f) && f.name@ == first->Ok_0.name@ && f.category_type@
            == first->Ok_0.category_type@ && f.icon@ == first->Ok_0.icon@,
{
    lemma_trim_idempotent(name);
}

/// Whether `t` names a kind of category.
pub fn category_type_valid(t: &str) -> (b: bool)
    ensures
        b == is_category_type(t@),
{
    same_text(t, "income") || same_text(t, "expense")
}

fn checked_fields(name: String, category_type: String, icon: String) -> (r: Result<
    CategoryFields,
    AppError,
>)
    ensures
        category_outcome(name@, category_type@, icon@, r),
{
    let name = trimmed(name.as_str());
    if name.as_str().is_empty() {
        return Err(AppError::bad_request("name is required"));
    }
    if !category_type_valid(category_type.as_str()) {
        return Err(AppError::bad_request("type must be income or expense"));
    }
    Ok(CategoryFields { name, category_type, icon })
}

/// What a new category is stored with.
pub fn new_category(req: CreateCategoryRequest) -> (r: Result<CategoryFields, AppError>)
    ensures
        category_outcome(req.name@, req.category_type@, req.icon@, r),
{
    checked_fields(req.name, req.category_type, req.icon)
}

/// What a category is stored with after an update: each field as requested,
/// or as it was when the request leaves it out.
pub fn changed_category(existing: Category, req: UpdateCategoryRequest) -> (r: Result<
    CategoryFields,
    AppError,
>)
    ensures
        category_outcome(
            match req.name {
                Some(n) => n@,
                None => existing.name@,
            },
            match req.category_type {
                Some(t) => t@,
                None => existing.category_type@,
            },
            match req.icon {
                Some(i) => i@,
                None => existing.icon@,
            },
            r,
        ),
{
    let name = match req.name {
        Some(n) => n,
        None => existing.name,
    };
    let category_type = match req.category_type {
        Some(t) => t,
        None => existing.category_type,
    };
    let icon = match req.icon {
        Some(i) => i,
        None => existing.icon,
    };
    checked_fields(name, category_type, icon)
}

/// The text of the category listing, filtered by type or not.
pub open spec fn list_sql(by_type: bool) -> Seq<char> {
    "SELECT id, name, type AS category_type, icon, budget_percent FROM categories"@ + (if by_type {
        " WHERE type = ?"@
    } else {
        Seq::empty()
    }) + " ORDER BY type, id"@
}

/// The category listing reads every category's fields, ordered by type and
/// id; asking for one type adds exactly one condition on the type, bound to
/// the requested type.
pub proof fn lemma_list_filter()
    ensures
        list_sql(false)
            == "SELECT id, name, type AS category_type, icon, budget_percent FROM categories ORDER BY type, id"@,
        ({
            let o = " ORDER BY type, id"@;
            let all = list_sql(false);
            list_sql(true) == all.take(all.len() - o.len()) + " WHERE type = ?"@ + o
        }),
{
    let head = "SELECT id, name, type AS category_type, icon, budget_percent FROM categories"@;
    let o = " ORDER BY type, id"@;
    reveal_strlit("SELECT id, name, type AS category_type, icon, budget_percent FROM categories");
    reveal_strlit(" ORDER BY type, id");
    reveal_strlit(
        "SELECT id, name, type AS category_type, icon, budget_percent FROM categories ORDER BY type, id",
    );
    assert(list_sql(false) =~= head + o);
    assert(list_sql(false) =~= "SELECT id, name, type AS category_type, icon, budget_percent FROM categories ORDER BY type, id"@);
    assert(list_sql(false).take(list_sql(false).len() - o.len()) =~= head);
    assert(list_sql(true) =~= head + " WHERE type = ?"@ + o);
}

/// The query that lists categories, of one type when the request names one.
pub fn list_query(q: &CategoryQuery) -> (r: SqlQuery)
    ensures
        r.sql@ == list_sql(q.category_type is Some),
        r.params() == match q.category_type {
            Some(t) => seq![ParamView::Text(t@)],
            None => Seq::empty(),
        },
        r.well_bound(),
{
    proof {
        reveal_strlit("SELECT id, name, type AS category_type, icon, budget_percent FROM categories");
        reveal_strlit(" WHERE type = ?");
        reveal_strlit(" ORDER BY type, id");
        lemma_no_placeholder("SELECT id, name, type AS category_type, icon, budget_percent FROM categories"@);
        lemma_one_placeholder(" WHERE type = ?"@);
        lemma_no_placeholder(" ORDER BY type, id"@);
        lemma_no_placeholder(Seq::<char>::empty());
    }
    let mut r = SqlQuery::new("SELECT id, name, type AS category_type, icon, budget_percent FROM categories");
    let ghost base = r.sql@;
    if let Some(t) = &q.category_type {
        r.push_sql(" WHERE type = ?");
        r.bind(SqlParam::Text(t.clone()));
    }
    let ghost mid = r.sql@;
    r.push_sql(" ORDER BY type, id");
    proof {
        let f = if q.category_type is Some { " WHERE type = ?"@ } else { Seq::<char>::empty() };
        assert(mid =~= base + f);
        lemma_count_append(base, f);
        lemma_count_append(mid, " ORDER BY type, id"@);
        assert(r.params() =~= match q.category_type {
            Some(t) => seq![ParamView::Text(t@)],
            None => Seq::<ParamView>::empty(),
        });
    }
    r
}

/// The answer when storing a category fails.
pub fn write_failure(e: &sqlx::Error) -> (r: AppError)
    ensures
        exists|text: Seq<char>| write_error_spec(text, "category already exists"@, r),
{
    write_error(e, "category already exists")
}

} // verus!
