//! Transactions: how they are listed, and what a new or changed one is
//! checked and stored with.
use vstd::prelude::*;
use crate::error::AppError;
use crate::models::{CreateTxRequest, Transaction, TxQuery, UpdateTxRequest};
use crate::sql::{
    lemma_count_append, lemma_no_placeholder, lemma_one_placeholder, ParamView, SqlParam, SqlQuery,
};
use crate::text::same_text;

verus! {

/// The most transactions a listing returns, and how many without a limit.
pub open spec fn page_limit_spec(limit: Option<i64>) -> i64 {
    let l = match limit {
        Some(l) => l,
        None => 100,
    };
    if l <= 200 {
        l
    } else {
        200
    }
}

/// The size of a page: the requested limit (100 when none), at most 200.
pub fn page_limit(limit: Option<i64>) -> (r: i64)
    ensures
        r == page_limit_spec(limit),
        r <= 200,
{
    let l = match limit {
        Some(l) => l,
        None => 100,
    };
    if l <= 200 {
        l
    } else {
        200
    }
}

/// Where a page starts: the requested offset, 0 when none.
pub fn page_offset(offset: Option<i64>) -> (r: i64)
    ensures
        r == match offset {
            Some(o) => o,
            None => 0,
        },
{
    match offset {
        Some(o) => o,
        None => 0,
    }
}

pub open spec fn filter_sql(on: bool, text: Seq<char>) -> Seq<char> {
    if on {
        text
    } else {
        Seq::empty()
    }
}

/// The text of the transaction listing for the filters that are set.
pub open spec fn list_sql(by_person: bool, by_category: bool, by_month: bool) -> Seq<char> {
    "SELECT id, user_id, amount_cents, category_id, note, date, created_at FROM transactions WHERE 1=1"@
        + filter_sql(by_person, " AND person = ?"@) + filter_sql(
        by_category,
        " AND category_id = ?"@,
    ) + filter_sql(by_month, " AND DATE_FORMAT(date, '%Y-%m') = ?"@)
        + " ORDER BY date DESC, id DESC LIMIT ?"@ + " OFFSET ?"@
}

/// The values bound to the transaction listing: the filters that are set,
/// then the page size and start.
pub open spec fn list_params(q: TxQuery) -> Seq<ParamView> {
    (match q.person {
        Some(p) => seq![ParamView::Text(p@)],
        None => Seq::empty(),
    }) + (match q.category_id {
        Some(c) => seq![ParamView::Int(c)],
        None => Seq::empty(),
    }) + (match q.month {
        Some(m) => seq![ParamView::Text(m@)],
        None => Seq::empty(),
    }) + seq![
        ParamView::BigInt(page_limit_spec(q.limit)),
        ParamView::BigInt(
            match q.offset {
                Some(o) => o,
                None => 0,
            },
        ),
    ]
}

/// The page size is the requested one capped at 200, and 100 when none is
/// requested: a request for at most 200 transactions gets as many as it
/// asks for, and the listing binds exactly that size and the requested start.
pub proof fn lemma_page_size(q: TxQuery)
    ensures
        q.limit is None ==> page_limit_spec(q.limit) == 100,
        forall|l: i64| q.limit == Some(l) && l <= 200 ==> page_limit_spec(q.limit) == l,
        forall|l: i64| q.limit == Some(l) && l > 200 ==> page_limit_spec(q.limit) == 200,
        list_params(q).len() >= 2,
        list_params(q)[list_params(q).len() - 2] == ParamView::BigInt(page_limit_spec(q.limit)),
        list_params(q).last() == ParamView::BigInt(
            match q.offset {
                Some(o) => o,
                None => 0,
            },
        ),
{
}

/// The query that lists a page of transactions, newest first, filtered by
/// person, category and month when the request names them.
pub fn list_query(q: &TxQuery) -> (r: SqlQuery)
    ensures
        r.sql@ == list_sql(q.person is Some, q.category_id is Some, q.month is Some),
        r.params() == list_params(*q),
        r.well_bound(),
{
    let limit = page_limit(q.limit);
    let offset = page_offset(q.offset);
    proof {
        reveal_strlit(
            "SELECT id, user_id, amount_cents, category_id, note, date, created_at FROM transactions WHERE 1=1",
        );
        reveal_strlit(" AND person = ?");
        reveal_strlit(" AND category_id = ?");
        reveal_strlit(" AND DATE_FORMAT(date, '%Y-%m') = ?");
        reveal_strlit(" ORDER BY date DESC, id DESC LIMIT ?");
        reveal_strlit(" OFFSET ?");
        lemma_no_placeholder(
            "SELECT id, user_id, amount_cents, category_id, note, date, created_at FROM transactions WHERE 1=1"@,
        );
        lemma_one_placeholder(" AND person = ?"@);
        lemma_one_placeholder(" AND category_id = ?"@);
        lemma_one_placeholder(" AND DATE_FORMAT(date, '%Y-%m') = ?"@);
        lemma_one_placeholder(" ORDER BY date DESC, id DESC LIMIT ?"@);
        lemma_one_placeholder(" OFFSET ?"@);
        lemma_no_placeholder(Seq::<char>::empty());
    }
    let mut r = SqlQuery::new(
        "SELECT id, user_id, amount_cents, category_id, note, date, created_at FROM transactions WHERE 1=1",
    );
    let ghost s0 = r.sql@;
    let ghost b0 = r.params();
    if let Some(person) = &q.person {
        r.push_sql(" AND person = ?");
        r.bind(SqlParam::Text(person.clone()));
    }
    let ghost s1 = r.sql@;
    let ghost b1 = r.params();
    if let Some(cat) = q.category_id {
        r.push_sql(" AND category_id = ?");
        r.bind(SqlParam::Int(cat));
    }
    let ghost s2 = r.sql@;
    let ghost b2 = r.params();
    if let Some(month) = &q.month {
        r.push_sql(" AND DATE_FORMAT(date, '%Y-%m') = ?");
        r.bind(SqlParam::Text(month.clone()));
    }
    let ghost s3 = r.sql@;
    let ghost b3 = r.params();
    r.push_sql(" ORDER BY date DESC, id DESC LIMIT ?");
    let ghost s4 = r.sql@;
    r.push_sql(" OFFSET ?");
    r.bind(SqlParam::BigInt(limit));
    r.bind(SqlParam::BigInt(offset));
    proof {
        let f1 = filter_sql(q.person is Some, " AND person = ?"@);
        let f2 = filter_sql(q.category_id is Some, " AND category_id = ?"@);
        let f3 = filter_sql(q.month is Some, " AND DATE_FORMAT(date, '%Y-%m') = ?"@);
        assert(s1 =~= s0 + f1);
        assert(s2 =~= s1 + f2);
        assert(s3 =~= s2 + f3);
        lemma_count_append(s0, f1);
        lemma_count_append(s1, f2);
        lemma_count_append(s2, f3);
        lemma_count_append(s3, " ORDER BY date DESC, id DESC LIMIT ?"@);
        lemma_count_append(s4, " OFFSET ?"@);
        assert(b0 =~= Seq::<ParamView>::empty());
        assert(b1 =~= match q.person {
            Some(p) => seq![ParamView::Text(p@)],
            None => Seq::<ParamView>::empty(),
        });
        assert(b2 =~= b1 + match q.category_id {
            Some(c) => seq![ParamView::Int(c)],
            None => Seq::<ParamView>::empty(),
        });
        assert(b3 =~= b2 + match q.month {
            Some(m) => seq![ParamView::Text(m@)],
            None => Seq::<ParamView>::empty(),
        });
        assert(r.params() =~= list_params(*q));
    }
    r
}

/// Checks a new transaction: its amount is not zero, and the person it is
/// for is "Saya" or "Pasangan".
pub fn check_new_transaction(req: &CreateTxRequest, person: &str) -> (r: Result<(), AppError>)
    ensures
        req.amount_cents == 0 ==> (r matches Err(e) && e.is_bad_request("amount must be non-zero"@)),
        req.amount_cents != 0 && !(person@ == "Saya"@ || person@ == "Pasangan"@) ==> (r matches Err(e)
            && e.is_bad_request("person must be Saya or Pasangan"@)),
        req.amount_cents != 0 && (person@ == "Saya"@ || person@ == "Pasangan"@) ==> r is Ok,
{
    if req.amount_cents == 0 {
        return Err(AppError::bad_request("amount must be non-zero"));
    }
    if !same_text(person, "Saya") && !same_text(person, "Pasangan") {
        return Err(AppError::bad_request("person must be Saya or Pasangan"));
    }
    Ok(())
}

/// The fields a transaction is written with after an update.
#[derive(Debug)]
pub struct TxFields {
    pub person: String,
    pub amount_cents: i64,
    pub category_id: i32,
    pub note: String,
    pub date: chrono::NaiveDate,
}

/// A changed transaction: each field as requested, or as it was when the
/// request leaves it out. The person a transaction is for is stored beside
/// the record: `existing_person` is the stored one, `person` the requested one.
pub fn changed_transaction(
    existing: Transaction,
    existing_person: String,
    req: UpdateTxRequest,
    person: Option<String>,
) -> (r: TxFields)
    ensures
        r.person@ == match person {
            Some(p) => p@,
            None => existing_person@,
        },
        r.amount_cents == match req.amount_cents {
            Some(a) => a,
            None => existing.amount_cents,
        },
        r.category_id == match req.category_id {
            Some(c) => c,
            None => existing.category_id,
        },
        r.note@ == match req.note {
            Some(n) => n@,
            None => existing.note@,
        },
        r.date == match req.date {
            Some(d) => d,
            None => existing.date,
        },
{
    TxFields {
        person: match person {
            Some(p) => p,
            None => existing_person,
        },
        amount_cents: match req.amount_cents {
            Some(a) => a,
            None => existing.amount_cents,
        },
        category_id: match req.category_id {
            Some(c) => c,
            None => existing.category_id,
        },
        note: match req.note {
            Some(n) => n,
            None => existing.note,
        },
        date: match req.date {
            Some(d) => d,
            None => existing.date,
        },
    }
}

} // verus!
