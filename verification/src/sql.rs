//! Query text with `?` placeholders and the values bound to them, in order.
use vstd::prelude::*;
use crate::text::{count_char, lemma_count_concat, lemma_count_zero};

verus! {

/// A value bound to one `?` placeholder.
#[derive(Debug, PartialEq, Eq)]
pub enum SqlParam {
    Int(i32),
    BigInt(i64),
    Text(String),
}

/// A query: its text and the values for its placeholders, in order.
#[derive(Debug, PartialEq, Eq)]
pub struct SqlQuery {
    pub sql: String,
    pub binds: Vec<SqlParam>,
}

/// The view of a bound value: text is compared by its characters.
pub enum ParamView {
    Int(i32),
    BigInt(i64),
    Text(Seq<char>),
}

impl SqlParam {
    pub open spec fn view_of(self) -> ParamView {
        match self {
            SqlParam::Int(x) => ParamView::Int(x),
            SqlParam::BigInt(x) => ParamView::BigInt(x),
            SqlParam::Text(s) => ParamView::Text(s@),
        }
    }
}

impl SqlQuery {
    /// The bound values, viewed.
    pub open spec fn params(self) -> Seq<ParamView> {
        self.binds@.map_values(|p: SqlParam| p.view_of())
    }

    /// As many placeholders in the text as values bound.
    pub open spec fn well_bound(self) -> bool {
        count_char(self.sql@, '?') == self.binds@.len()
    }
}

impl SqlQuery {
    /// A query with the text `base` and nothing bound yet.
    pub fn new(base: &str) -> (q: SqlQuery)
        ensures
            q.sql@ == base@,
            q.binds@.len() == 0,
    {
        SqlQuery { sql: String::from_str(base), binds: Vec::new() }
    }

    /// Appends text to the query.
    pub fn push_sql(&mut self, text: &str)
        ensures
            final(self).sql@ == old(self).sql@ + text@,
            final(self).binds@ == old(self).binds@,
    {
        self.sql.append(text);
    }

    /// Binds the next placeholder's value.
    pub fn bind(&mut self, p: SqlParam)
        ensures
            final(self).sql@ == old(self).sql@,
            final(self).binds@ == old(self).binds@.push(p),
    {
        self.binds.push(p);
    }
}

/// A piece of query text with no placeholder.
pub open spec fn no_placeholder(s: Seq<char>) -> bool {
    forall|i: int| 0 <= i < s.len() ==> s[i] != '?'
}

/// A piece of query text whose only placeholder is its last character.
pub open spec fn one_placeholder(s: Seq<char>) -> bool {
    &&& s.len() > 0
    &&& s.last() == '?'
    &&& no_placeholder(s.drop_last())
}

pub proof fn lemma_no_placeholder(s: Seq<char>)
    requires
        no_placeholder(s),
    ensures
        count_char(s, '?') == 0,
{
    lemma_count_zero(s, '?');
}

pub proof fn lemma_one_placeholder(s: Seq<char>)
    requires
        one_placeholder(s),
    ensures
        count_char(s, '?') == 1,
{
    lemma_count_zero(s.drop_last(), '?');
}

/// Placeholders of a concatenation add up.
pub proof fn lemma_count_append(a: Seq<char>, b: Seq<char>)
    ensures
        count_char(a + b, '?') == count_char(a, '?') + count_char(b, '?'),
{
    lemma_count_concat(a, b, '?');
}

} // verus!
