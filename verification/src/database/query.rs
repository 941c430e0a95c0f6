//! Paged `SELECT` queries whose rows are returned as JSON documents.

use vstd::prelude::*;
use crate::filter::views;
use crate::text::{parse_i64, parse_i64_spec, spec_to_lowercase, str_eq, to_lowercase};

verus! {

/// A paged query: the columns to select from `schema`, an optional
/// `WHERE` clause, ordering, and the page to return.
pub struct GetQuery {
    pub select: Vec<String>,
    pub schema: String,
    pub where_clause: Option<String>,
    pub page: Option<i64>,
    pub per_page: i64,
    pub orderby: Option<String>,
    pub order: Option<String>,
}

/// The text of one selected column followed by `, `, or by ` FROM ` when
/// it is the last one.
pub open spec fn column_piece(cols: Seq<Seq<char>>, i: int) -> Seq<char> {
    cols[i] + if i < cols.len() - 1 { ", "@ } else { " FROM "@ }
}

/// The pieces of the first `k` selected columns.
pub open spec fn column_pieces(cols: Seq<Seq<char>>, k: int) -> Seq<char>
    decreases k,
{
    if k <= 0 {
        Seq::empty()
    } else {
        column_pieces(cols, k - 1) + column_piece(cols, k - 1)
    }
}

/// The text of an optional part: `before` and the part, or nothing.
pub open spec fn optional_part(before: Seq<char>, part: Option<String>) -> Seq<char> {
    match part {
        Some(p) => before + p@,
        None => Seq::empty(),
    }
}

/// The SQL text of a paged query up to the placeholder of its limit.
pub open spec fn sql_head_spec(q: GetQuery) -> Seq<char> {
    "SELECT to_jsonb(a) as data FROM ( SELECT "@
        + column_pieces(views(q.select@), q.select@.len() as int)
        + q.schema@
        + optional_part(" WHERE "@, q.where_clause)
        + optional_part(" ORDER BY "@, q.orderby)
        + optional_part(" "@, q.order)
        + " LIMIT "@
}

/// The rows to skip before the requested page.
pub open spec fn offset_spec(page: i64, per_page: i64) -> int {
    (page - 1) * per_page
}

/// The page number a `page` parameter asks for: a positive `i64`.
pub open spec fn page_spec(page: Option<&str>) -> Option<i64> {
    match page {
        Some(p) => match parse_i64_spec(p@) {
            Some(v) => if v > 0 { Some(v) } else { None },
            None => None,
        },
        None => None,
    }
}

/// The count query of a paged query.
pub open spec fn count_query_spec(schema: Seq<char>, where_clause: Option<String>) -> Seq<char> {
    "SELECT COUNT(*) FROM ("@ + schema + ")"@
        + match where_clause {
            Some(w) => " WHERE ("@ + w@ + ")"@,
            None => Seq::empty(),
        }
        + " LIMIT 1"@
}

/// The number of pages `count` rows fill at `per_page` rows a page.
pub open spec fn page_count(count: int, per_page: int) -> int {
    (count + per_page - 1) / per_page
}

impl GetQuery {
    pub fn new(
        select: Vec<String>,
        schema: String,
        where_clause: Option<String>,
        page: Option<i64>,
        per_page: i64,
        orderby: Option<String>,
        order: Option<String>,
    ) -> (r: Self)
        ensures
            r == (GetQuery { select, schema, where_clause, page, per_page, orderby, order }),
    {
        GetQuery { select, schema, where_clause, page, per_page, orderby, order }
    }

    /// The sort direction an `order` parameter asks for: `desc` when its
    /// lowercase form is `desc`, otherwise the default order.
    pub fn get_order(order: Option<&str>) -> (r: Option<&'static str>)
        ensures
            r is Some <==> (order matches Some(o) && spec_to_lowercase(o@) == "desc"@),
            r matches Some(d) ==> d@ == "desc"@,
    {
        match order {
            Some(o) => {
                let lower = to_lowercase(o);
                if str_eq(lower.as_str(), "desc") {
                    Some("desc")
                } else {
                    None
                }
            },
            None => None,
        }
    }

    /// The page a `page` parameter asks for: its value when it is a
    /// positive integer.
    pub fn get_page(page: Option<&str>) -> (r: Option<i64>)
        ensures
            r == page_spec(page),
    {
        match page {
            Some(p) => match parse_i64(p) {
                Some(v) => if v > 0 { Some(v) } else { None },
                None => None,
            },
            None => None,
        }
    }

    /// The page size a `per_page` parameter asks for: its value when it is
    /// a positive integer, at most `max_per_page`.
    pub fn get_per_page(per_page: Option<&str>, max_per_page: i64) -> (r: Option<i64>)
        ensures
            r == match page_spec(per_page) {
                Some(p) => Some(if p > max_per_page { max_per_page } else { p }),
                None => None,
            },
    {
        match Self::get_page(per_page) {
            Some(p) => Some(if p > max_per_page { max_per_page } else { p }),
            None => None,
        }
    }

    /// The SQL text of the query up to its `LIMIT` value, which is bound
    /// as a parameter (followed by ` OFFSET ` and the offset when a page is
    /// given, and by `) as a`).
    pub fn sql_head(&self) -> (r: String)
        ensures
            r@ == sql_head_spec(*self),
    {
        let mut r = String::from_str("SELECT to_jsonb(a) as data FROM ( SELECT ");
        let ghost start = r@;
        let ghost cols = views(self.select@);
        let n = self.select.len();
        let mut i: usize = 0;
        while i < n
            invariant
                n == self.select@.len(),
                cols == views(self.select@),
                i <= n,
                r@ == start + column_pieces(cols, i as int),
            decreases n - i,
        {
            r.append(self.select[i].as_str());
            if i < n - 1 {
                r.append(", ");
            } else {
                r.append(" FROM ");
            }
            assert(cols[i as int] == self.select@[i as int]@);
            i = i + 1;
            assert(r@ =~= start + column_pieces(cols, i as int));
        }
        r.append(self.schema.as_str());
        if let Some(w) = &self.where_clause {
            r.append(" WHERE ");
            r.append(w.as_str());
        }
        if let Some(o) = &self.orderby {
            r.append(" ORDER BY ");
            r.append(o.as_str());
        }
        if let Some(o) = &self.order {
            r.append(" ");
            r.append(o.as_str());
        }
        r.append(" LIMIT ");
        assert(r@ =~= sql_head_spec(*self));
        r
    }

    /// The number of rows to skip for the requested page.
    pub fn offset(&self) -> (r: Option<i64>)
        requires
            self.page matches Some(p) ==> p > i64::MIN && i64::MIN <= offset_spec(p, self.per_page) <= i64::MAX,
        ensures
            r == match self.page {
                Some(p) => Some(offset_spec(p, self.per_page) as i64),
                None => None,
            },
    {
        match self.page {
            Some(p) => Some((p - 1) * self.per_page),
            None => None,
        }
    }

    /// The whole SQL text of the query as PostgreSQL receives it, with its
    /// parameters: the head, `$1` for the page size, ` OFFSET $2` for the
    /// offset when a page is given, and `) as a`.
    pub fn sql_text(&self) -> (r: (String, Vec<i64>))
        requires
            self.page matches Some(p) ==> p > i64::MIN && i64::MIN <= offset_spec(p, self.per_page) <= i64::MAX,
        ensures
            r.0@ == sql_head_spec(*self) + "$1"@ + (if self.page is Some { " OFFSET $2"@ } else { Seq::empty() }) + ") as a"@,
            r.1@ == seq![self.per_page] + match self.page {
                Some(p) => seq![offset_spec(p, self.per_page) as i64],
                None => Seq::empty(),
            },
    {
        let mut text = self.sql_head();
        let mut binds: Vec<i64> = Vec::new();
        text.append("$1");
        binds.push(self.per_page);
        match self.offset() {
            Some(o) => {
                text.append(" OFFSET $2");
                binds.push(o);
            },
            None => {},
        }
        text.append(") as a");
        proof {
            if self.page is Some {
                assert(binds@ =~= seq![self.per_page] + seq![offset_spec(self.page->0, self.per_page) as i64]);
            } else {
                assert(binds@ =~= seq![self.per_page] + Seq::<i64>::empty());
                assert(text@ =~= sql_head_spec(*self) + "$1"@ + Seq::<char>::empty() + ") as a"@);
            }
        }
        (text, binds)
    }

    /// The query that counts the rows of `schema` matching the clause.
    pub fn count_query(schema: &str, where_clause: &Option<String>) -> (r: String)
        ensures
            r@ == count_query_spec(schema@, *where_clause),
    {
        let mut r = String::from_str("SELECT COUNT(*) FROM (");
        r.append(schema);
        r.append(")");
        if let Some(w) = where_clause {
            r.append(" WHERE (");
            r.append(w.as_str());
            r.append(")");
        }
        r.append(" LIMIT 1");
        assert(r@ =~= count_query_spec(schema@, *where_clause));
        r
    }

    /// The total row count and the number of pages, or `None` when no row
    /// matches.
    pub fn pagination(count: i64, per_page: i64) -> (r: Option<(i64, i64)>)
        requires
            count >= 0,
            per_page > 0,
            count + per_page <= i64::MAX,
        ensures
            r matches Some((c, p)) ==> c == count && p == page_count(count as int, per_page as int),
            r == if count == 0 {
                None
            } else {
                Some((count, ((count + per_page - 1) / (per_page as int)) as i64))
            },
    {
        if count == 0 {
            None
        } else {
            Some((count, (count + per_page - 1) / per_page))
        }
    }
}

/// A page size taken from a request is positive and never above the
/// maximum it was clamped to.
pub proof fn law_per_page_within_bounds(per_page: Option<&str>, max_per_page: i64)
    requires
        max_per_page > 0,
    ensures
        page_spec(per_page) matches Some(p) ==> {
            let clamped = if p > max_per_page { max_per_page } else { p };
            1 <= clamped <= max_per_page
        },
{
}

/// The pages of a listing hold every row and no page is empty: with `p`
/// pages of `per_page` rows for `count` rows, `(p - 1) * per_page < count
/// <= p * per_page`.
pub proof fn law_pages_hold_every_row(count: int, per_page: int)
    requires
        count > 0,
        per_page > 0,
    ensures
        (page_count(count, per_page) - 1) * per_page < count <= page_count(count, per_page) * per_page,
{
    let p = page_count(count, per_page);
    let r = (count + per_page - 1) % per_page;
    vstd::arithmetic::div_mod::lemma_fundamental_div_mod(count + per_page - 1, per_page);
    assert(count + per_page - 1 == per_page * p + r);
    assert(0 <= r < per_page) by {
        vstd::arithmetic::div_mod::lemma_mod_bound(count + per_page - 1, per_page);
    }
    assert((p - 1) * per_page == per_page * p - per_page) by (nonlinear_arith);
    assert(p * per_page == per_page * p) by (nonlinear_arith);
}

} // verus!
