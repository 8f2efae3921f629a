//! The Postgres / pgvector index's SQL: table names are checked before they
//! are spliced into statements, and each statement is built here; the
//! database connection belongs to the caller.

use vstd::prelude::*;

use crate::error::Error;
use crate::text::{chars_of, decimal, owned, push_decimal, push_str, str_eq};

verus! {

/// A character allowed in an SQL identifier: ASCII letter, digit or `_`.
pub open spec fn is_ident_char(c: char) -> bool {
    ('a' <= c && c <= 'z') || ('A' <= c && c <= 'Z') || ('0' <= c && c <= '9') || c == '_'
}

/// A character an SQL identifier may start with: ASCII letter or `_`.
pub open spec fn is_ident_start(c: char) -> bool {
    ('a' <= c && c <= 'z') || ('A' <= c && c <= 'Z') || c == '_'
}

/// A plain SQL identifier: non-empty, identifier characters only, not
/// starting with a digit.
pub open spec fn is_sql_ident(s: Seq<char>) -> bool {
    &&& s.len() > 0
    &&& forall|i: int| 0 <= i < s.len() ==> #[trigger] is_ident_char(s[i])
    &&& is_ident_start(s[0])
}

/// The error for a name that is not a plain identifier.
pub open spec fn is_bad_ident_error(e: Error, name: Seq<char>) -> bool {
    e matches Error::Database(m) && m@ == "invalid SQL identifier: "@ + name
}

/// Accepts `name` when it is a plain SQL identifier (so it can be spliced
/// into a statement), else a database error naming it.
pub fn validate_ident(name: &str) -> (r: Result<&str, Error>)
    ensures
        is_sql_ident(name@) ==> (r matches Ok(n) && n@ == name@),
        !is_sql_ident(name@) ==> (r matches Err(e) && is_bad_ident_error(e, name@)),
{
    let cs = chars_of(name);
    let mut ok = cs.len() > 0;
    let mut i: usize = 0;
    while ok && i < cs.len()
        invariant
            cs@ == name@,
            i <= cs.len(),
            ok ==> cs.len() > 0,
            ok ==> forall|j: int| 0 <= j < i ==> #[trigger] is_ident_char(cs@[j]),
            !ok ==> !is_sql_ident(name@),
        decreases cs.len() - i,
    {
        let c = cs[i];
        if !(('a' <= c && c <= 'z') || ('A' <= c && c <= 'Z') || ('0' <= c && c <= '9') || c == '_') {
            assert(!is_ident_char(name@[i as int]));
            ok = false;
        }
        i = i + 1;
    }
    if ok {
        let c = cs[0];
        if !(('a' <= c && c <= 'z') || ('A' <= c && c <= 'Z') || c == '_') {
            ok = false;
        }
    }
    if ok {
        Ok(name)
    } else {
        let mut m = owned("invalid SQL identifier: ");
        push_str(&mut m, name);
        Err(Error::Database(m))
    }
}

/// The statement that creates the extension, the table and its route index.
pub open spec fn schema_sql_text(t: Seq<char>, d: nat) -> Seq<char> {
    "CREATE EXTENSION IF NOT EXISTS vector;\n             CREATE TABLE IF NOT EXISTS "@ + t
        + " (\n               id BIGSERIAL PRIMARY KEY,\n               route TEXT NOT NULL,\n               utterance TEXT NOT NULL,\n               embedding vector("@
        + decimal(d)
        + "),\n               metadata JSONB NOT NULL DEFAULT '{}'::jsonb,\n               function_schemas JSONB\n             );\n             CREATE INDEX IF NOT EXISTS "@
        + t + "_route_idx ON "@ + t + "(route);"@
}

/// The schema statement for `table` with `dimensions`-wide embeddings; the
/// table name must be an identifier and the width between 1 and 16000.
pub fn schema_sql(table: &str, dimensions: usize) -> (r: Result<String, Error>)
    ensures
        !is_sql_ident(table@) ==> (r matches Err(e) && is_bad_ident_error(e, table@)),
        is_sql_ident(table@) && (dimensions == 0 || dimensions > 16000) ==> (r matches Err(
            Error::Database(m),
        ) && m@ == "invalid embedding dimensions"@),
        is_sql_ident(table@) && 0 < dimensions <= 16000 ==> (r matches Ok(q) && q@
            == schema_sql_text(table@, dimensions as nat)),
{
    let t = match validate_ident(table) {
        Ok(t) => t,
        Err(e) => {
            return Err(e);
        },
    };
    if dimensions == 0 || dimensions > 16000 {
        return Err(Error::Database(owned("invalid embedding dimensions")));
    }
    let mut q = owned("CREATE EXTENSION IF NOT EXISTS vector;\n             CREATE TABLE IF NOT EXISTS ");
    push_str(&mut q, t);
    push_str(&mut q, " (\n               id BIGSERIAL PRIMARY KEY,\n               route TEXT NOT NULL,\n               utterance TEXT NOT NULL,\n               embedding vector(");
    push_decimal(&mut q, dimensions);
    push_str(&mut q, "),\n               metadata JSONB NOT NULL DEFAULT '{}'::jsonb,\n               function_schemas JSONB\n             );\n             CREATE INDEX IF NOT EXISTS ");
    push_str(&mut q, t);
    push_str(&mut q, "_route_idx ON ");
    push_str(&mut q, t);
    push_str(&mut q, "(route);");
    Ok(q)
}

/// `prefix` + the table + `suffix`, when the table is an identifier.
fn around_table(prefix: &str, table: &str, suffix: &str) -> (r: Result<String, Error>)
    ensures
        !is_sql_ident(table@) ==> (r matches Err(e) && is_bad_ident_error(e, table@)),
        is_sql_ident(table@) ==> (r matches Ok(q) && q@ == prefix@ + table@ + suffix@),
{
    let t = match validate_ident(table) {
        Ok(t) => t,
        Err(e) => {
            return Err(e);
        },
    };
    let mut q = owned(prefix);
    push_str(&mut q, t);
    push_str(&mut q, suffix);
    Ok(q)
}

/// The insert statement (route, utterance, embedding, metadata, schemas).
pub fn insert_sql(table: &str) -> (r: Result<String, Error>)
    ensures
        !is_sql_ident(table@) ==> (r matches Err(e) && is_bad_ident_error(e, table@)),
        is_sql_ident(table@) ==> (r matches Ok(q) && q@ == "INSERT INTO "@ + table@
            + " (route, utterance, embedding, metadata, function_schemas)\n                 VALUES ($1, $2, $3::vector, $4::jsonb, $5::jsonb)"@),
{
    around_table(
        "INSERT INTO ",
        table,
        " (route, utterance, embedding, metadata, function_schemas)\n                 VALUES ($1, $2, $3::vector, $4::jsonb, $5::jsonb)",
    )
}

/// The nearest-neighbour query (cosine score, closest first, `$2` rows).
pub fn query_sql(table: &str) -> (r: Result<String, Error>)
    ensures
        !is_sql_ident(table@) ==> (r matches Err(e) && is_bad_ident_error(e, table@)),
        is_sql_ident(table@) ==> (r matches Ok(q) && q@
            == "SELECT route, 1 - (embedding <=> $1::vector) AS score\n             FROM "@ + table@
            + " ORDER BY embedding <=> $1::vector LIMIT $2"@),
{
    around_table(
        "SELECT route, 1 - (embedding <=> $1::vector) AS score\n             FROM ",
        table,
        " ORDER BY embedding <=> $1::vector LIMIT $2",
    )
}

/// The statement that deletes one route's rows.
pub fn delete_route_sql(table: &str) -> (r: Result<String, Error>)
    ensures
        !is_sql_ident(table@) ==> (r matches Err(e) && is_bad_ident_error(e, table@)),
        is_sql_ident(table@) ==> (r matches Ok(q) && q@ == "DELETE FROM "@ + table@
            + " WHERE route = $1"@),
{
    around_table("DELETE FROM ", table, " WHERE route = $1")
}

/// The statement that lists the stored utterances.
pub fn utterances_sql(table: &str) -> (r: Result<String, Error>)
    ensures
        !is_sql_ident(table@) ==> (r matches Err(e) && is_bad_ident_error(e, table@)),
        is_sql_ident(table@) ==> (r matches Ok(q) && q@ == "SELECT route, utterance FROM "@
            + table@),
{
    let r = around_table("SELECT route, utterance FROM ", table, "");
    proof {
        reveal_strlit("");
        assert("SELECT route, utterance FROM "@ + table@ + ""@ =~= "SELECT route, utterance FROM "@
            + table@);
    }
    r
}

/// The statement that empties the table.
pub fn clear_sql(table: &str) -> (r: Result<String, Error>)
    ensures
        !is_sql_ident(table@) ==> (r matches Err(e) && is_bad_ident_error(e, table@)),
        is_sql_ident(table@) ==> (r matches Ok(q) && q@ == "TRUNCATE "@ + table@),
{
    let r = around_table("TRUNCATE ", table, "");
    proof {
        reveal_strlit("");
        assert("TRUNCATE "@ + table@ + ""@ =~= "TRUNCATE "@ + table@);
    }
    r
}

/// `i64` saturating multiplication.
pub open spec fn saturate(x: int) -> int {
    if x > i64::MAX {
        i64::MAX as int
    } else if x < i64::MIN {
        i64::MIN as int
    } else {
        x
    }
}

/// How many rows to fetch: `top_k`, or twenty times as many (saturating, and
/// never fewer than `top_k`) when a route filter will drop some of them.
/// `top_k` is taken as an `i64`, as the statement's parameter is.
pub open spec fn fetch_count(top_k: usize, filtered: bool) -> int {
    let k = top_k as i64 as int;
    if filtered {
        let m = saturate(k * 20);
        if m >= k { m } else { k }
    } else {
        k
    }
}

/// The `LIMIT` parameter of the nearest-neighbour query.
pub fn fetch_k(top_k: usize, filtered: bool) -> (r: i64)
    ensures
        r == fetch_count(top_k, filtered),
{
    let k = top_k as i64;
    if filtered {
        let m: i64 = if k > i64::MAX / 20 {
            i64::MAX
        } else if k < i64::MIN / 20 {
            i64::MIN
        } else {
            k * 20
        };
        if m >= k { m } else { k }
    } else {
        k
    }
}

/// Whether a returned row's route passes the filter.
pub open spec fn row_passes(route: Seq<char>, filter: Option<Seq<Seq<char>>>) -> bool {
    match filter {
        None => true,
        Some(f) => f.contains(route),
    }
}

/// The positions of the returned rows to keep: those whose route passes the
/// filter, in order, stopping once `top_k` are kept (the first passing row is
/// always kept).
pub open spec fn kept_rows(routes: Seq<Seq<char>>, filter: Option<Seq<Seq<char>>>, top_k: nat) -> Seq<usize> {
    let passing = Seq::new(routes.len(), |i: int| i as usize).filter(
        |i: usize| row_passes(routes[i as int], filter),
    );
    let cap = if top_k == 0 { 1 } else { top_k };
    passing.take(if passing.len() < cap { passing.len() as int } else { cap as int })
}

fn route_in(filter: &[String], route: &str) -> (r: bool)
    ensures
        r == crate::route::string_views(filter@).contains(route@),
{
    let mut i: usize = 0;
    while i < filter.len()
        invariant
            i <= filter.len(),
            forall|j: int| 0 <= j < i ==> crate::route::string_views(filter@)[j] != route@,
        decreases filter.len() - i,
    {
        if str_eq(filter[i].as_str(), route) {
            assert(crate::route::string_views(filter@)[i as int] == route@);
            return true;
        }
        i = i + 1;
    }
    false
}

/// Selects the rows of a nearest-neighbour answer (given by their routes,
/// closest first) that the route filter lets through, at most `top_k` of
/// them (at least one when any passes).
pub fn select_rows(routes: &[String], route_filter: Option<&[String]>, top_k: usize) -> (r: Vec<usize>)
    ensures
        r@ == kept_rows(
            crate::route::string_views(routes@),
            match route_filter {
                Some(f) => Some(crate::route::string_views(f@)),
                None => None,
            },
            top_k as nat,
        ),
{
    let ghost rv = crate::route::string_views(routes@);
    let ghost fv = match route_filter {
        Some(f) => Some(crate::route::string_views(f@)),
        None => None::<Seq<Seq<char>>>,
    };
    let ghost pred = |i: usize| row_passes(rv[i as int], fv);
    let ghost all = Seq::new(rv.len(), |i: int| i as usize);
    let ghost cap: nat = if top_k == 0 { 1 } else { top_k as nat };
    let mut out: Vec<usize> = Vec::new();
    let mut i: usize = 0;
    assert(all.take(0).filter(pred) =~= Seq::<usize>::empty());
    while i < routes.len()
        invariant
            i <= routes.len(),
            rv == crate::route::string_views(routes@),
            fv == (match route_filter {
                Some(f) => Some(crate::route::string_views(f@)),
                None => None::<Seq<Seq<char>>>,
            }),
            pred == (|i: usize| row_passes(rv[i as int], fv)),
            all == Seq::new(rv.len(), |i: int| i as usize),
            cap == (if top_k == 0 { 1 } else { top_k as nat }),
            out@ == all.take(i as int).filter(pred),
            out@.len() < cap,
        decreases routes.len() - i,
    {
        proof {
            assert(all.take(i + 1) =~= all.take(i as int).push(i));
            all.take(i as int).lemma_filter_push(i, pred);
        }
        let keep = match route_filter {
            None => true,
            Some(f) => route_in(f, routes[i].as_str()),
        };
        if keep {
            out.push(i);
            if out.len() >= top_k {
                proof {
                    let passing = all.filter(pred);
                    assert(all =~= all.take(i + 1) + all.skip(i + 1));
                    Seq::<usize>::filter_distributes_over_add(
                        all.take(i + 1),
                        all.skip(i + 1),
                        pred,
                    );
                    assert(out@.len() == cap);
                    assert(passing.take(cap as int) =~= out@);
                }
                return out;
            }
        }
        i = i + 1;
    }
    assert(all.take(routes.len() as int) =~= all);
    out
}

} // verus!
