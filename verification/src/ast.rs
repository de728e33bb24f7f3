//! The model of a parsed SQL statement: exactly the parts that schema
//! loading and validation read. Identifiers are plain strings; everything
//! the validator ignores is collapsed into an `Other` variant.

use vstd::prelude::*;

verus! {

/// A top-level SQL statement.
pub enum SqlStatement {
    /// A `SELECT` query, possibly with a `WITH` clause.
    Query(SqlQuery),
    /// A `CREATE TABLE`: the possibly-qualified table name and the declared
    /// column names, in order.
    CreateTable { name: Vec<String>, columns: Vec<String> },
    /// Any other statement kind; produces no schema entry and no diagnostic.
    Other,
}

/// A query: its common-table expressions (empty when there is no `WITH`
/// clause) and its body.
pub struct SqlQuery {
    pub ctes: Vec<CteDef>,
    pub body: QueryBody,
}

/// A query body; only plain `SELECT` bodies are examined.
pub enum QueryBody {
    Select(SelectBody),
    Other,
}

/// A `WITH alias AS (query)` binding, with the optional shortcut `FROM`
/// identifier some dialects allow.
pub struct CteDef {
    pub alias: String,
    pub from: Option<String>,
    pub query: Box<SqlQuery>,
}

/// A `SELECT` body: its projection items and its `FROM` list.
pub struct SelectBody {
    pub projection: Vec<ProjectionItem>,
    pub from: Vec<FromItem>,
}

/// One projection item.
pub enum ProjectionItem {
    /// A bare column name: `SELECT c`.
    UnnamedIdent(String),
    /// A dotted name: `SELECT a.c` (any number of parts).
    UnnamedCompound(Vec<String>),
    /// An aliased expression: `SELECT e AS a`; only the alias is kept.
    WithAlias(String),
    /// Wildcards and other expression shapes; never checked.
    Other,
}

/// One `FROM` item: the leading relation and the relations joined onto it.
pub struct FromItem {
    pub relation: Relation,
    pub joins: Vec<Relation>,
}

/// A table reference in `FROM` or `JOIN`.
pub enum Relation {
    /// A named table: the dotted name parts and the optional alias.
    Table { name: Vec<String>, alias: Option<String> },
    /// Subqueries, derived tables, and the rest; never checked.
    Other,
}

/// The view of the last part of a dotted name; the table key used
/// throughout ("last identifier wins").
pub open spec fn last_name(parts: Seq<String>) -> Seq<char>
    recommends
        parts.len() > 0,
{
    parts[parts.len() - 1]@
}

/// The dot-joined view of a qualified name, as it appeared in the query.
pub open spec fn dotted_name(parts: Seq<String>) -> Seq<char>
    decreases parts.len(),
{
    if parts.len() == 0 {
        Seq::empty()
    } else if parts.len() == 1 {
        parts[0]@
    } else {
        dotted_name(parts.drop_last()) + "."@ + parts.last()@
    }
}

/// Join name parts with dots.
pub fn join_dotted(parts: &Vec<String>) -> (r: String)
    ensures
        r@ == dotted_name(parts@),
{
    let mut out = String::new();
    let n = parts.len();
    proof {
        assert(parts@.subrange(0, 0) =~= Seq::<String>::empty());
        assert(out@ =~= dotted_name(parts@.subrange(0, 0)));
    }
    let mut i: usize = 0;
    while i < n
        invariant
            n == parts@.len(),
            i <= n,
            out@ == dotted_name(parts@.subrange(0, i as int)),
        decreases n - i,
    {
        if i > 0 {
            out.append(".");
        }
        out.append(parts[i].as_str());
        i = i + 1;
        proof {
            let sub = parts@.subrange(0, i as int);
            assert(sub.drop_last() =~= parts@.subrange(0, i - 1));
            assert(sub.last() == parts@[i - 1]);
            if i == 1 {
                assert(out@ =~= dotted_name(sub));
            } else {
                assert(out@ =~= dotted_name(sub.drop_last()) + "."@ + sub.last()@);
            }
        }
    }
    proof {
        assert(parts@.subrange(0, n as int) =~= parts@);
    }
    out
}

} // verus!
