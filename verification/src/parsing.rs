//! The trusted bridge to the external SQL parser. Parsing is the outside
//! crate's job; everything here either declares its types, converts its
//! AST into the library's model, or names what a call returns.

use vstd::prelude::*;

verus! {

#[verifier::external_type_specification]
#[verifier::external_body]
pub struct ExStatement(sqlparser::ast::Statement);

#[verifier::external_type_specification]
#[verifier::external_body]
pub struct ExQuery(sqlparser::ast::Query);

#[verifier::external_type_specification]
#[verifier::external_body]
pub struct ExCte(sqlparser::ast::Cte);

#[verifier::external_type_specification]
#[verifier::external_body]
pub struct ExSelect(sqlparser::ast::Select);

#[verifier::external_type_specification]
#[verifier::external_body]
pub struct ExSelectItem(sqlparser::ast::SelectItem);

#[verifier::external_type_specification]
#[verifier::external_body]
pub struct ExTableWithJoins(sqlparser::ast::TableWithJoins);

#[verifier::external_type_specification]
#[verifier::external_body]
pub struct ExTableFactor(sqlparser::ast::TableFactor);

#[verifier::external_type_specification]
#[verifier::external_body]
pub struct ExObjectNamePart(sqlparser::ast::ObjectNamePart);

/// What `sqlparser::parser::Parser::parse_sql` returns, under the generic
/// dialect, as a function of the query text alone: the model of the parsed
/// statements, or nothing when the text does not parse.
pub uninterp spec fn parsed_sql(text: Seq<char>) -> Option<Seq<crate::ast::SqlStatement>>;

/// What `String::from_utf8_lossy` returns as a function of the bytes alone.
pub uninterp spec fn lossy_utf8(bytes: Seq<u8>) -> Seq<char>;

/// Relies on std's `String::from_utf8_lossy`: the decoding depends on the
/// bytes alone.
#[verifier::external_body]
pub(crate) fn decode_lossy(bytes: &[u8]) -> (r: String)
    ensures
        r@ == lossy_utf8(bytes@),
{
    String::from_utf8_lossy(bytes).to_string()
}

/// Relies on `sqlparser::parser::Parser::parse_sql` with `GenericDialect`:
/// the result depends on the text alone, and an error carries no statements.
#[verifier::external_body]
pub(crate) fn parse_sql_text(sql: &str) -> (r: Option<Vec<crate::ast::SqlStatement>>)
    ensures
        r is Some ==> parsed_sql(sql@) == Some(r->Some_0@),
        r is None ==> parsed_sql(sql@) is None,
{
    let dialect = sqlparser::dialect::GenericDialect {};
    match sqlparser::parser::Parser::parse_sql(&dialect, sql) {
        Ok(stmts) => Some(stmts.iter().map(convert_statement).collect()),
        Err(_) => None,
    }
}

/// Carries one part of `sqlparser::ast::ObjectName` over: the raw identifier
/// value, or the display form of a dialect-specific name function.
#[verifier::external_body]
fn convert_name_part(p: &sqlparser::ast::ObjectNamePart) -> String {
    match p {
        sqlparser::ast::ObjectNamePart::Identifier(i) => i.value.clone(),
        sqlparser::ast::ObjectNamePart::Function(f) => f.to_string(),
    }
}

/// Carries `sqlparser::ast::Statement` over: queries and `CREATE TABLE`
/// keep their data, every other kind collapses.
#[verifier::external_body]
fn convert_statement(s: &sqlparser::ast::Statement) -> crate::ast::SqlStatement {
    match s {
        sqlparser::ast::Statement::Query(q) => crate::ast::SqlStatement::Query(convert_query(q)),
        sqlparser::ast::Statement::CreateTable(ct) => crate::ast::SqlStatement::CreateTable {
            name: ct.name.0.iter().map(convert_name_part).collect(),
            columns: ct.columns.iter().map(|c| c.name.value.clone()).collect(),
        },
        _ => crate::ast::SqlStatement::Other,
    }
}

/// Carries `sqlparser::ast::Query` over: the CTE list (empty when there is
/// no `WITH` clause) and the body.
#[verifier::external_body]
fn convert_query(q: &sqlparser::ast::Query) -> crate::ast::SqlQuery {
    let ctes = match &q.with {
        Some(w) => w.cte_tables.iter().map(convert_cte).collect(),
        None => Vec::new(),
    };
    let body = match q.body.as_ref() {
        sqlparser::ast::SetExpr::Select(s) => crate::ast::QueryBody::Select(convert_select(s)),
        _ => crate::ast::QueryBody::Other,
    };
    crate::ast::SqlQuery { ctes, body }
}

/// Carries `sqlparser::ast::Cte` over: alias name, optional shortcut `FROM`
/// identifier, and the inner query.
#[verifier::external_body]
fn convert_cte(c: &sqlparser::ast::Cte) -> crate::ast::CteDef {
    crate::ast::CteDef {
        alias: c.alias.name.value.clone(),
        from: c.from.as_ref().map(|i| i.value.clone()),
        query: Box::new(convert_query(&c.query)),
    }
}

/// Carries `sqlparser::ast::Select` over: projection and `FROM` list.
#[verifier::external_body]
fn convert_select(s: &sqlparser::ast::Select) -> crate::ast::SelectBody {
    crate::ast::SelectBody {
        projection: s.projection.iter().map(convert_select_item).collect(),
        from: s.from.iter().map(convert_table_with_joins).collect(),
    }
}

/// Carries `sqlparser::ast::SelectItem` over: bare identifiers, dotted
/// identifiers, and aliases keep their names; the rest collapses.
#[verifier::external_body]
fn convert_select_item(i: &sqlparser::ast::SelectItem) -> crate::ast::ProjectionItem {
    match i {
        sqlparser::ast::SelectItem::UnnamedExpr(sqlparser::ast::Expr::Identifier(id)) =>
            crate::ast::ProjectionItem::UnnamedIdent(id.value.clone()),
        sqlparser::ast::SelectItem::UnnamedExpr(sqlparser::ast::Expr::CompoundIdentifier(ids)) =>
            crate::ast::ProjectionItem::UnnamedCompound(ids.iter().map(|x| x.value.clone()).collect()),
        sqlparser::ast::SelectItem::ExprWithAlias { alias, .. } =>
            crate::ast::ProjectionItem::WithAlias(alias.value.clone()),
        _ => crate::ast::ProjectionItem::Other,
    }
}

/// Carries `sqlparser::ast::TableWithJoins` over: the relation and, from
/// each join, only its relation.
#[verifier::external_body]
fn convert_table_with_joins(t: &sqlparser::ast::TableWithJoins) -> crate::ast::FromItem {
    crate::ast::FromItem {
        relation: convert_table_factor(&t.relation),
        joins: t.joins.iter().map(|j| convert_table_factor(&j.relation)).collect(),
    }
}

/// Carries `sqlparser::ast::TableFactor` over: named tables keep their
/// name parts and alias; the rest collapses.
#[verifier::external_body]
fn convert_table_factor(f: &sqlparser::ast::TableFactor) -> crate::ast::Relation {
    match f {
        sqlparser::ast::TableFactor::Table { name, alias, .. } => crate::ast::Relation::Table {
            name: name.0.iter().map(convert_name_part).collect(),
            alias: alias.as_ref().map(|a| a.name.value.clone()),
        },
        _ => crate::ast::Relation::Other,
    }
}

} // verus!
