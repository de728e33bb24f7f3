//! Validation of a `SELECT` body: table existence for every `FROM` and
//! `JOIN` relation, then column existence for every checkable projection
//! item, with the conservative alias-matching rule.

use vstd::prelude::*;

use crate::ast::{last_name, FromItem, ProjectionItem, Relation, SelectBody};
use crate::schema::{contains_name, TablesAndColumns};
use crate::text::{str_eq, string_views};
use crate::validation::asserts::{is_relation_in_schema, relation_table_error};
use crate::validation::clauses::ClauseValidation;
use crate::validation::{
    column_error, column_error_many, column_not_found_any_msg, column_not_found_msg, table_error,
};

verus! {

/// The column reference a projection item makes, if it is checkable: the
/// column name, and the table qualifier when the item is `a.c`.
pub open spec fn item_col(item: ProjectionItem) -> Option<(Seq<char>, Option<Seq<char>>)> {
    match item {
        ProjectionItem::UnnamedIdent(name) => Some((name@, None)),
        ProjectionItem::UnnamedCompound(ids) => if ids@.len() == 2 {
            Some((ids@[1]@, Some(ids@[0]@)))
        } else {
            None
        },
        _ => None,
    }
}

/// The conservative matching rule: an unqualified column is matched only
/// against an unaliased table, a qualified one only against a table whose
/// alias equals the qualifier.
pub open spec fn match_attempted(alias: Option<String>, qualifier: Option<Seq<char>>) -> bool {
    match alias {
        Some(a) => match qualifier {
            Some(q) => a@ == q,
            None => false,
        },
        None => qualifier is None,
    }
}

/// The table name yielded when `item`'s column is matched against `rel`
/// and missed: a match is attempted, the table is in the schema, and its
/// column set lacks the column.
pub open spec fn relation_miss(
    item: ProjectionItem,
    rel: Relation,
    schema: Map<Seq<char>, Set<Seq<char>>>,
) -> Option<Seq<char>> {
    match item_col(item) {
        Some(cc) => match rel {
            Relation::Table { name, alias } => if name@.len() > 0 && match_attempted(alias, cc.1)
                && schema.contains_key(last_name(name@)) && !schema[last_name(name@)].contains(
                cc.0,
            ) {
                Some(last_name(name@))
            } else {
                None
            },
            Relation::Other => None,
        },
        None => None,
    }
}

/// Zero or one names.
pub open spec fn opt_name(o: Option<Seq<char>>) -> Seq<Seq<char>> {
    match o {
        Some(t) => seq![t],
        None => Seq::empty(),
    }
}

/// The tables missed among the joined relations from index `j` on.
pub open spec fn misses_joins(
    item: ProjectionItem,
    joins: Seq<Relation>,
    schema: Map<Seq<char>, Set<Seq<char>>>,
    j: int,
) -> Seq<Seq<char>>
    decreases joins.len() - j,
{
    if j < 0 || j >= joins.len() {
        Seq::empty()
    } else {
        opt_name(relation_miss(item, joins[j], schema)) + misses_joins(item, joins, schema, j + 1)
    }
}

/// The tables missed for one item over the `FROM` items from index `i`
/// on, each relation followed by its joins, in order.
pub open spec fn misses_from(
    item: ProjectionItem,
    from: Seq<FromItem>,
    schema: Map<Seq<char>, Set<Seq<char>>>,
    i: int,
) -> Seq<Seq<char>>
    decreases from.len() - i,
{
    if i < 0 || i >= from.len() {
        Seq::empty()
    } else {
        opt_name(relation_miss(item, from[i].relation, schema)) + misses_joins(
            item,
            from[i].joins@,
            schema,
            0,
        ) + misses_from(item, from, schema, i + 1)
    }
}

/// The diagnostic for one projection item: nothing when no table was
/// missed, the single-table message when exactly one was, the joined
/// message otherwise.
pub open spec fn item_error(
    item: ProjectionItem,
    from: Seq<FromItem>,
    schema: Map<Seq<char>, Set<Seq<char>>>,
) -> Seq<Seq<char>> {
    let ms = misses_from(item, from, schema, 0);
    if ms.len() == 0 {
        Seq::empty()
    } else {
        match item_col(item) {
            Some(cc) => if ms.len() == 1 {
                seq![column_not_found_msg(cc.0, ms[0])]
            } else {
                seq![column_not_found_any_msg(cc.0, ms)]
            },
            None => Seq::empty(),
        }
    }
}

/// The column diagnostics of the projection items from index `k` on.
pub open spec fn projection_errors(
    proj: Seq<ProjectionItem>,
    from: Seq<FromItem>,
    schema: Map<Seq<char>, Set<Seq<char>>>,
    k: int,
) -> Seq<Seq<char>>
    decreases proj.len() - k,
{
    if k < 0 || k >= proj.len() {
        Seq::empty()
    } else {
        item_error(proj[k], from, schema) + projection_errors(proj, from, schema, k + 1)
    }
}

/// The table diagnostics of the joined relations from index `j` on.
pub open spec fn join_table_errors(
    joins: Seq<Relation>,
    schema: Map<Seq<char>, Set<Seq<char>>>,
    j: int,
) -> Seq<Seq<char>>
    decreases joins.len() - j,
{
    if j < 0 || j >= joins.len() {
        Seq::empty()
    } else {
        relation_table_error(joins[j], schema) + join_table_errors(joins, schema, j + 1)
    }
}

/// The table diagnostics of the `FROM` items from index `i` on, each
/// relation followed by its joins.
pub open spec fn from_table_errors(
    from: Seq<FromItem>,
    schema: Map<Seq<char>, Set<Seq<char>>>,
    i: int,
) -> Seq<Seq<char>>
    decreases from.len() - i,
{
    if i < 0 || i >= from.len() {
        Seq::empty()
    } else {
        relation_table_error(from[i].relation, schema) + join_table_errors(
            from[i].joins@,
            schema,
            0,
        ) + from_table_errors(from, schema, i + 1)
    }
}

/// All diagnostics of a `SELECT` body: table errors, then column errors.
pub open spec fn spec_select_errors(
    sel: SelectBody,
    schema: Map<Seq<char>, Set<Seq<char>>>,
) -> Seq<Seq<char>> {
    from_table_errors(sel.from@, schema, 0) + projection_errors(
        sel.projection@,
        sel.from@,
        schema,
        0,
    )
}

/// The column name and table name when `item` is matched against `table`
/// and missed.
fn could_select_item_be_in_relation(
    item: &ProjectionItem,
    table: &Relation,
    schema: &TablesAndColumns,
) -> (r: Option<(String, String)>)
    ensures
        match r {
            Some(ct) => relation_miss(*item, *table, schema@) == Some(ct.1@) && item_col(*item)
                is Some && ct.0@ == item_col(*item)->Some_0.0,
            None => relation_miss(*item, *table, schema@) is None,
        },
{
    let mut col_name: Option<&String> = None;
    let mut col_table_alias: Option<&String> = None;
    match item {
        ProjectionItem::UnnamedIdent(identifier) => {
            col_name = Some(identifier);
        },
        ProjectionItem::UnnamedCompound(identifier) => {
            if identifier.len() == 2 {
                col_table_alias = Some(&identifier[0]);
                col_name = Some(&identifier[1]);
            }
        },
        _ => {},
    }
    match table {
        Relation::Table { name, alias } => {
            if name.len() > 0 {
                let table_name = &name[name.len() - 1];
                let attempted: bool = match (alias, &col_table_alias) {
                    (None, None) => true,
                    (Some(a), Some(ca)) => str_eq(a.as_str(), ca.as_str()),
                    _ => false,
                };
                if attempted {
                    match schema.get_columns(table_name.as_str()) {
                        Some(columns) => match col_name {
                            Some(c) => {
                                if !contains_name(columns, c.as_str()) {
                                    return Some((c.clone(), table_name.clone()));
                                }
                            },
                            None => {},
                        },
                        None => {},
                    }
                }
            }
        },
        Relation::Other => {},
    }
    None
}

/// The first missed column name and every table missed, in traversal
/// order, for one projection item; nothing when no table was missed.
fn is_select_item_in_relations(
    item: &ProjectionItem,
    tables: &Vec<FromItem>,
    schema: &TablesAndColumns,
) -> (r: Option<(String, Vec<String>)>)
    ensures
        match r {
            Some(inm) => string_views(inm.1@) == misses_from(*item, tables@, schema@, 0)
                && inm.1@.len() > 0 && item_col(*item) is Some && inm.0@ == item_col(
                *item,
            )->Some_0.0,
            None => misses_from(*item, tables@, schema@, 0) == Seq::<Seq<char>>::empty(),
        },
{
    let mut tables_searched_where_not_found: Vec<String> = Vec::new();
    let mut item_name: Option<String> = None;
    let n = tables.len();
    proof {
        assert(string_views(tables_searched_where_not_found@) + misses_from(
            *item,
            tables@,
            schema@,
            0,
        ) =~= misses_from(*item, tables@, schema@, 0));
    }
    let mut i: usize = 0;
    while i < n
        invariant
            n == tables@.len(),
            i <= n,
            string_views(tables_searched_where_not_found@) + misses_from(
                *item,
                tables@,
                schema@,
                i as int,
            ) == misses_from(*item, tables@, schema@, 0),
            tables_searched_where_not_found@.len() > 0 <==> item_name is Some,
            item_name is Some ==> item_col(*item) is Some && item_name->Some_0@ == item_col(
                *item,
            )->Some_0.0,
        decreases n - i,
    {
        let ghost prev = string_views(tables_searched_where_not_found@);
        let relation = &tables[i].relation;
        let result = could_select_item_be_in_relation(item, relation, schema);
        match result {
            Some(ct) => {
                let (col_found, table_found) = ct;
                proof {
                    assert(string_views(
                        tables_searched_where_not_found@.push(table_found),
                    ) =~= prev + seq![table_found@]);
                }
                tables_searched_where_not_found.push(table_found);
                if item_name.is_none() {
                    item_name = Some(col_found);
                }
            },
            None => {},
        }
        let ghost afterrel = string_views(tables_searched_where_not_found@);
        proof {
            assert(afterrel =~= prev + opt_name(
                relation_miss(*item, tables@[i as int].relation, schema@),
            ));
        }
        let joins = &tables[i].joins;
        let m = joins.len();
        let mut j: usize = 0;
        while j < m
            invariant
                n == tables@.len(),
                i < n,
                m == tables@[i as int].joins@.len(),
                joins == &tables@[i as int].joins,
                j <= m,
                string_views(tables_searched_where_not_found@) + misses_joins(
                    *item,
                    tables@[i as int].joins@,
                    schema@,
                    j as int,
                ) == afterrel + misses_joins(*item, tables@[i as int].joins@, schema@, 0),
                tables_searched_where_not_found@.len() > 0 <==> item_name is Some,
                item_name is Some ==> item_col(*item) is Some && item_name->Some_0@ == item_col(
                    *item,
                )->Some_0.0,
            decreases m - j,
        {
            let ghost prevj = string_views(tables_searched_where_not_found@);
            let join_relation = &joins[j];
            let result = could_select_item_be_in_relation(item, join_relation, schema);
            match result {
                Some(ct) => {
                    let (col_found, table_found) = ct;
                    proof {
                        assert(string_views(
                            tables_searched_where_not_found@.push(table_found),
                        ) =~= prevj + seq![table_found@]);
                    }
                    tables_searched_where_not_found.push(table_found);
                    if item_name.is_none() {
                        item_name = Some(col_found);
                    }
                },
                None => {},
            }
            j = j + 1;
            proof {
                assert(string_views(tables_searched_where_not_found@) + misses_joins(
                    *item,
                    tables@[i as int].joins@,
                    schema@,
                    j as int,
                ) =~= prevj + (opt_name(
                    relation_miss(*item, tables@[i as int].joins@[j - 1], schema@),
                ) + misses_joins(*item, tables@[i as int].joins@, schema@, j as int)));
            }
        }
        i = i + 1;
        proof {
            assert(misses_joins(*item, tables@[i - 1].joins@, schema@, m as int)
                =~= Seq::<Seq<char>>::empty());
            assert(string_views(tables_searched_where_not_found@) =~= afterrel + misses_joins(
                *item,
                tables@[i - 1].joins@,
                schema@,
                0,
            ));
            assert(string_views(tables_searched_where_not_found@) + misses_from(
                *item,
                tables@,
                schema@,
                i as int,
            ) =~= prev + (opt_name(relation_miss(*item, tables@[i - 1].relation, schema@))
                + misses_joins(*item, tables@[i - 1].joins@, schema@, 0) + misses_from(
                *item,
                tables@,
                schema@,
                i as int,
            )));
        }
    }
    proof {
        assert(string_views(tables_searched_where_not_found@) + misses_from(
            *item,
            tables@,
            schema@,
            n as int,
        ) =~= string_views(tables_searched_where_not_found@));
    }
    if tables_searched_where_not_found.len() == 0 {
        return None;
    }
    match item_name {
        Some(found_name) => Some((found_name, tables_searched_where_not_found)),
        None => {
            proof {
                assert(false);
            }
            None
        },
    }
}

/// Whether a relation's table name, if it has one, is a key of the schema.
pub open spec fn relation_known(rel: Relation, schema: Map<Seq<char>, Set<Seq<char>>>) -> bool {
    match rel {
        Relation::Table { name, alias: _ } => name@.len() > 0 ==> schema.contains_key(
            last_name(name@),
        ),
        Relation::Other => true,
    }
}

/// Whether every relation of a `FROM` item is known to the schema.
pub open spec fn from_item_known(fi: FromItem, schema: Map<Seq<char>, Set<Seq<char>>>) -> bool {
    &&& relation_known(fi.relation, schema)
    &&& forall|j: int|
        0 <= j < fi.joins@.len() ==> relation_known(#[trigger] fi.joins@[j], schema)
}

/// Whether one projection item misses no relation of a `FROM` item.
pub open spec fn item_resolves(
    item: ProjectionItem,
    fi: FromItem,
    schema: Map<Seq<char>, Set<Seq<char>>>,
) -> bool {
    &&& relation_miss(item, fi.relation, schema) is None
    &&& forall|j: int|
        0 <= j < fi.joins@.len() ==> relation_miss(item, #[trigger] fi.joins@[j], schema) is None
}

/// Whether every table reference of a `SELECT` body is a schema key and
/// every attempted column match finds its column.
pub open spec fn select_resolves(sel: SelectBody, schema: Map<Seq<char>, Set<Seq<char>>>) -> bool {
    &&& forall|i: int|
        0 <= i < sel.from@.len() ==> from_item_known(#[trigger] sel.from@[i], schema)
    &&& forall|k: int, i: int|
        0 <= k < sel.projection@.len() && 0 <= i < sel.from@.len() ==> item_resolves(
            #[trigger] sel.projection@[k],
            #[trigger] sel.from@[i],
            schema,
        )
}

proof fn lemma_join_table_errors_empty(
    joins: Seq<Relation>,
    schema: Map<Seq<char>, Set<Seq<char>>>,
    j: int,
)
    requires
        forall|l: int| 0 <= l < joins.len() ==> relation_known(#[trigger] joins[l], schema),
    ensures
        join_table_errors(joins, schema, j) == Seq::<Seq<char>>::empty(),
    decreases joins.len() - j,
{
    if 0 <= j < joins.len() {
        lemma_join_table_errors_empty(joins, schema, j + 1);
        assert(join_table_errors(joins, schema, j) =~= Seq::<Seq<char>>::empty());
    } else {
        assert(join_table_errors(joins, schema, j) =~= Seq::<Seq<char>>::empty());
    }
}

proof fn lemma_from_table_errors_empty(
    from: Seq<FromItem>,
    schema: Map<Seq<char>, Set<Seq<char>>>,
    i: int,
)
    requires
        forall|l: int| 0 <= l < from.len() ==> from_item_known(#[trigger] from[l], schema),
    ensures
        from_table_errors(from, schema, i) == Seq::<Seq<char>>::empty(),
    decreases from.len() - i,
{
    if 0 <= i < from.len() {
        lemma_join_table_errors_empty(from[i].joins@, schema, 0);
        lemma_from_table_errors_empty(from, schema, i + 1);
        assert(from_table_errors(from, schema, i) =~= Seq::<Seq<char>>::empty());
    } else {
        assert(from_table_errors(from, schema, i) =~= Seq::<Seq<char>>::empty());
    }
}

proof fn lemma_misses_joins_empty(
    item: ProjectionItem,
    joins: Seq<Relation>,
    schema: Map<Seq<char>, Set<Seq<char>>>,
    j: int,
)
    requires
        forall|l: int|
            0 <= l < joins.len() ==> relation_miss(item, #[trigger] joins[l], schema) is None,
    ensures
        misses_joins(item, joins, schema, j) == Seq::<Seq<char>>::empty(),
    decreases joins.len() - j,
{
    if 0 <= j < joins.len() {
        lemma_misses_joins_empty(item, joins, schema, j + 1);
        assert(misses_joins(item, joins, schema, j) =~= Seq::<Seq<char>>::empty());
    } else {
        assert(misses_joins(item, joins, schema, j) =~= Seq::<Seq<char>>::empty());
    }
}

proof fn lemma_misses_from_empty(
    item: ProjectionItem,
    from: Seq<FromItem>,
    schema: Map<Seq<char>, Set<Seq<char>>>,
    i: int,
)
    requires
        forall|l: int|
            0 <= l < from.len() ==> item_resolves(item, #[trigger] from[l], schema),
    ensures
        misses_from(item, from, schema, i) == Seq::<Seq<char>>::empty(),
    decreases from.len() - i,
{
    if 0 <= i < from.len() {
        lemma_misses_joins_empty(item, from[i].joins@, schema, 0);
        lemma_misses_from_empty(item, from, schema, i + 1);
        assert(misses_from(item, from, schema, i) =~= Seq::<Seq<char>>::empty());
    } else {
        assert(misses_from(item, from, schema, i) =~= Seq::<Seq<char>>::empty());
    }
}

proof fn lemma_projection_errors_empty(
    proj: Seq<ProjectionItem>,
    from: Seq<FromItem>,
    schema: Map<Seq<char>, Set<Seq<char>>>,
    k: int,
)
    requires
        forall|p: int, i: int|
            0 <= p < proj.len() && 0 <= i < from.len() ==> item_resolves(
                #[trigger] proj[p],
                #[trigger] from[i],
                schema,
            ),
    ensures
        projection_errors(proj, from, schema, k) == Seq::<Seq<char>>::empty(),
    decreases proj.len() - k,
{
    if 0 <= k < proj.len() {
        assert forall|l: int|
            0 <= l < from.len() implies item_resolves(proj[k], #[trigger] from[l], schema) by {}
        lemma_misses_from_empty(proj[k], from, schema, 0);
        lemma_projection_errors_empty(proj, from, schema, k + 1);
        assert(projection_errors(proj, from, schema, k) =~= Seq::<Seq<char>>::empty());
    } else {
        assert(projection_errors(proj, from, schema, k) =~= Seq::<Seq<char>>::empty());
    }
}

/// A `SELECT` body whose every table reference is known and whose every
/// attempted column match resolves yields no diagnostics.
pub proof fn lemma_select_resolves_no_errors(
    sel: SelectBody,
    schema: Map<Seq<char>, Set<Seq<char>>>,
)
    requires
        select_resolves(sel, schema),
    ensures
        spec_select_errors(sel, schema) == Seq::<Seq<char>>::empty(),
{
    lemma_from_table_errors_empty(sel.from@, schema, 0);
    lemma_projection_errors_empty(sel.projection@, sel.from@, schema, 0);
    assert(spec_select_errors(sel, schema) =~= Seq::<Seq<char>>::empty());
}

impl ClauseValidation for SelectBody {
    open spec fn spec_validate(&self, schema: Map<Seq<char>, Set<Seq<char>>>) -> Seq<Seq<char>> {
        spec_select_errors(*self, schema)
    }

    fn validate(&self, schema: &TablesAndColumns) -> (r: Vec<String>) {
        let select = self;
        let mut errors: Vec<String> = Vec::new();
        let n = select.from.len();
        proof {
            assert(string_views(errors@) + from_table_errors(select.from@, schema@, 0)
                =~= from_table_errors(select.from@, schema@, 0));
        }
        let mut i: usize = 0;
        while i < n
            invariant
                n == select.from@.len(),
                i <= n,
                string_views(errors@) + from_table_errors(select.from@, schema@, i as int)
                    == from_table_errors(select.from@, schema@, 0),
            decreases n - i,
        {
            let ghost prev = string_views(errors@);
            let item = &select.from[i];
            let relation_name = is_relation_in_schema(&item.relation, schema);
            match relation_name {
                Some(full) => {
                    let msg = table_error(full.as_str());
                    errors.push(msg);
                },
                None => {},
            }
            let ghost afterrel = string_views(errors@);
            proof {
                assert(afterrel =~= prev + relation_table_error(
                    select.from@[i as int].relation,
                    schema@,
                ));
            }
            let m = item.joins.len();
            let mut j: usize = 0;
            while j < m
                invariant
                    n == select.from@.len(),
                    i < n,
                    m == select.from@[i as int].joins@.len(),
                    item == &select.from@[i as int],
                    j <= m,
                    string_views(errors@) + join_table_errors(
                        select.from@[i as int].joins@,
                        schema@,
                        j as int,
                    ) == afterrel + join_table_errors(select.from@[i as int].joins@, schema@, 0),
                decreases m - j,
            {
                let ghost prevj = string_views(errors@);
                let join_name = is_relation_in_schema(&item.joins[j], schema);
                match join_name {
                    Some(full) => {
                        let msg = table_error(full.as_str());
                        errors.push(msg);
                    },
                    None => {},
                }
                j = j + 1;
                proof {
                    assert(string_views(errors@) + join_table_errors(
                        select.from@[i as int].joins@,
                        schema@,
                        j as int,
                    ) =~= prevj + (relation_table_error(
                        select.from@[i as int].joins@[j - 1],
                        schema@,
                    ) + join_table_errors(select.from@[i as int].joins@, schema@, j as int)));
                }
            }
            i = i + 1;
            proof {
                assert(join_table_errors(select.from@[i - 1].joins@, schema@, m as int)
                    =~= Seq::<Seq<char>>::empty());
                assert(string_views(errors@) =~= afterrel + join_table_errors(
                    select.from@[i - 1].joins@,
                    schema@,
                    0,
                ));
                assert(string_views(errors@) + from_table_errors(select.from@, schema@, i as int)
                    =~= prev + (relation_table_error(select.from@[i - 1].relation, schema@)
                    + join_table_errors(select.from@[i - 1].joins@, schema@, 0) + from_table_errors(
                    select.from@,
                    schema@,
                    i as int,
                )));
            }
        }
        proof {
            assert(string_views(errors@) + from_table_errors(select.from@, schema@, n as int)
                =~= string_views(errors@));
        }
        let ghost tablepart = string_views(errors@);
        let p = select.projection.len();
        proof {
            assert(string_views(errors@) + projection_errors(
                select.projection@,
                select.from@,
                schema@,
                0,
            ) =~= tablepart + projection_errors(select.projection@, select.from@, schema@, 0));
        }
        let mut k: usize = 0;
        while k < p
            invariant
                p == select.projection@.len(),
                k <= p,
                string_views(errors@) + projection_errors(
                    select.projection@,
                    select.from@,
                    schema@,
                    k as int,
                ) == tablepart + projection_errors(select.projection@, select.from@, schema@, 0),
            decreases p - k,
        {
            let ghost prev = string_views(errors@);
            let item = &select.projection[k];
            let result = is_select_item_in_relations(item, &select.from, schema);
            match result {
                Some(inm) => {
                    let (item_name, relations_not_found_in) = inm;
                    if relations_not_found_in.len() == 1 {
                        let msg = column_error(
                            item_name.as_str(),
                            relations_not_found_in[0].as_str(),
                        );
                        errors.push(msg);
                        proof {
                            assert(string_views(relations_not_found_in@)[0]
                                == relations_not_found_in@[0]@);
                            assert(string_views(errors@) =~= prev + item_error(
                                select.projection@[k as int],
                                select.from@,
                                schema@,
                            ));
                        }
                    } else {
                        let msg = column_error_many(item_name.as_str(), &relations_not_found_in);
                        errors.push(msg);
                        proof {
                            assert(string_views(errors@) =~= prev + item_error(
                                select.projection@[k as int],
                                select.from@,
                                schema@,
                            ));
                        }
                    }
                },
                None => {
                    proof {
                        assert(item_error(select.projection@[k as int], select.from@, schema@)
                            =~= Seq::<Seq<char>>::empty());
                    }
                },
            }
            k = k + 1;
            proof {
                assert(string_views(errors@) + projection_errors(
                    select.projection@,
                    select.from@,
                    schema@,
                    k as int,
                ) =~= prev + (item_error(select.projection@[k - 1], select.from@, schema@)
                    + projection_errors(select.projection@, select.from@, schema@, k as int)));
            }
        }
        proof {
            assert(string_views(errors@) + projection_errors(
                select.projection@,
                select.from@,
                schema@,
                p as int,
            ) =~= string_views(errors@));
            assert(string_views(errors@) =~= spec_select_errors(*select, schema@));
        }
        errors
    }
}

} // verus!
