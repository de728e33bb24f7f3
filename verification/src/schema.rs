//! The schema model: a mapping from table name to its set of column names,
//! loaded once from schema DDL and extended per query with CTE aliases.

pub mod sql;

use vstd::prelude::*;

use crate::ast::{last_name, SqlStatement};
use crate::text::{str_eq, string_views};

verus! {

/// The set holding the views of the given names.
pub open spec fn name_set(names: Seq<Seq<char>>) -> Set<Seq<char>> {
    Set::new(|c: Seq<char>| names.contains(c))
}

/// One table with its declared columns.
pub struct TableEntry {
    pub name: String,
    pub columns: Vec<String>,
}

/// A mapping from table name to column-name set. Lookup finds the most
/// recently inserted entry for a name, so later definitions overwrite
/// earlier ones.
pub struct TablesAndColumns {
    entries: Vec<TableEntry>,
}

/// The mapping the entries denote: entries applied in order, later wins.
pub open spec fn entries_map(s: Seq<TableEntry>) -> Map<Seq<char>, Set<Seq<char>>>
    decreases s.len(),
{
    if s.len() == 0 {
        Map::empty()
    } else {
        entries_map(s.drop_last()).insert(
            s.last().name@,
            name_set(string_views(s.last().columns@)),
        )
    }
}

impl View for TablesAndColumns {
    type V = Map<Seq<char>, Set<Seq<char>>>;

    closed spec fn view(&self) -> Map<Seq<char>, Set<Seq<char>>> {
        entries_map(self.entries@)
    }
}

proof fn lemma_map_last_match(s: Seq<TableEntry>, k: Seq<char>, j: int)
    requires
        0 <= j < s.len(),
        s[j].name@ == k,
        forall|l: int| j < l < s.len() ==> s[l].name@ != k,
    ensures
        entries_map(s).contains_key(k),
        entries_map(s)[k] == name_set(string_views(s[j].columns@)),
    decreases s.len(),
{
    if j < s.len() - 1 {
        lemma_map_last_match(s.drop_last(), k, j);
    }
}

proof fn lemma_map_no_match(s: Seq<TableEntry>, k: Seq<char>)
    requires
        forall|l: int| 0 <= l < s.len() ==> s[l].name@ != k,
    ensures
        !entries_map(s).contains_key(k),
    decreases s.len(),
{
    if s.len() > 0 {
        lemma_map_no_match(s.drop_last(), k);
    }
}

proof fn lemma_map_congruent(a: Seq<TableEntry>, b: Seq<TableEntry>)
    requires
        a.len() == b.len(),
        forall|i: int| 0 <= i < a.len() ==> #[trigger] a[i].name@ == b[i].name@,
        forall|i: int|
            0 <= i < a.len() ==> string_views(#[trigger] a[i].columns@) == string_views(
                b[i].columns@,
            ),
    ensures
        entries_map(a) == entries_map(b),
    decreases a.len(),
{
    if a.len() > 0 {
        lemma_map_congruent(a.drop_last(), b.drop_last());
    }
}

impl TablesAndColumns {
    /// An empty schema.
    pub fn new() -> (r: Self)
        ensures
            r@ == Map::<Seq<char>, Set<Seq<char>>>::empty(),
    {
        TablesAndColumns { entries: Vec::new() }
    }

    /// Bind `name` to the set of `columns`, overwriting any earlier binding.
    pub fn insert(&mut self, name: String, columns: Vec<String>)
        ensures
            final(self)@ == old(self)@.insert(name@, name_set(string_views(columns@))),
    {
        let ghost oldentries = self.entries@;
        let ghost gname = name@;
        let ghost gcols = columns@;
        self.entries.push(TableEntry { name, columns });
        proof {
            assert(self.entries@.drop_last() =~= oldentries);
            assert(self.entries@.last().name@ == gname);
            assert(self.entries@.last().columns@ == gcols);
        }
    }

    /// The columns bound to `name`, or nothing when the name is unbound.
    pub fn get_columns(&self, name: &str) -> (r: Option<&Vec<String>>)
        ensures
            match r {
                Some(c) => self@.contains_key(name@) && self@[name@] == name_set(
                    string_views(c@),
                ),
                None => !self@.contains_key(name@),
            },
    {
        let n = self.entries.len();
        let mut i: usize = n;
        while i > 0
            invariant
                n == self.entries@.len(),
                i <= n,
                forall|l: int| i <= l < n ==> self.entries@[l].name@ != name@,
            decreases i,
        {
            i = i - 1;
            if str_eq(self.entries[i].name.as_str(), name) {
                proof {
                    lemma_map_last_match(self.entries@, name@, i as int);
                }
                return Some(&self.entries[i].columns);
            }
        }
        proof {
            lemma_map_no_match(self.entries@, name@);
        }
        None
    }

    /// Whether `name` is bound.
    pub fn contains_table(&self, name: &str) -> (r: bool)
        ensures
            r == self@.contains_key(name@),
    {
        self.get_columns(name).is_some()
    }

    /// An independent copy denoting the same mapping.
    pub fn duplicate(&self) -> (r: Self)
        ensures
            r@ == self@,
    {
        let n = self.entries.len();
        let mut out: Vec<TableEntry> = Vec::new();
        let mut i: usize = 0;
        while i < n
            invariant
                n == self.entries@.len(),
                i <= n,
                out@.len() == i,
                forall|j: int| 0 <= j < i ==> #[trigger] out@[j].name@ == self.entries@[j].name@,
                forall|j: int|
                    0 <= j < i ==> string_views(#[trigger] out@[j].columns@) == string_views(
                        self.entries@[j].columns@,
                    ),
            decreases n - i,
        {
            let name2 = self.entries[i].name.clone();
            let cols2 = self.entries[i].columns.clone();
            proof {
                assert forall|l: int| 0 <= l < cols2@.len() implies #[trigger] cols2@[l]
                    == self.entries@[i as int].columns@[l] by {
                    assert(cloned::<String>(self.entries@[i as int].columns@[l], cols2@[l]));
                }
                assert(cols2@ =~= self.entries@[i as int].columns@);
            }
            out.push(TableEntry { name: name2, columns: cols2 });
            i = i + 1;
        }
        proof {
            lemma_map_congruent(out@, self.entries@);
        }
        TablesAndColumns { entries: out }
    }
}

/// Whether `name` is among the views of `v`'s elements.
pub fn contains_name(v: &Vec<String>, name: &str) -> (r: bool)
    ensures
        r == name_set(string_views(v@)).contains(name@),
{
    let n = v.len();
    let mut i: usize = 0;
    while i < n
        invariant
            n == v@.len(),
            i <= n,
            forall|j: int| 0 <= j < i ==> string_views(v@)[j] != name@,
        decreases n - i,
    {
        if str_eq(v[i].as_str(), name) {
            proof {
                assert(string_views(v@)[i as int] == name@);
                assert(string_views(v@).contains(name@));
            }
            return true;
        }
        i = i + 1;
    }
    proof {
        assert forall|j: int| 0 <= j < string_views(v@).len() implies string_views(v@)[j]
            != name@ by {}
        assert(!string_views(v@).contains(name@));
    }
    false
}

/// The schema denoted by the first `i` statements: each `CREATE TABLE`
/// binds the last part of its name to its declared columns; everything
/// else is ignored.
pub open spec fn schema_upto(stmts: Seq<SqlStatement>, i: int) -> Map<Seq<char>, Set<Seq<char>>>
    decreases i,
{
    if i <= 0 {
        Map::empty()
    } else {
        let prev = schema_upto(stmts, i - 1);
        match stmts[i - 1] {
            SqlStatement::CreateTable { name, columns } => if name@.len() > 0 {
                prev.insert(last_name(name@), name_set(string_views(columns@)))
            } else {
                prev
            },
            _ => prev,
        }
    }
}

/// The schema denoted by a statement list.
pub open spec fn schema_of_statements(stmts: Seq<SqlStatement>) -> Map<Seq<char>, Set<Seq<char>>> {
    schema_upto(stmts, stmts.len() as int)
}

/// Build the schema mapping from parsed statements.
pub fn schema_from_statements(stmts: &Vec<SqlStatement>) -> (r: TablesAndColumns)
    ensures
        r@ == schema_of_statements(stmts@),
{
    let n = stmts.len();
    let mut out = TablesAndColumns::new();
    let mut i: usize = 0;
    while i < n
        invariant
            n == stmts@.len(),
            i <= n,
            out@ == schema_upto(stmts@, i as int),
        decreases n - i,
    {
        match &stmts[i] {
            SqlStatement::CreateTable { name, columns } => {
                if name.len() > 0 {
                    let key = name[name.len() - 1].clone();
                    let cols = columns.clone();
                    proof {
                        assert(key@ == last_name(name@));
                        assert forall|l: int| 0 <= l < cols@.len() implies #[trigger] cols@[l]
                            == columns@[l] by {
                            assert(cloned::<String>(columns@[l], cols@[l]));
                        }
                        assert(cols@ =~= columns@);
                    }
                    out.insert(key, cols);
                }
            },
            _ => {},
        }
        i = i + 1;
    }
    out
}

/// Load a schema from raw bytes of the given kind. Only the `sql` kind is
/// supported; an unknown kind is rejected with a message naming it.
pub fn load_schema(schema: &[u8], schema_type: &str) -> (r: Result<
    TablesAndColumns,
    String,
>)
    ensures
        schema_type@ == "sql"@ ==> match crate::parsing::parsed_sql(
            crate::parsing::lossy_utf8(schema@),
        ) {
            Some(stmts) => r is Ok && r->Ok_0@ == schema_of_statements(stmts),
            None => r is Err && r->Err_0@ == "Could not parse schema file"@,
        },
        schema_type@ != "sql"@ ==> r is Err && r->Err_0@ == "Schema type not supported "@
            + schema_type@,
{
    if str_eq(schema_type, "sql") {
        sql::load_schema(schema)
    } else {
        let mut msg = String::from_str("Schema type not supported ");
        msg.append(schema_type);
        Err(msg)
    }
}

} // verus!
