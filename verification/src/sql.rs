//! Building SQL queries that join several tables.
use vstd::prelude::*;
use crate::text::strings_chars;

verus! {

/// How a table is joined.
#[derive(Clone, Copy, Debug, PartialEq, Eq, Structural)]
pub enum JoinType {
    Inner,
    Left,
}

impl Default for JoinType {
    fn default() -> (r: Self)
        ensures
            r == JoinType::Left,
    {
        JoinType::Left
    }
}

/// A column selected from a joined table.
#[derive(Clone, Debug)]
pub enum SelectExpr {
    /// SELECT `<table_alias>.<expr>`
    Trivial(String),
    /// SELECT `<expr>`
    Custom(String),
}

/// A table to join, with the columns to select from it.
#[derive(Clone, Debug)]
pub struct JoinTable {
    pub table_name: String,
    pub table_alias: Option<String>,
    pub selects: Vec<SelectExpr>,
    /// ON `<table_alias>.<expr>`
    pub join_expr_suffix: String,
    pub join_type: JoinType,
}

impl Default for JoinTable {
    fn default() -> (r: Self)
        ensures
            r.table_name@.len() == 0,
            r.table_alias is None,
            r.selects@.len() == 0,
            r.join_expr_suffix@.len() == 0,
            r.join_type == JoinType::Left,
    {
        JoinTable {
            table_name: String::new(),
            table_alias: None,
            selects: Vec::new(),
            join_expr_suffix: String::new(),
            join_type: JoinType::default(),
        }
    }
}

/// Name under which a joined table is referred to: its alias, or else its name.
pub open spec fn alias_of(j: JoinTable) -> Seq<char> {
    match j.table_alias {
        Some(a) => a@,
        None => j.table_name@,
    }
}

impl JoinTable {
    pub fn alias(&self) -> (r: &str)
        ensures
            r@ == alias_of(*self),
    {
        match &self.table_alias {
            Some(a) => a.as_str(),
            None => self.table_name.as_str(),
        }
    }
}

/// Parts joined with a separator.
pub open spec fn join_sep(parts: Seq<Seq<char>>, sep: Seq<char>) -> Seq<char>
    decreases parts.len(),
{
    if parts.len() == 0 {
        Seq::empty()
    } else if parts.len() == 1 {
        parts[0]
    } else {
        join_sep(parts.drop_last(), sep) + sep + parts.last()
    }
}

/// The non-empty parts joined with a separator.
pub open spec fn join_sep_non_empty(parts: Seq<Seq<char>>, sep: Seq<char>) -> Seq<char>
    decreases parts.len(),
{
    if parts.len() == 0 {
        Seq::empty()
    } else {
        let init = join_sep_non_empty(parts.drop_last(), sep);
        if parts.last().len() == 0 {
            init
        } else if init.len() == 0 {
            parts.last()
        } else {
            init + sep + parts.last()
        }
    }
}

/// Joins the parts with a separator.
pub fn join_with(parts: &Vec<String>, sep: &str) -> (r: String)
    ensures
        r@ == join_sep(strings_chars(parts@), sep@),
{
    let mut r = String::new();
    let mut i: usize = 0;
    while i < parts.len()
        invariant
            0 <= i <= parts@.len(),
            r@ == join_sep(strings_chars(parts@.take(i as int)), sep@),
        decreases parts@.len() - i,
    {
        proof {
            assert(strings_chars(parts@.take(i as int + 1)).drop_last() =~= strings_chars(parts@.take(i as int)));
            assert(strings_chars(parts@.take(i as int + 1)).last() == parts@[i as int]@);
        }
        if i > 0 {
            r.append(sep);
        }
        r.append(parts[i].as_str());
        i = i + 1;
        proof {
            assert(r@ =~= join_sep(strings_chars(parts@.take(i as int)), sep@));
        }
    }
    assert(parts@.take(i as int) =~= parts@);
    r
}

/// Joins the non-empty parts with a separator.
pub fn join_non_empty_with(parts: &Vec<String>, sep: &str) -> (r: String)
    ensures
        r@ == join_sep_non_empty(strings_chars(parts@), sep@),
{
    let mut r = String::new();
    let mut i: usize = 0;
    while i < parts.len()
        invariant
            0 <= i <= parts@.len(),
            r@ == join_sep_non_empty(strings_chars(parts@.take(i as int)), sep@),
        decreases parts@.len() - i,
    {
        proof {
            assert(strings_chars(parts@.take(i as int + 1)).drop_last() =~= strings_chars(parts@.take(i as int)));
            assert(strings_chars(parts@.take(i as int + 1)).last() == parts@[i as int]@);
        }
        let part = parts[i].as_str();
        if !part.is_empty() {
            if !r.as_str().is_empty() {
                r.append(sep);
            }
            r.append(part);
        }
        i = i + 1;
        proof {
            assert(r@ =~= join_sep_non_empty(strings_chars(parts@.take(i as int)), sep@));
        }
    }
    assert(parts@.take(i as int) =~= parts@);
    r
}

/// What a selected column reads as in the query.
pub open spec fn select_text(alias: Seq<char>, s: SelectExpr) -> Seq<char> {
    match s {
        SelectExpr::Trivial(expr) => alias + seq!['.'] + expr@,
        SelectExpr::Custom(expr) => expr@,
    }
}

/// The columns selected from a joined table, separated by commas.
pub open spec fn join_columns(j: JoinTable) -> Seq<char> {
    join_sep(j.selects@.map_values(|s: SelectExpr| select_text(alias_of(j), s)), seq![',', ' '])
}

/// The clause that joins a table.
pub open spec fn join_clause(j: JoinTable) -> Seq<char> {
    let type_str = match j.join_type {
        JoinType::Inner => seq!['I', 'N', 'N', 'E', 'R'],
        JoinType::Left => seq!['L', 'E', 'F', 'T'],
    };
    type_str + seq![' ', 'J', 'O', 'I', 'N', ' '] + j.table_name@ + seq![' ', 'A', 'S', ' '] + alias_of(j)
        + seq![' ', 'O', 'N', ' '] + alias_of(j) + seq!['.'] + j.join_expr_suffix@
}

/// The query: the initial select followed by the columns of the joined tables (groups with
/// no columns skipped), then on their own lines the FROM part, the join clauses (one per
/// line) and the rest of the query.
pub open spec fn join_sql(select: Seq<char>, from_and_join: Seq<char>, outro: Seq<char>, joins: Seq<JoinTable>) -> Seq<char> {
    let additional_columns = join_sep_non_empty(joins.map_values(|j: JoinTable| join_columns(j)), seq![',', '\n']);
    let select_part = join_sep_non_empty(seq![select, additional_columns], seq![',', ' ']);
    let additional_joins = join_sep(joins.map_values(|j: JoinTable| join_clause(j)), seq!['\n']);
    select_part + seq!['\n'] + from_and_join + seq!['\n'] + additional_joins + seq!['\n'] + outro
}

fn select_column(alias: &str, s: &SelectExpr) -> (r: String)
    ensures
        r@ == select_text(alias@, *s),
{
    match s {
        SelectExpr::Trivial(expr) => {
            let mut r = alias.to_owned();
            r.append(".");
            proof {
                reveal_strlit(".");
            }
            r.append(expr.as_str());
            r
        },
        SelectExpr::Custom(expr) => expr.clone(),
    }
}

fn columns_of(j: &JoinTable) -> (r: String)
    ensures
        r@ == join_columns(*j),
{
    let alias = j.alias();
    let mut cols: Vec<String> = Vec::new();
    let mut i: usize = 0;
    while i < j.selects.len()
        invariant
            0 <= i <= j.selects@.len(),
            alias@ == alias_of(*j),
            strings_chars(cols@) == j.selects@.take(i as int).map_values(|s: SelectExpr| select_text(alias_of(*j), s)),
        decreases j.selects@.len() - i,
    {
        let c = select_column(alias, &j.selects[i]);
        let ghost before = cols@;
        cols.push(c);
        proof {
            assert(strings_chars(cols@) =~= strings_chars(before).push(c@));
            assert(j.selects@.take(i as int + 1).map_values(|s: SelectExpr| select_text(alias_of(*j), s))
                =~= j.selects@.take(i as int).map_values(|s: SelectExpr| select_text(alias_of(*j), s)).push(
                select_text(alias_of(*j), j.selects@[i as int])));
        }
        i = i + 1;
    }
    assert(j.selects@.take(i as int) =~= j.selects@);
    proof {
        reveal_strlit(", ");
        assert(", "@ =~= seq![',', ' ']);
    }
    join_with(&cols, ", ")
}

fn clause_of(j: &JoinTable) -> (r: String)
    ensures
        r@ == join_clause(*j),
{
    let alias = j.alias();
    let mut r = match j.join_type {
        JoinType::Inner => "INNER".to_owned(),
        JoinType::Left => "LEFT".to_owned(),
    };
    r.append(" JOIN ");
    r.append(j.table_name.as_str());
    r.append(" AS ");
    r.append(alias);
    r.append(" ON ");
    r.append(alias);
    r.append(".");
    r.append(j.join_expr_suffix.as_str());
    proof {
        reveal_strlit("INNER");
        reveal_strlit("LEFT");
        reveal_strlit(" JOIN ");
        reveal_strlit(" AS ");
        reveal_strlit(" ON ");
        reveal_strlit(".");
        assert(r@ =~= join_clause(*j));
    }
    r
}

/// Makes a simple-ish SQL query with joins.
///
/// # Params
/// - `select`: the initial SELECT part, without the FROM. E.g. "SELECT id, name"
/// - `from_and_join`: the FROM part as necessary explicit JOINs
/// - `outro`: the rest of the query, e.g. "WHERE ... ORDER BY ...". Can be empty.
/// - `joins`: the tables to join, with the columns to select from them
pub fn make_join_sql(select: &str, from_and_join: &str, outro: &str, joins: &Vec<JoinTable>) -> (r: String)
    ensures
        r@ == join_sql(select@, from_and_join@, outro@, joins@),
{
    let mut column_groups: Vec<String> = Vec::new();
    let mut clauses: Vec<String> = Vec::new();
    let mut i: usize = 0;
    while i < joins.len()
        invariant
            0 <= i <= joins@.len(),
            strings_chars(column_groups@) == joins@.take(i as int).map_values(|j: JoinTable| join_columns(j)),
            strings_chars(clauses@) == joins@.take(i as int).map_values(|j: JoinTable| join_clause(j)),
        decreases joins@.len() - i,
    {
        let cols = columns_of(&joins[i]);
        let clause = clause_of(&joins[i]);
        let ghost before_cols = column_groups@;
        let ghost before_clauses = clauses@;
        column_groups.push(cols);
        clauses.push(clause);
        proof {
            assert(strings_chars(column_groups@) =~= strings_chars(before_cols).push(cols@));
            assert(strings_chars(clauses@) =~= strings_chars(before_clauses).push(clause@));
            assert(joins@.take(i as int + 1).map_values(|j: JoinTable| join_columns(j))
                =~= joins@.take(i as int).map_values(|j: JoinTable| join_columns(j)).push(join_columns(joins@[i as int])));
            assert(joins@.take(i as int + 1).map_values(|j: JoinTable| join_clause(j))
                =~= joins@.take(i as int).map_values(|j: JoinTable| join_clause(j)).push(join_clause(joins@[i as int])));
        }
        i = i + 1;
    }
    assert(joins@.take(i as int) =~= joins@);
    proof {
        reveal_strlit(",\n");
        reveal_strlit(", ");
        reveal_strlit("\n");
        assert(",\n"@ =~= seq![',', '\n']);
        assert(", "@ =~= seq![',', ' ']);
        assert("\n"@ =~= seq!['\n']);
    }
    let additional_columns = join_non_empty_with(&column_groups, ",\n");
    let firsts = vec![select.to_owned(), additional_columns];
    assert(strings_chars(firsts@) =~= seq![select@, additional_columns@]);
    let select_part = join_non_empty_with(&firsts, ", ");
    let additional_joins = join_with(&clauses, "\n");
    let mut r = select_part;
    r.append("\n");
    r.append(from_and_join);
    r.append("\n");
    r.append(additional_joins.as_str());
    r.append("\n");
    r.append(outro);
    proof {
        assert(r@ =~= join_sql(select@, from_and_join@, outro@, joins@));
    }
    r
}

} // verus!
