//! `ALTER TABLE`, `CREATE TABLE` and `DROP TABLE` statements that turn one
//! schema into another.
//!
//! Columns and indexes are matched by name; where a name occurs twice in one
//! table, its last definition counts.
use vstd::prelude::*;
use crate::split::{views, lemma_views_push, lemma_views_empty, join, join_chars, split_on, split_on_char};
use crate::text::{extend_str, extend_chars, to_chars, from_chars, chars_eq, trim, has_prefix, trim_chars, starts_with};
use super::types::{
    TableColumn, TableIndex, TableDefinition, ColumnView, IndexView, TableView, str_views,
    column_views, index_views, opt_view, lemma_str_views_push,
};
use super::generator::{
    ticked, column_sql, column_list, column_sql_chars, column_list_chars, create_table_sql,
    create_table_chars,
};
use super::parser::{
    lemma_column_views_push, lemma_index_views_push, Schema, find_table, lemma_find_table_range,
    names_unique,
};
use crate::error::DuckError;
use crate::clock::is_clock_stamp;

verus! {

// ---------------------------------------------------------------------------
// Last definitions by name.

pub open spec fn col_named_in(s: Seq<ColumnView>, n: Seq<char>) -> bool {
    exists|k: int| 0 <= k < s.len() && #[trigger] s[k].name == n
}

/// The columns of `s` that are the last of their name, in order.
pub open spec fn last_cols(s: Seq<ColumnView>) -> Seq<ColumnView>
    decreases s.len(),
{
    if s.len() == 0 {
        Seq::empty()
    } else if col_named_in(s.drop_first(), s[0].name) {
        last_cols(s.drop_first())
    } else {
        seq![s[0]] + last_cols(s.drop_first())
    }
}

pub open spec fn idx_named_in(s: Seq<IndexView>, n: Seq<char>) -> bool {
    exists|k: int| 0 <= k < s.len() && #[trigger] s[k].name == n
}

/// The indexes of `s` that are the last of their name, in order.
pub open spec fn last_idxs(s: Seq<IndexView>) -> Seq<IndexView>
    decreases s.len(),
{
    if s.len() == 0 {
        Seq::empty()
    } else if idx_named_in(s.drop_first(), s[0].name) {
        last_idxs(s.drop_first())
    } else {
        seq![s[0]] + last_idxs(s.drop_first())
    }
}

/// The first index of a column named `n` at or after `i`, or `-1`.
pub open spec fn col_pos(s: Seq<ColumnView>, n: Seq<char>, i: int) -> int
    decreases s.len() - i,
{
    if i < 0 || i >= s.len() {
        -1
    } else if s[i].name == n {
        i
    } else {
        col_pos(s, n, i + 1)
    }
}

/// The first index of an index named `n` at or after `i`, or `-1`.
pub open spec fn idx_pos(s: Seq<IndexView>, n: Seq<char>, i: int) -> int
    decreases s.len() - i,
{
    if i < 0 || i >= s.len() {
        -1
    } else if s[i].name == n {
        i
    } else {
        idx_pos(s, n, i + 1)
    }
}

pub proof fn lemma_col_pos_range(s: Seq<ColumnView>, n: Seq<char>, i: int)
    requires
        0 <= i,
    ensures
        col_pos(s, n, i) == -1 || (i <= col_pos(s, n, i) < s.len() && s[col_pos(s, n, i)].name
            == n),
    decreases s.len() - i,
{
    if i < s.len() && s[i].name != n {
        lemma_col_pos_range(s, n, i + 1);
    }
}

pub proof fn lemma_idx_pos_range(s: Seq<IndexView>, n: Seq<char>, i: int)
    requires
        0 <= i,
    ensures
        idx_pos(s, n, i) == -1 || (i <= idx_pos(s, n, i) < s.len() && s[idx_pos(s, n, i)].name
            == n),
    decreases s.len() - i,
{
    if i < s.len() && s[i].name != n {
        lemma_idx_pos_range(s, n, i + 1);
    }
}

fn dedup_columns(cols: &Vec<TableColumn>) -> (r: Vec<TableColumn>)
    ensures
        column_views(r@) == last_cols(column_views(cols@)),
{
    let ghost cv = column_views(cols@);
    let mut out: Vec<TableColumn> = Vec::new();
    let mut i: usize = 0;
    assert(cv.skip(0) =~= cv);
    assert(column_views(out@) =~= Seq::<ColumnView>::empty());
    while i < cols.len()
        invariant
            cv == column_views(cols@),
            i <= cols@.len(),
            column_views(out@) + last_cols(cv.skip(i as int)) == last_cols(cv),
        decreases cols@.len() - i,
    {
        let mut later = false;
        let mut j: usize = i + 1;
        while j < cols.len()
            invariant
                cv == column_views(cols@),
                i < cols@.len(),
                i + 1 <= j <= cols@.len(),
                later == (exists|k: int| i + 1 <= k < j && #[trigger] cv[k].name == cv[i as int].name),
            decreases cols@.len() - j,
        {
            let same = cols[j].name == cols[i].name;
            proof {
                assert(cv[j as int].name == cols@[j as int].name@);
                assert(cv[i as int].name == cols@[i as int].name@);
                if same {
                    assert(cv[j as int].name == cv[i as int].name);
                }
            }
            if same {
                later = true;
            }
            j = j + 1;
        }
        let ghost rest = cv.skip(i as int);
        proof {
            assert(rest.drop_first() =~= cv.skip(i + 1));
            assert(rest[0] == cv[i as int]);
            if later {
                let k = choose|k: int| i + 1 <= k < j && #[trigger] cv[k].name == cv[i as int].name;
                assert(rest.drop_first()[k - i - 1] == cv[k]);
                assert(col_named_in(rest.drop_first(), rest[0].name));
            } else {
                if col_named_in(rest.drop_first(), rest[0].name) {
                    let k = choose|k: int|
                        0 <= k < rest.drop_first().len() && #[trigger] rest.drop_first()[k].name
                            == rest[0].name;
                    assert(cv[k + i + 1] == rest.drop_first()[k]);
                }
            }
        }
        if !later {
            let c = cols[i].duplicate();
            proof {
                lemma_column_views_push(out@, c);
                assert(column_views(out@).push(c@) + last_cols(cv.skip(i + 1)) =~= column_views(
                    out@,
                ) + (seq![cv[i as int]] + last_cols(cv.skip(i + 1))));
            }
            out.push(c);
        }
        i = i + 1;
    }
    assert(cv.skip(cols@.len() as int) =~= Seq::<ColumnView>::empty());
    assert(column_views(out@) =~= last_cols(cv));
    out
}

fn dedup_indexes(idxs: &Vec<TableIndex>) -> (r: Vec<TableIndex>)
    ensures
        index_views(r@) == last_idxs(index_views(idxs@)),
{
    let ghost cv = index_views(idxs@);
    let mut out: Vec<TableIndex> = Vec::new();
    let mut i: usize = 0;
    assert(cv.skip(0) =~= cv);
    assert(index_views(out@) =~= Seq::<IndexView>::empty());
    while i < idxs.len()
        invariant
            cv == index_views(idxs@),
            i <= idxs@.len(),
            index_views(out@) + last_idxs(cv.skip(i as int)) == last_idxs(cv),
        decreases idxs@.len() - i,
    {
        let mut later = false;
        let mut j: usize = i + 1;
        while j < idxs.len()
            invariant
                cv == index_views(idxs@),
                i < idxs@.len(),
                i + 1 <= j <= idxs@.len(),
                later == (exists|k: int| i + 1 <= k < j && #[trigger] cv[k].name == cv[i as int].name),
            decreases idxs@.len() - j,
        {
            let same = idxs[j].name == idxs[i].name;
            proof {
                assert(cv[j as int].name == idxs@[j as int].name@);
                assert(cv[i as int].name == idxs@[i as int].name@);
                if same {
                    assert(cv[j as int].name == cv[i as int].name);
                }
            }
            if same {
                later = true;
            }
            j = j + 1;
        }
        let ghost rest = cv.skip(i as int);
        proof {
            assert(rest.drop_first() =~= cv.skip(i + 1));
            assert(rest[0] == cv[i as int]);
            if later {
                let k = choose|k: int| i + 1 <= k < j && #[trigger] cv[k].name == cv[i as int].name;
                assert(rest.drop_first()[k - i - 1] == cv[k]);
                assert(idx_named_in(rest.drop_first(), rest[0].name));
            } else {
                if idx_named_in(rest.drop_first(), rest[0].name) {
                    let k = choose|k: int|
                        0 <= k < rest.drop_first().len() && #[trigger] rest.drop_first()[k].name
                            == rest[0].name;
                    assert(cv[k + i + 1] == rest.drop_first()[k]);
                }
            }
        }
        if !later {
            let c = idxs[i].duplicate();
            proof {
                lemma_index_views_push(out@, c);
                assert(index_views(out@).push(c@) + last_idxs(cv.skip(i + 1)) =~= index_views(
                    out@,
                ) + (seq![cv[i as int]] + last_idxs(cv.skip(i + 1))));
            }
            out.push(c);
        }
        i = i + 1;
    }
    assert(cv.skip(idxs@.len() as int) =~= Seq::<IndexView>::empty());
    assert(index_views(out@) =~= last_idxs(cv));
    out
}

fn col_pos_exec(cols: &Vec<TableColumn>, name: &String) -> (r: Option<usize>)
    ensures
        match r {
            Some(k) => k as int == col_pos(column_views(cols@), name@, 0),
            None => col_pos(column_views(cols@), name@, 0) == -1,
        },
{
    let mut i: usize = 0;
    while i < cols.len()
        invariant
            i <= cols@.len(),
            col_pos(column_views(cols@), name@, i as int) == col_pos(column_views(cols@), name@, 0),
        decreases cols@.len() - i,
    {
        if cols[i].name == *name {
            return Some(i);
        }
        i = i + 1;
    }
    None
}

fn idx_pos_exec(idxs: &Vec<TableIndex>, name: &String) -> (r: Option<usize>)
    ensures
        match r {
            Some(k) => k as int == idx_pos(index_views(idxs@), name@, 0),
            None => idx_pos(index_views(idxs@), name@, 0) == -1,
        },
{
    let mut i: usize = 0;
    while i < idxs.len()
        invariant
            i <= idxs@.len(),
            idx_pos(index_views(idxs@), name@, i as int) == idx_pos(index_views(idxs@), name@, 0),
        decreases idxs@.len() - i,
    {
        if idxs[i].name == *name {
            return Some(i);
        }
        i = i + 1;
    }
    None
}

fn opt_eq(a: &Option<String>, b: &Option<String>) -> (r: bool)
    ensures
        r == (opt_view(*a) == opt_view(*b)),
{
    match (a, b) {
        (Some(x), Some(y)) => *x == *y,
        (None, None) => true,
        _ => false,
    }
}

/// Whether two columns are defined alike.
pub fn same_column(a: &TableColumn, b: &TableColumn) -> (r: bool)
    ensures
        r == (a@ == b@),
{
    a.name == b.name && a.data_type == b.data_type && a.nullable == b.nullable && opt_eq(
        &a.default_value,
        &b.default_value,
    ) && a.auto_increment == b.auto_increment && opt_eq(&a.comment, &b.comment)
}

fn strings_eq(a: &Vec<String>, b: &Vec<String>) -> (r: bool)
    ensures
        r == (str_views(a@) == str_views(b@)),
{
    if a.len() != b.len() {
        assert(str_views(a@).len() != str_views(b@).len());
        return false;
    }
    let mut i: usize = 0;
    while i < a.len()
        invariant
            a@.len() == b@.len(),
            i <= a@.len(),
            forall|k: int| 0 <= k < i ==> a@[k]@ == b@[k]@,
        decreases a@.len() - i,
    {
        if a[i] != b[i] {
            assert(str_views(a@)[i as int] != str_views(b@)[i as int]);
            return false;
        }
        i = i + 1;
    }
    assert(str_views(a@) =~= str_views(b@));
    true
}

/// Whether two indexes are defined alike.
pub fn same_index(a: &TableIndex, b: &TableIndex) -> (r: bool)
    ensures
        r == (a@ == b@),
{
    a.name == b.name && strings_eq(&a.columns, &b.columns) && a.is_primary == b.is_primary
        && a.is_unique == b.is_unique && opt_eq(&a.index_type, &b.index_type)
}

// ---------------------------------------------------------------------------
// Column and index statements.

pub open spec fn alter(tn: Seq<char>) -> Seq<char> {
    "ALTER TABLE "@ + ticked(tn)
}

pub open spec fn add_col_lines(news: Seq<ColumnView>, olds: Seq<ColumnView>, tn: Seq<char>) -> Seq<
    Seq<char>,
>
    decreases news.len(),
{
    if news.len() == 0 {
        Seq::empty()
    } else {
        let prev = add_col_lines(news.drop_last(), olds, tn);
        let c = news.last();
        if col_pos(olds, c.name, 0) < 0 {
            prev.push(alter(tn) + " ADD COLUMN "@ + column_sql(c) + ";"@)
        } else {
            prev
        }
    }
}

pub open spec fn drop_col_lines(olds: Seq<ColumnView>, news: Seq<ColumnView>, tn: Seq<char>) -> Seq<
    Seq<char>,
>
    decreases olds.len(),
{
    if olds.len() == 0 {
        Seq::empty()
    } else {
        let prev = drop_col_lines(olds.drop_last(), news, tn);
        let c = olds.last();
        if col_pos(news, c.name, 0) < 0 {
            prev.push(alter(tn) + " DROP COLUMN "@ + ticked(c.name) + ";"@)
        } else {
            prev
        }
    }
}

pub open spec fn mod_col_lines(news: Seq<ColumnView>, olds: Seq<ColumnView>, tn: Seq<char>) -> Seq<
    Seq<char>,
>
    decreases news.len(),
{
    if news.len() == 0 {
        Seq::empty()
    } else {
        let prev = mod_col_lines(news.drop_last(), olds, tn);
        let c = news.last();
        let k = col_pos(olds, c.name, 0);
        if k >= 0 && olds[k] != c {
            prev.push(alter(tn) + " MODIFY COLUMN "@ + column_sql(c) + ";"@)
        } else {
            prev
        }
    }
}

/// The statements that change the columns of `old_t` into those of `new_t`:
/// added columns, then dropped ones, then changed ones.
pub open spec fn column_diffs(old_t: TableView, new_t: TableView) -> Seq<Seq<char>> {
    let o = last_cols(old_t.columns);
    let n = last_cols(new_t.columns);
    add_col_lines(n, o, new_t.name) + drop_col_lines(o, n, new_t.name) + mod_col_lines(
        n,
        o,
        new_t.name,
    )
}

pub open spec fn add_index_line(tn: Seq<char>, ix: IndexView) -> Seq<char> {
    if ix.is_primary {
        alter(tn) + " ADD PRIMARY KEY ("@ + column_list(ix.columns) + ");"@
    } else if ix.is_unique {
        alter(tn) + " ADD UNIQUE KEY "@ + ticked(ix.name) + " ("@ + column_list(ix.columns) + ");"@
    } else {
        alter(tn) + " ADD KEY "@ + ticked(ix.name) + " ("@ + column_list(ix.columns) + ");"@
    }
}

pub open spec fn drop_index_line(tn: Seq<char>, ix: IndexView) -> Seq<char> {
    if ix.is_primary {
        alter(tn) + " DROP PRIMARY KEY;"@
    } else {
        alter(tn) + " DROP KEY "@ + ticked(ix.name) + ";"@
    }
}

pub open spec fn add_idx_lines(news: Seq<IndexView>, olds: Seq<IndexView>, tn: Seq<char>) -> Seq<
    Seq<char>,
>
    decreases news.len(),
{
    if news.len() == 0 {
        Seq::empty()
    } else {
        let prev = add_idx_lines(news.drop_last(), olds, tn);
        let x = news.last();
        if idx_pos(olds, x.name, 0) < 0 {
            prev.push(add_index_line(tn, x))
        } else {
            prev
        }
    }
}

pub open spec fn drop_idx_lines(olds: Seq<IndexView>, news: Seq<IndexView>, tn: Seq<char>) -> Seq<
    Seq<char>,
>
    decreases olds.len(),
{
    if olds.len() == 0 {
        Seq::empty()
    } else {
        let prev = drop_idx_lines(olds.drop_last(), news, tn);
        let x = olds.last();
        if idx_pos(news, x.name, 0) < 0 {
            prev.push(drop_index_line(tn, x))
        } else {
            prev
        }
    }
}

pub open spec fn mod_idx_lines(news: Seq<IndexView>, olds: Seq<IndexView>, tn: Seq<char>) -> Seq<
    Seq<char>,
>
    decreases news.len(),
{
    if news.len() == 0 {
        Seq::empty()
    } else {
        let prev = mod_idx_lines(news.drop_last(), olds, tn);
        let x = news.last();
        let k = idx_pos(olds, x.name, 0);
        if k >= 0 && olds[k] != x {
            prev.push(drop_index_line(tn, olds[k])).push(add_index_line(tn, x))
        } else {
            prev
        }
    }
}

/// The statements that change the indexes of `old_t` into those of `new_t`:
/// added indexes, then dropped ones, then changed ones (dropped and re-added).
pub open spec fn index_diffs(old_t: TableView, new_t: TableView) -> Seq<Seq<char>> {
    let o = last_idxs(old_t.indexes);
    let n = last_idxs(new_t.indexes);
    add_idx_lines(n, o, new_t.name) + drop_idx_lines(o, n, new_t.name) + mod_idx_lines(
        n,
        o,
        new_t.name,
    )
}

pub open spec fn table_diff(old_t: TableView, new_t: TableView) -> Seq<Seq<char>> {
    column_diffs(old_t, new_t) + index_diffs(old_t, new_t)
}

fn alter_chars(tn: &String) -> (r: Vec<char>)
    ensures
        r@ == alter(tn@),
{
    let mut v = to_chars("ALTER TABLE ");
    v.push('`');
    extend_str(&mut v, tn.as_str());
    v.push('`');
    assert(v@ =~= alter(tn@));
    v
}

fn push_line(lines: &mut Vec<Vec<char>>, line: Vec<char>)
    ensures
        views(final(lines)@) == views(old(lines)@).push(line@),
{
    proof {
        lemma_views_push(lines@, line);
    }
    lines.push(line);
}

/// The statements that change the columns of `old_t` into those of `new_t`
/// (see `column_diffs`).
pub fn generate_column_diffs(old_t: &TableDefinition, new_t: &TableDefinition) -> (r: Vec<Vec<char>>)
    ensures
        views(r@) == column_diffs(old_t@, new_t@),
{
    let olds = dedup_columns(&old_t.columns);
    let news = dedup_columns(&new_t.columns);
    let ghost o = column_views(olds@);
    let ghost n = column_views(news@);
    let tn = &new_t.name;
    let mut lines: Vec<Vec<char>> = Vec::new();
    proof {
        lemma_views_empty();
    }
    let mut i: usize = 0;
    while i < news.len()
        invariant
            i <= news@.len(),
            o == column_views(olds@),
            n == column_views(news@),
            views(lines@) == add_col_lines(n.take(i as int), o, tn@),
        decreases news@.len() - i,
    {
        proof {
            assert(n.take(i + 1).drop_last() =~= n.take(i as int));
        }
        if col_pos_exec(&olds, &news[i].name).is_none() {
            let mut line = alter_chars(tn);
            extend_str(&mut line, " ADD COLUMN ");
            let c = column_sql_chars(&news[i]);
            extend_chars(&mut line, &c);
            line.push(';');
            proof {
                reveal_strlit(";");
                assert(line@ =~= alter(tn@) + " ADD COLUMN "@ + column_sql(n[i as int]) + ";"@);
            }
            push_line(&mut lines, line);
        }
        i = i + 1;
    }
    assert(n.take(news@.len() as int) =~= n);
    let ghost part1 = views(lines@);
    let mut i: usize = 0;
    while i < olds.len()
        invariant
            i <= olds@.len(),
            o == column_views(olds@),
            n == column_views(news@),
            views(lines@) == part1 + drop_col_lines(o.take(i as int), n, tn@),
        decreases olds@.len() - i,
    {
        proof {
            assert(o.take(i + 1).drop_last() =~= o.take(i as int));
        }
        if col_pos_exec(&news, &olds[i].name).is_none() {
            let mut line = alter_chars(tn);
            extend_str(&mut line, " DROP COLUMN ");
            line.push('`');
            extend_str(&mut line, olds[i].name.as_str());
            line.push('`');
            line.push(';');
            proof {
                reveal_strlit(";");
                assert(line@ =~= alter(tn@) + " DROP COLUMN "@ + ticked(o[i as int].name) + ";"@);
            }
            push_line(&mut lines, line);
        }
        i = i + 1;
    }
    assert(o.take(olds@.len() as int) =~= o);
    let ghost part2 = views(lines@);
    let mut i: usize = 0;
    while i < news.len()
        invariant
            i <= news@.len(),
            o == column_views(olds@),
            n == column_views(news@),
            views(lines@) == part2 + mod_col_lines(n.take(i as int), o, tn@),
        decreases news@.len() - i,
    {
        proof {
            assert(n.take(i + 1).drop_last() =~= n.take(i as int));
        }
        match col_pos_exec(&olds, &news[i].name) {
            Some(k) => {
                proof {
                    lemma_col_pos_range(o, n[i as int].name, 0);
                }
                if !same_column(&olds[k], &news[i]) {
                    let mut line = alter_chars(tn);
                    extend_str(&mut line, " MODIFY COLUMN ");
                    let c = column_sql_chars(&news[i]);
                    extend_chars(&mut line, &c);
                    line.push(';');
                    proof {
                        reveal_strlit(";");
                        assert(line@ =~= alter(tn@) + " MODIFY COLUMN "@ + column_sql(n[i as int])
                            + ";"@);
                    }
                    push_line(&mut lines, line);
                }
            },
            None => {},
        }
        i = i + 1;
    }
    assert(n.take(news@.len() as int) =~= n);
    assert(views(lines@) =~= column_diffs(old_t@, new_t@));
    lines
}

fn add_index_chars(tn: &String, ix: &TableIndex) -> (r: Vec<char>)
    ensures
        r@ == add_index_line(tn@, ix@),
{
    let mut line = alter_chars(tn);
    let list = column_list_chars(&ix.columns);
    if ix.is_primary {
        extend_str(&mut line, " ADD PRIMARY KEY (");
    } else {
        if ix.is_unique {
            extend_str(&mut line, " ADD UNIQUE KEY ");
        } else {
            extend_str(&mut line, " ADD KEY ");
        }
        line.push('`');
        extend_str(&mut line, ix.name.as_str());
        line.push('`');
        extend_str(&mut line, " (");
    }
    extend_chars(&mut line, &list);
    extend_str(&mut line, ");");
    assert(line@ =~= add_index_line(tn@, ix@));
    line
}

fn drop_index_chars(tn: &String, ix: &TableIndex) -> (r: Vec<char>)
    ensures
        r@ == drop_index_line(tn@, ix@),
{
    let mut line = alter_chars(tn);
    if ix.is_primary {
        extend_str(&mut line, " DROP PRIMARY KEY;");
    } else {
        extend_str(&mut line, " DROP KEY ");
        line.push('`');
        extend_str(&mut line, ix.name.as_str());
        line.push('`');
        line.push(';');
        proof {
            reveal_strlit(";");
        }
    }
    assert(line@ =~= drop_index_line(tn@, ix@));
    line
}

/// The statements that change the indexes of `old_t` into those of `new_t`
/// (see `index_diffs`).
pub fn generate_index_diffs(old_t: &TableDefinition, new_t: &TableDefinition) -> (r: Vec<Vec<char>>)
    ensures
        views(r@) == index_diffs(old_t@, new_t@),
{
    let olds = dedup_indexes(&old_t.indexes);
    let news = dedup_indexes(&new_t.indexes);
    let ghost o = index_views(olds@);
    let ghost n = index_views(news@);
    let tn = &new_t.name;
    let mut lines: Vec<Vec<char>> = Vec::new();
    proof {
        lemma_views_empty();
    }
    let mut i: usize = 0;
    while i < news.len()
        invariant
            i <= news@.len(),
            o == index_views(olds@),
            n == index_views(news@),
            views(lines@) == add_idx_lines(n.take(i as int), o, tn@),
        decreases news@.len() - i,
    {
        proof {
            assert(n.take(i + 1).drop_last() =~= n.take(i as int));
        }
        if idx_pos_exec(&olds, &news[i].name).is_none() {
            let line = add_index_chars(tn, &news[i]);
            push_line(&mut lines, line);
        }
        i = i + 1;
    }
    assert(n.take(news@.len() as int) =~= n);
    let ghost part1 = views(lines@);
    let mut i: usize = 0;
    while i < olds.len()
        invariant
            i <= olds@.len(),
            o == index_views(olds@),
            n == index_views(news@),
            views(lines@) == part1 + drop_idx_lines(o.take(i as int), n, tn@),
        decreases olds@.len() - i,
    {
        proof {
            assert(o.take(i + 1).drop_last() =~= o.take(i as int));
        }
        if idx_pos_exec(&news, &olds[i].name).is_none() {
            let line = drop_index_chars(tn, &olds[i]);
            push_line(&mut lines, line);
        }
        i = i + 1;
    }
    assert(o.take(olds@.len() as int) =~= o);
    let ghost part2 = views(lines@);
    let mut i: usize = 0;
    while i < news.len()
        invariant
            i <= news@.len(),
            o == index_views(olds@),
            n == index_views(news@),
            views(lines@) == part2 + mod_idx_lines(n.take(i as int), o, tn@),
        decreases news@.len() - i,
    {
        proof {
            assert(n.take(i + 1).drop_last() =~= n.take(i as int));
        }
        match idx_pos_exec(&olds, &news[i].name) {
            Some(k) => {
                proof {
                    lemma_idx_pos_range(o, n[i as int].name, 0);
                }
                if !same_index(&olds[k], &news[i]) {
                    let d = drop_index_chars(tn, &olds[k]);
                    push_line(&mut lines, d);
                    let a = add_index_chars(tn, &news[i]);
                    push_line(&mut lines, a);
                }
            },
            None => {},
        }
        i = i + 1;
    }
    assert(n.take(news@.len() as int) =~= n);
    assert(views(lines@) =~= index_diffs(old_t@, new_t@));
    lines
}

pub fn table_diff_lines(old_t: &TableDefinition, new_t: &TableDefinition) -> (r: Vec<Vec<char>>)
    ensures
        views(r@) == table_diff(old_t@, new_t@),
{
    let mut a = generate_column_diffs(old_t, new_t);
    let b = generate_index_diffs(old_t, new_t);
    let mut k: usize = 0;
    let ghost a0 = views(a@);
    while k < b.len()
        invariant
            k <= b@.len(),
            views(a@) == a0 + views(b@).take(k as int),
        decreases b@.len() - k,
    {
        let mut line: Vec<char> = Vec::new();
        extend_chars(&mut line, &b[k]);
        proof {
            assert(views(b@).take(k + 1) =~= views(b@).take(k as int).push(b@[k as int]@));
        }
        push_line(&mut a, line);
        k = k + 1;
    }
    assert(views(b@).take(b@.len() as int) =~= views(b@));
    a
}

/// The statements that change the columns and indexes of `old_table` into
/// those of `new_table` (see `table_diff`).
pub fn generate_table_diff(old_table: &TableDefinition, new_table: &TableDefinition) -> (r: Vec<
    String,
>)
    ensures
        str_views(r@) == table_diff(old_table@, new_table@),
{
    let lines = table_diff_lines(old_table, new_table);
    let mut r: Vec<String> = Vec::new();
    let mut k: usize = 0;
    while k < lines.len()
        invariant
            k <= lines@.len(),
            str_views(r@) == views(lines@).take(k as int),
        decreases lines@.len() - k,
    {
        let s = from_chars(&lines[k]);
        proof {
            lemma_str_views_push(r@, s);
            assert(views(lines@).take(k + 1) =~= views(lines@).take(k as int).push(lines@[k as int]@));
        }
        r.push(s);
        k = k + 1;
    }
    assert(views(lines@).take(lines@.len() as int) =~= views(lines@));
    r
}


// ---------------------------------------------------------------------------
// Lines that carry a statement.

/// A line that is neither blank nor a `--` comment.
pub open spec fn is_meaningful(line: Seq<char>) -> bool {
    trim(line).len() > 0 && !has_prefix(trim(line), "--"@)
}

pub open spec fn count_meaningful(ls: Seq<Seq<char>>) -> nat
    decreases ls.len(),
{
    if ls.len() == 0 {
        0
    } else if is_meaningful(ls.last()) {
        count_meaningful(ls.drop_last()) + 1
    } else {
        count_meaningful(ls.drop_last())
    }
}

/// The number of lines of `text` that carry a statement.
pub open spec fn meaningful_lines(text: Seq<char>) -> nat {
    count_meaningful(split_on(text, '\n'))
}

pub fn count_meaningful_lines(text: &Vec<char>) -> (r: u64)
    ensures
        r as nat == meaningful_lines(text@),
{
    let lines = split_on_char(text, '\n');
    let dash = to_chars("--");
    let mut n: u64 = 0;
    let mut i: usize = 0;
    while i < lines.len()
        invariant
            i <= lines@.len(),
            dash@ == "--"@,
            n as nat == count_meaningful(views(lines@).take(i as int)),
            n <= i,
        decreases lines@.len() - i,
    {
        let t = trim_chars(&lines[i]);
        proof {
            assert(views(lines@).take(i + 1).drop_last() =~= views(lines@).take(i as int));
            assert(views(lines@).take(i + 1).last() == lines@[i as int]@);
        }
        if t.len() > 0 && !starts_with(&t, &dash) {
            n = n + 1;
        }
        i = i + 1;
    }
    assert(views(lines@).take(lines@.len() as int) =~= views(lines@));
    n
}

// ---------------------------------------------------------------------------
// Whole schemas.

pub open spec fn header_lines(time: Seq<char>) -> Seq<Seq<char>> {
    seq!["-- 数据库架构差异SQL"@, "-- 生成时间: "@ + time, Seq::<char>::empty()]
}

/// Sections for the tables of `to` that `from` lacks.
pub open spec fn added_lines(to: Seq<TableView>, from: Seq<TableView>) -> Seq<Seq<char>>
    decreases to.len(),
{
    if to.len() == 0 {
        Seq::empty()
    } else {
        let prev = added_lines(to.drop_last(), from);
        let t = to.last();
        if find_table(from, t.name, 0) < 0 {
            prev + seq!["-- 新增表: "@ + t.name, create_table_sql(t), Seq::<char>::empty()]
        } else {
            prev
        }
    }
}

/// Sections for the tables of `from` that `to` lacks.
pub open spec fn dropped_lines(from: Seq<TableView>, to: Seq<TableView>) -> Seq<Seq<char>>
    decreases from.len(),
{
    if from.len() == 0 {
        Seq::empty()
    } else {
        let prev = dropped_lines(from.drop_last(), to);
        let t = from.last();
        if find_table(to, t.name, 0) < 0 {
            prev + seq![
                "-- 删除表: "@ + t.name,
                "DROP TABLE IF EXISTS "@ + ticked(t.name) + ";"@,
                Seq::<char>::empty(),
            ]
        } else {
            prev
        }
    }
}

/// Sections for the tables that both hold and whose definitions differ.
pub open spec fn modified_lines(to: Seq<TableView>, from: Seq<TableView>) -> Seq<Seq<char>>
    decreases to.len(),
{
    if to.len() == 0 {
        Seq::empty()
    } else {
        let prev = modified_lines(to.drop_last(), from);
        let t = to.last();
        let k = find_table(from, t.name, 0);
        if k >= 0 && table_diff(from[k], t).len() > 0 {
            prev + seq!["-- 修改表: "@ + t.name] + table_diff(from[k], t) + seq![Seq::<char>::empty()]
        } else {
            prev
        }
    }
}

pub open spec fn diff_lines(from: Seq<TableView>, to: Seq<TableView>, time: Seq<char>) -> Seq<
    Seq<char>,
> {
    header_lines(time) + added_lines(to, from) + dropped_lines(from, to) + modified_lines(to, from)
}

/// The script that turns the tables `from` into the tables `to`, stamped
/// with `time`; empty when no line of it carries a statement.
pub open spec fn mysql_diff(from: Seq<TableView>, to: Seq<TableView>, time: Seq<char>) -> Seq<char> {
    let text = join(diff_lines(from, to, time), "\n"@);
    if meaningful_lines(text) > 0 {
        text
    } else {
        Seq::empty()
    }
}

fn push_lines(dst: &mut Vec<Vec<char>>, src: &Vec<Vec<char>>)
    ensures
        views(final(dst)@) == views(old(dst)@) + views(src@),
{
    let mut k: usize = 0;
    while k < src.len()
        invariant
            k <= src@.len(),
            views(dst@) == views(old(dst)@) + views(src@).take(k as int),
        decreases src@.len() - k,
    {
        let mut line: Vec<char> = Vec::new();
        extend_chars(&mut line, &src[k]);
        proof {
            assert(views(src@).take(k + 1) =~= views(src@).take(k as int).push(src@[k as int]@));
        }
        push_line(dst, line);
        k = k + 1;
    }
    assert(views(src@).take(src@.len() as int) =~= views(src@));
}

fn labelled(label: &str, name: &String) -> (r: Vec<char>)
    ensures
        r@ == label@ + name@,
{
    let mut v = to_chars(label);
    extend_str(&mut v, name.as_str());
    v
}

/// The script that turns `from` into `to`, stamped with `generated_at`.
pub fn generate_mysql_diff_at(from: &Schema, to: &Schema, generated_at: &str) -> (r: String)
    ensures
        r@ == mysql_diff(from@, to@, generated_at@),
{
    let from_t = from.tables();
    let to_t = to.tables();
    let ghost f = from@;
    let ghost t = to@;
    let mut lines: Vec<Vec<char>> = Vec::new();
    push_line(&mut lines, to_chars("-- 数据库架构差异SQL"));
    push_line(&mut lines, labelled("-- 生成时间: ", &String::from_str(generated_at)));
    push_line(&mut lines, Vec::new());
    proof {
        lemma_views_empty();
        assert(views(lines@) =~= header_lines(generated_at@));
    }
    let ghost part0 = views(lines@);
    let mut i: usize = 0;
    while i < to_t.len()
        invariant
            i <= to_t@.len(),
            f == from@,
            t == to@,
            super::types::table_views(to_t@) == t,
            super::types::table_views(from_t@) == f,
            views(lines@) == part0 + added_lines(t.take(i as int), f),
        decreases to_t@.len() - i,
    {
        proof {
            assert(t.take(i + 1).drop_last() =~= t.take(i as int));
            assert(t.take(i + 1).last() == to_t@[i as int]@);
        }
        if !from.contains_key(to_t[i].name.as_str()) {
            push_line(&mut lines, labelled("-- 新增表: ", &to_t[i].name));
            push_line(&mut lines, create_table_chars(&to_t[i]));
            push_line(&mut lines, Vec::new());
        }
        proof {
            assert(views(lines@) =~= part0 + added_lines(t.take(i + 1), f));
        }
        i = i + 1;
    }
    assert(t.take(to_t@.len() as int) =~= t);
    let ghost part1 = views(lines@);
    let mut i: usize = 0;
    while i < from_t.len()
        invariant
            i <= from_t@.len(),
            f == from@,
            t == to@,
            super::types::table_views(to_t@) == t,
            super::types::table_views(from_t@) == f,
            views(lines@) == part1 + dropped_lines(f.take(i as int), t),
        decreases from_t@.len() - i,
    {
        proof {
            assert(f.take(i + 1).drop_last() =~= f.take(i as int));
            assert(f.take(i + 1).last() == from_t@[i as int]@);
        }
        if !to.contains_key(from_t[i].name.as_str()) {
            push_line(&mut lines, labelled("-- 删除表: ", &from_t[i].name));
            let mut d = to_chars("DROP TABLE IF EXISTS ");
            d.push('`');
            extend_str(&mut d, from_t[i].name.as_str());
            d.push('`');
            d.push(';');
            proof {
                reveal_strlit(";");
                assert(d@ =~= "DROP TABLE IF EXISTS "@ + ticked(f[i as int].name) + ";"@);
            }
            push_line(&mut lines, d);
            push_line(&mut lines, Vec::new());
        }
        proof {
            assert(views(lines@) =~= part1 + dropped_lines(f.take(i + 1), t));
        }
        i = i + 1;
    }
    assert(f.take(from_t@.len() as int) =~= f);
    let ghost part2 = views(lines@);
    let mut i: usize = 0;
    while i < to_t.len()
        invariant
            i <= to_t@.len(),
            f == from@,
            t == to@,
            super::types::table_views(to_t@) == t,
            super::types::table_views(from_t@) == f,
            views(lines@) == part2 + modified_lines(t.take(i as int), f),
        decreases to_t@.len() - i,
    {
        proof {
            assert(t.take(i + 1).drop_last() =~= t.take(i as int));
            assert(t.take(i + 1).last() == to_t@[i as int]@);
        }
        match from.get(to_t[i].name.as_str()) {
            Some(old_t) => {
                let d = table_diff_lines(old_t, &to_t[i]);
                if d.len() > 0 {
                    push_line(&mut lines, labelled("-- 修改表: ", &to_t[i].name));
                    push_lines(&mut lines, &d);
                    push_line(&mut lines, Vec::new());
                }
            },
            None => {},
        }
        proof {
            assert(views(lines@) =~= part2 + modified_lines(t.take(i + 1), f));
        }
        i = i + 1;
    }
    assert(t.take(to_t@.len() as int) =~= t);
    assert(views(lines@) =~= diff_lines(f, t, generated_at@));
    let nl = to_chars("\n");
    let text = join_chars(&lines, &nl);
    if count_meaningful_lines(&text) > 0 {
        from_chars(&text)
    } else {
        String::new()
    }
}

/// The script that turns `from` into `to`, stamped with the current time.
pub fn generate_mysql_diff(from: &Schema, to: &Schema) -> (r: Result<String, DuckError>)
    ensures
        r matches Ok(s) && exists|time: Seq<char>|
            is_clock_stamp(time) && s@ == mysql_diff(from@, to@, time),
{
    let now = crate::clock::utc_now_text();
    let s = generate_mysql_diff_at(from, to, now.as_str());
    Ok(s)
}

} // verus!
