//! Properties of schema differences that hold for every input: a table or a
//! schema compared with itself needs no statement, a parsed script names each
//! table once, and scripts that define the same tables differ only in
//! comments or layout.
use vstd::prelude::*;
use crate::split::{split_on, join, lemma_split_join};
use crate::text::{trim, trim_start, trim_end, has_prefix, lemma_trim_keeps_head};
use super::types::{ColumnView, IndexView, TableView};
use super::parser::{
    SqlParseError, find_table, names_unique, collect_tables, parse_tables, upsert_table,
    lemma_upsert_keeps_names_unique, parse_create_table, is_create_table,
};
use super::differ::{
    col_named_in, idx_named_in, last_cols, last_idxs, col_pos, idx_pos, add_col_lines,
    drop_col_lines, mod_col_lines, add_idx_lines, drop_idx_lines, mod_idx_lines, column_diffs,
    index_diffs, table_diff, added_lines, dropped_lines, modified_lines, header_lines, diff_lines,
    mysql_diff, is_meaningful, count_meaningful, meaningful_lines, alter, add_index_line,
    drop_index_line,
};
use super::generator::column_sql;
use crate::clock::{is_clock_stamp, is_stamp_char};
use super::generator::column_list;
use super::differ::lemma_idx_pos_range;
use super::generator::{create_parts, opt_text};
use crate::split::{lemma_split_on_concat, lemma_split_on_none};
use super::generator::{schema_diff, version_span, or_unknown, describe_diff, create_table_sql, ticked};

verus! {

pub open spec fn col_names_unique(s: Seq<ColumnView>) -> bool {
    forall|i: int, j: int|
        0 <= i < s.len() && 0 <= j < s.len() && i != j ==> s[i].name != s[j].name
}

pub open spec fn idx_names_unique(s: Seq<IndexView>) -> bool {
    forall|i: int, j: int|
        0 <= i < s.len() && 0 <= j < s.len() && i != j ==> s[i].name != s[j].name
}

/// Lemma: the last definitions of a column list have distinct names, each
/// taken from the list.
pub proof fn lemma_last_cols(s: Seq<ColumnView>)
    ensures
        col_names_unique(last_cols(s)),
        forall|k: int|
            0 <= k < last_cols(s).len() ==> col_named_in(s, #[trigger] last_cols(s)[k].name),
    decreases s.len(),
{
    if s.len() > 0 {
        let rest = s.drop_first();
        lemma_last_cols(rest);
        let l = last_cols(rest);
        let r = last_cols(s);
        assert forall|k: int| 0 <= k < r.len() implies col_named_in(s, #[trigger] r[k].name) by {
            let n = r[k].name;
            if col_named_in(rest, s[0].name) {
                assert(col_named_in(rest, l[k].name));
            } else if k == 0 {
                assert(s[0].name == n);
            } else {
                assert(r[k] == l[k - 1]);
                assert(col_named_in(rest, l[k - 1].name));
            }
            if col_named_in(rest, n) {
                let j = choose|j: int| 0 <= j < rest.len() && #[trigger] rest[j].name == n;
                assert(s[j + 1].name == n);
            } else {
                assert(s[0].name == n);
            }
        }
        if !col_named_in(rest, s[0].name) {
            assert forall|i: int, j: int|
                0 <= i < r.len() && 0 <= j < r.len() && i != j implies r[i].name != r[j].name by {
                if i == 0 {
                    assert(r[j] == l[j - 1]);
                    assert(col_named_in(rest, l[j - 1].name));
                } else if j == 0 {
                    assert(r[i] == l[i - 1]);
                    assert(col_named_in(rest, l[i - 1].name));
                } else {
                    assert(r[i] == l[i - 1]);
                    assert(r[j] == l[j - 1]);
                }
            }
        }
    }
}

/// Lemma: the last definitions of an index list have distinct names, each
/// taken from the list.
pub proof fn lemma_last_idxs(s: Seq<IndexView>)
    ensures
        idx_names_unique(last_idxs(s)),
        forall|k: int|
            0 <= k < last_idxs(s).len() ==> idx_named_in(s, #[trigger] last_idxs(s)[k].name),
    decreases s.len(),
{
    if s.len() > 0 {
        let rest = s.drop_first();
        lemma_last_idxs(rest);
        let l = last_idxs(rest);
        let r = last_idxs(s);
        assert forall|k: int| 0 <= k < r.len() implies idx_named_in(s, #[trigger] r[k].name) by {
            let n = r[k].name;
            if idx_named_in(rest, s[0].name) {
                assert(idx_named_in(rest, l[k].name));
            } else if k == 0 {
                assert(s[0].name == n);
            } else {
                assert(r[k] == l[k - 1]);
                assert(idx_named_in(rest, l[k - 1].name));
            }
            if idx_named_in(rest, n) {
                let j = choose|j: int| 0 <= j < rest.len() && #[trigger] rest[j].name == n;
                assert(s[j + 1].name == n);
            } else {
                assert(s[0].name == n);
            }
        }
        if !idx_named_in(rest, s[0].name) {
            assert forall|i: int, j: int|
                0 <= i < r.len() && 0 <= j < r.len() && i != j implies r[i].name != r[j].name by {
                if i == 0 {
                    assert(r[j] == l[j - 1]);
                    assert(idx_named_in(rest, l[j - 1].name));
                } else if j == 0 {
                    assert(r[i] == l[i - 1]);
                    assert(idx_named_in(rest, l[i - 1].name));
                } else {
                    assert(r[i] == l[i - 1]);
                    assert(r[j] == l[j - 1]);
                }
            }
        }
    }
}

proof fn lemma_col_pos_at(s: Seq<ColumnView>, k: int, i: int)
    requires
        col_names_unique(s),
        0 <= i <= k < s.len(),
    ensures
        col_pos(s, s[k].name, i) == k,
    decreases k - i,
{
    if i < k {
        assert(s[i].name != s[k].name);
        lemma_col_pos_at(s, k, i + 1);
    }
}

proof fn lemma_idx_pos_at(s: Seq<IndexView>, k: int, i: int)
    requires
        idx_names_unique(s),
        0 <= i <= k < s.len(),
    ensures
        idx_pos(s, s[k].name, i) == k,
    decreases k - i,
{
    if i < k {
        assert(s[i].name != s[k].name);
        lemma_idx_pos_at(s, k, i + 1);
    }
}

proof fn lemma_col_lines_self(o: Seq<ColumnView>, m: int, tn: Seq<char>)
    requires
        col_names_unique(o),
        0 <= m <= o.len(),
    ensures
        add_col_lines(o.take(m), o, tn) == Seq::<Seq<char>>::empty(),
        drop_col_lines(o.take(m), o, tn) == Seq::<Seq<char>>::empty(),
        mod_col_lines(o.take(m), o, tn) == Seq::<Seq<char>>::empty(),
    decreases m,
{
    if m > 0 {
        lemma_col_lines_self(o, m - 1, tn);
        assert(o.take(m).drop_last() =~= o.take(m - 1));
        assert(o.take(m).last() == o[m - 1]);
        lemma_col_pos_at(o, m - 1, 0);
    }
}

proof fn lemma_idx_lines_self(o: Seq<IndexView>, m: int, tn: Seq<char>)
    requires
        idx_names_unique(o),
        0 <= m <= o.len(),
    ensures
        add_idx_lines(o.take(m), o, tn) == Seq::<Seq<char>>::empty(),
        drop_idx_lines(o.take(m), o, tn) == Seq::<Seq<char>>::empty(),
        mod_idx_lines(o.take(m), o, tn) == Seq::<Seq<char>>::empty(),
    decreases m,
{
    if m > 0 {
        lemma_idx_lines_self(o, m - 1, tn);
        assert(o.take(m).drop_last() =~= o.take(m - 1));
        assert(o.take(m).last() == o[m - 1]);
        lemma_idx_pos_at(o, m - 1, 0);
    }
}

/// Law: a table compared with itself needs no statement.
pub proof fn law_table_diff_self(t: TableView)
    ensures
        table_diff(t, t) == Seq::<Seq<char>>::empty(),
{
    let o = last_cols(t.columns);
    lemma_last_cols(t.columns);
    lemma_col_lines_self(o, o.len() as int, t.name);
    assert(o.take(o.len() as int) =~= o);
    let x = last_idxs(t.indexes);
    lemma_last_idxs(t.indexes);
    lemma_idx_lines_self(x, x.len() as int, t.name);
    assert(x.take(x.len() as int) =~= x);
    assert(column_diffs(t, t) =~= Seq::<Seq<char>>::empty());
    assert(index_diffs(t, t) =~= Seq::<Seq<char>>::empty());
    assert(table_diff(t, t) =~= Seq::<Seq<char>>::empty());
}

proof fn lemma_find_table_at(ts: Seq<TableView>, k: int, i: int)
    requires
        names_unique(ts),
        0 <= i <= k < ts.len(),
    ensures
        find_table(ts, ts[k].name, i) == k,
    decreases k - i,
{
    if i < k {
        assert(ts[i].name != ts[k].name);
        lemma_find_table_at(ts, k, i + 1);
    }
}

proof fn lemma_table_lines_self(ts: Seq<TableView>, m: int)
    requires
        names_unique(ts),
        0 <= m <= ts.len(),
    ensures
        added_lines(ts.take(m), ts) == Seq::<Seq<char>>::empty(),
        dropped_lines(ts.take(m), ts) == Seq::<Seq<char>>::empty(),
        modified_lines(ts.take(m), ts) == Seq::<Seq<char>>::empty(),
    decreases m,
{
    if m > 0 {
        lemma_table_lines_self(ts, m - 1);
        assert(ts.take(m).drop_last() =~= ts.take(m - 1));
        assert(ts.take(m).last() == ts[m - 1]);
        lemma_find_table_at(ts, m - 1, 0);
        law_table_diff_self(ts[m - 1]);
    }
}

proof fn lemma_comment_line(s: Seq<char>)
    requires
        s.len() >= 2,
        s[0] == '-',
        s[1] == '-',
    ensures
        !is_meaningful(s),
{
    lemma_trim_keeps_head(s);
    reveal_strlit("--");
    assert(trim(s).take(2) =~= "--"@);
}

/// Law: a schema compared with itself gives an empty script, for any time
/// stamp of one line.
pub proof fn law_same_tables_empty_diff(ts: Seq<TableView>, time: Seq<char>)
    requires
        names_unique(ts),
        !time.contains('\n'),
    ensures
        mysql_diff(ts, ts, time) == Seq::<char>::empty(),
{
    lemma_table_lines_self(ts, ts.len() as int);
    assert(ts.take(ts.len() as int) =~= ts);
    assert(diff_lines(ts, ts, time) =~= header_lines(time));
    lemma_header_only(ts, ts, time);
}

/// Lemma: a script whose lines are the header alone is empty.
proof fn lemma_header_only(from: Seq<TableView>, to: Seq<TableView>, time: Seq<char>)
    requires
        !time.contains('\n'),
        diff_lines(from, to, time) == header_lines(time),
    ensures
        mysql_diff(from, to, time) == Seq::<char>::empty(),
{
    let h = header_lines(time);
    reveal_strlit("\n");
    reveal_strlit("-- 数据库架构差异SQL");
    reveal_strlit("-- 生成时间: ");
    assert("\n"@ =~= seq!['\n']);
    let a = "-- 数据库架构差异SQL"@;
    let p = "-- 生成时间: "@;
    let b = p + time;
    let e = Seq::<char>::empty();
    assert forall|k: int| 0 <= k < a.len() implies a[k] != '\n' by {}
    assert forall|k: int| 0 <= k < p.len() implies p[k] != '\n' by {}
    assert forall|k: int| 0 <= k < b.len() implies b[k] != '\n' by {
        if k < p.len() {
            assert(b[k] == p[k]);
        } else {
            assert(b[k] == time[k - p.len()]);
        }
    }
    assert forall|k: int| 0 <= k < h.len() implies !(#[trigger] h[k]).contains('\n') by {
        if k == 0 {
            assert(h[k] == a);
        } else if k == 1 {
            assert(h[k] == b);
        } else {
            assert(h[k] == e);
        }
    }
    lemma_split_join(h, '\n');
    lemma_comment_line(a);
    lemma_comment_line(b);
    assert(trim(e) == e);
    assert(!is_meaningful(e));
    assert(h.drop_last().drop_last().drop_last() =~= Seq::<Seq<char>>::empty());
    assert(count_meaningful(h.drop_last().drop_last().drop_last()) == 0);
    assert(h.drop_last().drop_last().last() == a);
    assert(count_meaningful(h.drop_last().drop_last()) == 0);
    assert(h.drop_last().last() == b);
    assert(count_meaningful(h.drop_last()) == 0);
    assert(h.last() == e);
    assert(count_meaningful(h) == 0);
    assert(meaningful_lines(join(diff_lines(from, to, time), "\n"@)) == 0);
}

proof fn lemma_collect_names_unique(stmts: Seq<Seq<char>>)
    ensures
        collect_tables(stmts) matches Ok(ts) ==> names_unique(ts),
    decreases stmts.len(),
{
    if stmts.len() > 0 {
        lemma_collect_names_unique(stmts.drop_last());
        match collect_tables(stmts.drop_last()) {
            Ok(ts) => {
                if is_create_table(stmts.last()) {
                    match parse_create_table(stmts.last()) {
                        Ok(t) => lemma_upsert_keeps_names_unique(ts, t),
                        Err(_) => {},
                    }
                }
            },
            Err(_) => {},
        }
    }
}

/// Law: the tables read from a script have distinct names.
pub proof fn law_parsed_names_unique(sql: Seq<char>)
    ensures
        parse_tables(sql) matches Ok(ts) ==> names_unique(ts),
{
    lemma_collect_names_unique(
        super::parser::scoped_statements(
            crate::sql_text::sql_statements(super::parser::strip_comment_lines(sql)),
        ),
    );
}

/// Law: scripts equal up to surrounding white space give an empty script
/// described as unchanged.
pub proof fn law_same_script_no_change(
    from_sql: Seq<char>,
    to_sql: Seq<char>,
    fv: Option<Seq<char>>,
    tv: Seq<char>,
    time: Seq<char>,
)
    requires
        trim(from_sql) == trim(to_sql),
    ensures
        schema_diff(Some(from_sql), to_sql, fv, tv, time) == Ok::<
            (Seq<char>, Seq<char>),
            SqlParseError,
        >((Seq::<char>::empty(), version_span(or_unknown(fv), tv) + ": 无变化"@)),
{
}

/// Law: scripts that differ as text but define the same tables give an empty
/// script described as a change of comments or layout only.
pub proof fn law_same_tables_format_only(
    from_sql: Seq<char>,
    to_sql: Seq<char>,
    fv: Option<Seq<char>>,
    tv: Seq<char>,
    time: Seq<char>,
)
    requires
        trim(from_sql) != trim(to_sql),
        parse_tables(from_sql) is Ok,
        parse_tables(from_sql) == parse_tables(to_sql),
        !time.contains('\n'),
    ensures
        schema_diff(Some(from_sql), to_sql, fv, tv, time) == Ok::<
            (Seq<char>, Seq<char>),
            SqlParseError,
        >(
            (
                Seq::<char>::empty(),
                version_span(or_unknown(fv), tv) + ": 仅有注释或格式变化，无实际架构差异"@,
            ),
        ),
{
    let ts = parse_tables(from_sql)->Ok_0;
    law_parsed_names_unique(from_sql);
    law_same_tables_empty_diff(ts, time);
    let e = Seq::<char>::empty();
    assert(trim_start(e) == e);
    assert(trim_end(e) == e);
    assert(trim(e).len() == 0);
}

proof fn lemma_added_lines_hold(to: Seq<TableView>, from: Seq<TableView>, k: int)
    requires
        0 <= k < to.len(),
        find_table(from, to[k].name, 0) < 0,
    ensures
        added_lines(to, from).contains(create_table_sql(to[k])),
    decreases to.len(),
{
    let prev = added_lines(to.drop_last(), from);
    if k == to.len() - 1 {
        let sec = seq!["-- 新增表: "@ + to[k].name, create_table_sql(to[k]), Seq::<char>::empty()];
        assert((prev + sec)[prev.len() as int + 1] == create_table_sql(to[k]));
    } else {
        assert(to.drop_last()[k] == to[k]);
        lemma_added_lines_hold(to.drop_last(), from, k);
        let j = choose|j: int| 0 <= j < prev.len() && prev[j] == create_table_sql(to[k]);
        let t = to.last();
        if find_table(from, t.name, 0) < 0 {
            let sec = seq!["-- 新增表: "@ + t.name, create_table_sql(t), Seq::<char>::empty()];
            assert((prev + sec)[j] == prev[j]);
        }
    }
}

proof fn lemma_dropped_lines_hold(from: Seq<TableView>, to: Seq<TableView>, k: int)
    requires
        0 <= k < from.len(),
        find_table(to, from[k].name, 0) < 0,
    ensures
        dropped_lines(from, to).contains("DROP TABLE IF EXISTS "@ + ticked(from[k].name) + ";"@),
    decreases from.len(),
{
    let prev = dropped_lines(from.drop_last(), to);
    let line = "DROP TABLE IF EXISTS "@ + ticked(from[k].name) + ";"@;
    if k == from.len() - 1 {
        let sec = seq!["-- 删除表: "@ + from[k].name, line, Seq::<char>::empty()];
        assert((prev + sec)[prev.len() as int + 1] == line);
    } else {
        assert(from.drop_last()[k] == from[k]);
        lemma_dropped_lines_hold(from.drop_last(), to, k);
        let j = choose|j: int| 0 <= j < prev.len() && prev[j] == line;
        let t = from.last();
        if find_table(to, t.name, 0) < 0 {
            let sec = seq![
                "-- 删除表: "@ + t.name,
                "DROP TABLE IF EXISTS "@ + ticked(t.name) + ";"@,
                Seq::<char>::empty(),
            ];
            assert((prev + sec)[j] == prev[j]);
        }
    }
}

/// Law: the difference script creates each table that only the new schema
/// has, and drops each table that only the old one has.
pub proof fn law_added_and_dropped_tables(from: Seq<TableView>, to: Seq<TableView>, time: Seq<char>)
    ensures
        forall|k: int|
            0 <= k < to.len() && find_table(from, to[k].name, 0) < 0 ==> diff_lines(from, to, time).contains(
                create_table_sql(#[trigger] to[k]),
            ),
        forall|k: int|
            0 <= k < from.len() && find_table(to, from[k].name, 0) < 0 ==> diff_lines(from, to, time).contains(
                "DROP TABLE IF EXISTS "@ + ticked((#[trigger] from[k]).name) + ";"@,
            ),
{
    let h = header_lines(time);
    let a = added_lines(to, from);
    let d = dropped_lines(from, to);
    let m = modified_lines(to, from);
    assert forall|k: int|
        0 <= k < to.len() && find_table(from, to[k].name, 0) < 0 implies diff_lines(from, to, time).contains(
            create_table_sql(#[trigger] to[k]),
        ) by {
        lemma_added_lines_hold(to, from, k);
        let j = choose|j: int| 0 <= j < a.len() && a[j] == create_table_sql(to[k]);
        assert(diff_lines(from, to, time) == h + a + d + m);
        assert((h + a + d + m)[h.len() + j] == a[j]);
    }
    assert forall|k: int|
        0 <= k < from.len() && find_table(to, from[k].name, 0) < 0 implies diff_lines(from, to, time).contains(
            "DROP TABLE IF EXISTS "@ + ticked((#[trigger] from[k]).name) + ";"@,
        ) by {
        lemma_dropped_lines_hold(from, to, k);
        let line = "DROP TABLE IF EXISTS "@ + ticked(from[k].name) + ";"@;
        let j = choose|j: int| 0 <= j < d.len() && d[j] == line;
        assert(diff_lines(from, to, time) == h + a + d + m);
        assert((h + a + d + m)[h.len() + a.len() + j] == d[j]);
    }
}

proof fn lemma_add_col_lines_hold(news: Seq<ColumnView>, olds: Seq<ColumnView>, tn: Seq<char>, k: int)
    requires
        0 <= k < news.len(),
        col_pos(olds, news[k].name, 0) < 0,
    ensures
        add_col_lines(news, olds, tn).contains(alter(tn) + " ADD COLUMN "@ + column_sql(news[k]) + ";"@),
    decreases news.len(),
{
    let prev = add_col_lines(news.drop_last(), olds, tn);
    let line = alter(tn) + " ADD COLUMN "@ + column_sql(news[k]) + ";"@;
    if k == news.len() - 1 {
        assert(prev.push(line)[prev.len() as int] == line);
    } else {
        assert(news.drop_last()[k] == news[k]);
        lemma_add_col_lines_hold(news.drop_last(), olds, tn, k);
        let j = choose|j: int| 0 <= j < prev.len() && prev[j] == line;
        let c = news.last();
        if col_pos(olds, c.name, 0) < 0 {
            assert(prev.push(alter(tn) + " ADD COLUMN "@ + column_sql(c) + ";"@)[j] == prev[j]);
        }
    }
}

proof fn lemma_drop_col_lines_hold(olds: Seq<ColumnView>, news: Seq<ColumnView>, tn: Seq<char>, k: int)
    requires
        0 <= k < olds.len(),
        col_pos(news, olds[k].name, 0) < 0,
    ensures
        drop_col_lines(olds, news, tn).contains(alter(tn) + " DROP COLUMN "@ + ticked(olds[k].name) + ";"@),
    decreases olds.len(),
{
    let prev = drop_col_lines(olds.drop_last(), news, tn);
    let line = alter(tn) + " DROP COLUMN "@ + ticked(olds[k].name) + ";"@;
    if k == olds.len() - 1 {
        assert(prev.push(line)[prev.len() as int] == line);
    } else {
        assert(olds.drop_last()[k] == olds[k]);
        lemma_drop_col_lines_hold(olds.drop_last(), news, tn, k);
        let j = choose|j: int| 0 <= j < prev.len() && prev[j] == line;
        let c = olds.last();
        if col_pos(news, c.name, 0) < 0 {
            assert(prev.push(alter(tn) + " DROP COLUMN "@ + ticked(c.name) + ";"@)[j] == prev[j]);
        }
    }
}

/// Law: the statements for a table add each column (by its last
/// definition) that only the new table has, and drop each that only the
/// old table has.
pub proof fn law_added_and_dropped_columns(old_t: TableView, new_t: TableView)
    ensures
        forall|k: int|
            0 <= k < last_cols(new_t.columns).len() && col_pos(
                last_cols(old_t.columns),
                last_cols(new_t.columns)[k].name,
                0,
            ) < 0 ==> table_diff(old_t, new_t).contains(
                alter(new_t.name) + " ADD COLUMN "@ + column_sql(#[trigger] last_cols(new_t.columns)[k]) + ";"@,
            ),
        forall|k: int|
            0 <= k < last_cols(old_t.columns).len() && col_pos(
                last_cols(new_t.columns),
                last_cols(old_t.columns)[k].name,
                0,
            ) < 0 ==> table_diff(old_t, new_t).contains(
                alter(new_t.name) + " DROP COLUMN "@ + ticked((#[trigger] last_cols(old_t.columns)[k]).name) + ";"@,
            ),
{
    let o = last_cols(old_t.columns);
    let n = last_cols(new_t.columns);
    let a = add_col_lines(n, o, new_t.name);
    let d = drop_col_lines(o, n, new_t.name);
    let m = mod_col_lines(n, o, new_t.name);
    let x = index_diffs(old_t, new_t);
    assert(table_diff(old_t, new_t) == a + d + m + x);
    assert forall|k: int|
        0 <= k < n.len() && col_pos(o, n[k].name, 0) < 0 implies table_diff(old_t, new_t).contains(
            alter(new_t.name) + " ADD COLUMN "@ + column_sql(#[trigger] n[k]) + ";"@,
        ) by {
        lemma_add_col_lines_hold(n, o, new_t.name, k);
        let j = choose|j: int| 0 <= j < a.len() && a[j] == alter(new_t.name) + " ADD COLUMN "@ + column_sql(n[k]) + ";"@;
        assert((a + d + m + x)[j] == a[j]);
    }
    assert forall|k: int|
        0 <= k < o.len() && col_pos(n, o[k].name, 0) < 0 implies table_diff(old_t, new_t).contains(
            alter(new_t.name) + " DROP COLUMN "@ + ticked((#[trigger] o[k]).name) + ";"@,
        ) by {
        lemma_drop_col_lines_hold(o, n, new_t.name, k);
        let j = choose|j: int| 0 <= j < d.len() && d[j] == alter(new_t.name) + " DROP COLUMN "@ + ticked(o[k].name) + ";"@;
        assert((a + d + m + x)[a.len() + j] == d[j]);
    }
}


proof fn lemma_mod_col_lines_hold(news: Seq<ColumnView>, olds: Seq<ColumnView>, tn: Seq<char>, k: int)
    requires
        0 <= k < news.len(),
        col_pos(olds, news[k].name, 0) >= 0,
        olds[col_pos(olds, news[k].name, 0)] != news[k],
    ensures
        mod_col_lines(news, olds, tn).contains(alter(tn) + " MODIFY COLUMN "@ + column_sql(news[k]) + ";"@),
    decreases news.len(),
{
    let prev = mod_col_lines(news.drop_last(), olds, tn);
    let line = alter(tn) + " MODIFY COLUMN "@ + column_sql(news[k]) + ";"@;
    if k == news.len() - 1 {
        assert(prev.push(line)[prev.len() as int] == line);
    } else {
        assert(news.drop_last()[k] == news[k]);
        lemma_mod_col_lines_hold(news.drop_last(), olds, tn, k);
        let j = choose|j: int| 0 <= j < prev.len() && prev[j] == line;
        let c = news.last();
        let q = col_pos(olds, c.name, 0);
        if q >= 0 && olds[q] != c {
            assert(prev.push(alter(tn) + " MODIFY COLUMN "@ + column_sql(c) + ";"@)[j] == prev[j]);
        }
    }
}

/// Law: the statements for a table redefine each column that both tables
/// have (by its last definition) when its definition changed.
pub proof fn law_modified_columns(old_t: TableView, new_t: TableView)
    ensures
        forall|k: int|
            0 <= k < last_cols(new_t.columns).len() && col_pos(
                last_cols(old_t.columns),
                last_cols(new_t.columns)[k].name,
                0,
            ) >= 0 && last_cols(old_t.columns)[col_pos(
                last_cols(old_t.columns),
                last_cols(new_t.columns)[k].name,
                0,
            )] != last_cols(new_t.columns)[k] ==> table_diff(old_t, new_t).contains(
                alter(new_t.name) + " MODIFY COLUMN "@ + column_sql(#[trigger] last_cols(new_t.columns)[k]) + ";"@,
            ),
{
    let o = last_cols(old_t.columns);
    let n = last_cols(new_t.columns);
    let a = add_col_lines(n, o, new_t.name);
    let d = drop_col_lines(o, n, new_t.name);
    let m = mod_col_lines(n, o, new_t.name);
    let x = index_diffs(old_t, new_t);
    assert(table_diff(old_t, new_t) == a + d + m + x);
    assert forall|k: int|
        0 <= k < n.len() && col_pos(o, n[k].name, 0) >= 0 && o[col_pos(o, n[k].name, 0)] != n[k]
        implies table_diff(old_t, new_t).contains(
            alter(new_t.name) + " MODIFY COLUMN "@ + column_sql(#[trigger] n[k]) + ";"@,
        ) by {
        lemma_mod_col_lines_hold(n, o, new_t.name, k);
        let j = choose|j: int| 0 <= j < m.len() && m[j] == alter(new_t.name) + " MODIFY COLUMN "@ + column_sql(n[k]) + ";"@;
        assert((a + d + m + x)[a.len() + d.len() + j] == m[j]);
    }
}

proof fn lemma_add_idx_lines_hold(news: Seq<IndexView>, olds: Seq<IndexView>, tn: Seq<char>, k: int)
    requires
        0 <= k < news.len(),
        idx_pos(olds, news[k].name, 0) < 0,
    ensures
        add_idx_lines(news, olds, tn).contains(add_index_line(tn, news[k])),
    decreases news.len(),
{
    let prev = add_idx_lines(news.drop_last(), olds, tn);
    let line = add_index_line(tn, news[k]);
    if k == news.len() - 1 {
        assert(prev.push(line)[prev.len() as int] == line);
    } else {
        assert(news.drop_last()[k] == news[k]);
        lemma_add_idx_lines_hold(news.drop_last(), olds, tn, k);
        let j = choose|j: int| 0 <= j < prev.len() && prev[j] == line;
        let x = news.last();
        if idx_pos(olds, x.name, 0) < 0 {
            assert(prev.push(add_index_line(tn, x))[j] == prev[j]);
        }
    }
}

proof fn lemma_drop_idx_lines_hold(olds: Seq<IndexView>, news: Seq<IndexView>, tn: Seq<char>, k: int)
    requires
        0 <= k < olds.len(),
        idx_pos(news, olds[k].name, 0) < 0,
    ensures
        drop_idx_lines(olds, news, tn).contains(drop_index_line(tn, olds[k])),
    decreases olds.len(),
{
    let prev = drop_idx_lines(olds.drop_last(), news, tn);
    let line = drop_index_line(tn, olds[k]);
    if k == olds.len() - 1 {
        assert(prev.push(line)[prev.len() as int] == line);
    } else {
        assert(olds.drop_last()[k] == olds[k]);
        lemma_drop_idx_lines_hold(olds.drop_last(), news, tn, k);
        let j = choose|j: int| 0 <= j < prev.len() && prev[j] == line;
        let x = olds.last();
        if idx_pos(news, x.name, 0) < 0 {
            assert(prev.push(drop_index_line(tn, x))[j] == prev[j]);
        }
    }
}

proof fn lemma_mod_idx_lines_hold(news: Seq<IndexView>, olds: Seq<IndexView>, tn: Seq<char>, k: int)
    requires
        0 <= k < news.len(),
        idx_pos(olds, news[k].name, 0) >= 0,
        olds[idx_pos(olds, news[k].name, 0)] != news[k],
    ensures
        mod_idx_lines(news, olds, tn).contains(
            drop_index_line(tn, olds[idx_pos(olds, news[k].name, 0)]),
        ),
        mod_idx_lines(news, olds, tn).contains(add_index_line(tn, news[k])),
    decreases news.len(),
{
    let prev = mod_idx_lines(news.drop_last(), olds, tn);
    let dl = drop_index_line(tn, olds[idx_pos(olds, news[k].name, 0)]);
    let al = add_index_line(tn, news[k]);
    if k == news.len() - 1 {
        let r = prev.push(dl).push(al);
        assert(r[prev.len() as int] == dl);
        assert(r[prev.len() + 1int] == al);
    } else {
        assert(news.drop_last()[k] == news[k]);
        lemma_mod_idx_lines_hold(news.drop_last(), olds, tn, k);
        let x = news.last();
        let q = idx_pos(olds, x.name, 0);
        if q >= 0 && olds[q] != x {
            let r = prev.push(drop_index_line(tn, olds[q])).push(add_index_line(tn, x));
            let j1 = choose|j: int| 0 <= j < prev.len() && prev[j] == dl;
            let j2 = choose|j: int| 0 <= j < prev.len() && prev[j] == al;
            assert(r[j1] == prev[j1]);
            assert(r[j2] == prev[j2]);
        }
    }
}

/// Law: the statements for a table add each index (by its last definition)
/// that only the new table has, drop each that only the old table has, and
/// drop and add again each that both have with different definitions.
pub proof fn law_index_changes(old_t: TableView, new_t: TableView)
    ensures
        forall|k: int|
            0 <= k < last_idxs(new_t.indexes).len() && idx_pos(
                last_idxs(old_t.indexes),
                last_idxs(new_t.indexes)[k].name,
                0,
            ) < 0 ==> table_diff(old_t, new_t).contains(
                add_index_line(new_t.name, #[trigger] last_idxs(new_t.indexes)[k]),
            ),
        forall|k: int|
            0 <= k < last_idxs(old_t.indexes).len() && idx_pos(
                last_idxs(new_t.indexes),
                last_idxs(old_t.indexes)[k].name,
                0,
            ) < 0 ==> table_diff(old_t, new_t).contains(
                drop_index_line(new_t.name, #[trigger] last_idxs(old_t.indexes)[k]),
            ),
        forall|k: int|
            0 <= k < last_idxs(new_t.indexes).len() && idx_pos(
                last_idxs(old_t.indexes),
                last_idxs(new_t.indexes)[k].name,
                0,
            ) >= 0 && last_idxs(old_t.indexes)[idx_pos(
                last_idxs(old_t.indexes),
                last_idxs(new_t.indexes)[k].name,
                0,
            )] != last_idxs(new_t.indexes)[k] ==> table_diff(old_t, new_t).contains(
                drop_index_line(
                    new_t.name,
                    last_idxs(old_t.indexes)[idx_pos(
                        last_idxs(old_t.indexes),
                        last_idxs(new_t.indexes)[k].name,
                        0,
                    )],
                ),
            ) && table_diff(old_t, new_t).contains(
                add_index_line(new_t.name, #[trigger] last_idxs(new_t.indexes)[k]),
            ),
{
    let o = last_idxs(old_t.indexes);
    let n = last_idxs(new_t.indexes);
    let tn = new_t.name;
    let c = column_diffs(old_t, new_t);
    let a = add_idx_lines(n, o, tn);
    let d = drop_idx_lines(o, n, tn);
    let m = mod_idx_lines(n, o, tn);
    assert(table_diff(old_t, new_t) == c + (a + d + m));
    assert(c + (a + d + m) == c + a + d + m);
    assert forall|k: int| 0 <= k < n.len() && idx_pos(o, n[k].name, 0) < 0 implies table_diff(
        old_t,
        new_t,
    ).contains(add_index_line(tn, #[trigger] n[k])) by {
        lemma_add_idx_lines_hold(n, o, tn, k);
        let j = choose|j: int| 0 <= j < a.len() && a[j] == add_index_line(tn, n[k]);
        assert((c + a + d + m)[c.len() + j] == a[j]);
    }
    assert forall|k: int| 0 <= k < o.len() && idx_pos(n, o[k].name, 0) < 0 implies table_diff(
        old_t,
        new_t,
    ).contains(drop_index_line(tn, #[trigger] o[k])) by {
        lemma_drop_idx_lines_hold(o, n, tn, k);
        let j = choose|j: int| 0 <= j < d.len() && d[j] == drop_index_line(tn, o[k]);
        assert((c + a + d + m)[c.len() + a.len() + j] == d[j]);
    }
    assert forall|k: int|
        0 <= k < n.len() && idx_pos(o, n[k].name, 0) >= 0 && o[idx_pos(o, n[k].name, 0)] != n[k]
        implies table_diff(old_t, new_t).contains(
            drop_index_line(tn, o[idx_pos(o, n[k].name, 0)]),
        ) && table_diff(old_t, new_t).contains(add_index_line(tn, #[trigger] n[k])) by {
        lemma_mod_idx_lines_hold(n, o, tn, k);
        let dl = drop_index_line(tn, o[idx_pos(o, n[k].name, 0)]);
        let al = add_index_line(tn, n[k]);
        let j1 = choose|j: int| 0 <= j < m.len() && m[j] == dl;
        let j2 = choose|j: int| 0 <= j < m.len() && m[j] == al;
        assert((c + a + d + m)[c.len() + a.len() + d.len() + j1] == m[j1]);
        assert((c + a + d + m)[c.len() + a.len() + d.len() + j2] == m[j2]);
    }
}


/// Law: a schema compared with itself gives an empty script whatever time
/// the clock writes into its header.
pub proof fn law_unchanged_schema_any_stamp(ts: Seq<TableView>, time: Seq<char>)
    requires
        names_unique(ts),
        is_clock_stamp(time),
    ensures
        mysql_diff(ts, ts, time) == Seq::<char>::empty(),
{
    assert(!time.contains('\n')) by {
        if time.contains('\n') {
            let i = choose|i: int| 0 <= i < time.len() && time[i] == '\n';
            assert(is_stamp_char(time[i]));
        }
    }
    law_same_tables_empty_diff(ts, time);
}


proof fn lemma_add_col_lines_none(news: Seq<ColumnView>, olds: Seq<ColumnView>, tn: Seq<char>)
    requires
        forall|k: int| 0 <= k < news.len() ==> col_pos(olds, (#[trigger] news[k]).name, 0) >= 0,
    ensures
        add_col_lines(news, olds, tn).len() == 0,
    decreases news.len(),
{
    if news.len() > 0 {
        assert forall|k: int| 0 <= k < news.drop_last().len() implies col_pos(
            olds,
            (#[trigger] news.drop_last()[k]).name,
            0,
        ) >= 0 by {
            assert(news.drop_last()[k] == news[k]);
        }
        lemma_add_col_lines_none(news.drop_last(), olds, tn);
        assert(news.last() == news[news.len() - 1]);
    }
}

proof fn lemma_drop_col_lines_none(olds: Seq<ColumnView>, news: Seq<ColumnView>, tn: Seq<char>)
    requires
        forall|k: int| 0 <= k < olds.len() ==> col_pos(news, (#[trigger] olds[k]).name, 0) >= 0,
    ensures
        drop_col_lines(olds, news, tn).len() == 0,
    decreases olds.len(),
{
    if olds.len() > 0 {
        assert forall|k: int| 0 <= k < olds.drop_last().len() implies col_pos(
            news,
            (#[trigger] olds.drop_last()[k]).name,
            0,
        ) >= 0 by {
            assert(olds.drop_last()[k] == olds[k]);
        }
        lemma_drop_col_lines_none(olds.drop_last(), news, tn);
        assert(olds.last() == olds[olds.len() - 1]);
    }
}

proof fn lemma_mod_col_lines_none(news: Seq<ColumnView>, olds: Seq<ColumnView>, tn: Seq<char>)
    requires
        forall|k: int|
            0 <= k < news.len() && col_pos(olds, (#[trigger] news[k]).name, 0) >= 0 ==> olds[col_pos(
                olds,
                news[k].name,
                0,
            )] == news[k],
    ensures
        mod_col_lines(news, olds, tn).len() == 0,
    decreases news.len(),
{
    if news.len() > 0 {
        assert forall|k: int|
            0 <= k < news.drop_last().len() && col_pos(olds, (#[trigger] news.drop_last()[k]).name, 0)
                >= 0 implies olds[col_pos(olds, news.drop_last()[k].name, 0)]
            == news.drop_last()[k] by {
            assert(news.drop_last()[k] == news[k]);
        }
        lemma_mod_col_lines_none(news.drop_last(), olds, tn);
        assert(news.last() == news[news.len() - 1]);
    }
}

/// Law: the statements for the columns of a table are none exactly when
/// each column of the new table (by its last definition) is in the old one
/// with the same definition, and each column of the old table is in the
/// new one.
pub proof fn law_column_diffs_empty(old_t: TableView, new_t: TableView)
    ensures
        ({
            let o = last_cols(old_t.columns);
            let n = last_cols(new_t.columns);
            column_diffs(old_t, new_t).len() == 0 <==> {
                &&& forall|k: int|
                    0 <= k < n.len() ==> col_pos(o, (#[trigger] n[k]).name, 0) >= 0 && o[col_pos(
                        o,
                        n[k].name,
                        0,
                    )] == n[k]
                &&& forall|k: int| 0 <= k < o.len() ==> col_pos(n, (#[trigger] o[k]).name, 0) >= 0
            }
        }),
{
    let o = last_cols(old_t.columns);
    let n = last_cols(new_t.columns);
    let tn = new_t.name;
    let a = add_col_lines(n, o, tn);
    let d = drop_col_lines(o, n, tn);
    let m = mod_col_lines(n, o, tn);
    assert(column_diffs(old_t, new_t) == a + d + m);
    let same = (forall|k: int|
        0 <= k < n.len() ==> col_pos(o, (#[trigger] n[k]).name, 0) >= 0 && o[col_pos(o, n[k].name, 0)]
            == n[k]) && (forall|k: int| 0 <= k < o.len() ==> col_pos(n, (#[trigger] o[k]).name, 0) >= 0);
    if same {
        lemma_add_col_lines_none(n, o, tn);
        lemma_drop_col_lines_none(o, n, tn);
        lemma_mod_col_lines_none(n, o, tn);
    }
    if column_diffs(old_t, new_t).len() == 0 {
        assert forall|k: int| 0 <= k < n.len() implies col_pos(o, (#[trigger] n[k]).name, 0) >= 0
            && o[col_pos(o, n[k].name, 0)] == n[k] by {
            if col_pos(o, n[k].name, 0) < 0 {
                lemma_add_col_lines_hold(n, o, tn, k);
            } else if o[col_pos(o, n[k].name, 0)] != n[k] {
                lemma_mod_col_lines_hold(n, o, tn, k);
            }
        }
        assert forall|k: int| 0 <= k < o.len() implies col_pos(n, (#[trigger] o[k]).name, 0) >= 0 by {
            if col_pos(n, o[k].name, 0) < 0 {
                lemma_drop_col_lines_hold(o, n, tn, k);
            }
        }
    }
}


// ---------------------------------------------------------------------------
// When a difference script is empty.

/// A line that opens with two capital letters, as every statement of a
/// difference script does.
pub open spec fn opens_statement(l: Seq<char>) -> bool {
    l.len() >= 2 && 'A' <= l[0] && l[0] <= 'Z' && 'A' <= l[1] && l[1] <= 'Z'
}

/// Whether two table lists hold the same names, and each table of the new
/// one needs no statement against the old table of its name.
pub open spec fn tables_unchanged(from: Seq<TableView>, to: Seq<TableView>) -> bool {
    &&& forall|k: int|
        0 <= k < to.len() ==> find_table(from, (#[trigger] to[k]).name, 0) >= 0 && table_diff(
            from[find_table(from, to[k].name, 0)],
            to[k],
        ).len() == 0
    &&& forall|k: int| 0 <= k < from.len() ==> find_table(to, (#[trigger] from[k]).name, 0) >= 0
}

proof fn lemma_opens_concat(p: Seq<char>, x: Seq<char>)
    requires
        opens_statement(p),
    ensures
        opens_statement(p + x),
{
    assert((p + x)[0] == p[0]);
    assert((p + x)[1] == p[1]);
}

proof fn lemma_alter_opens(tn: Seq<char>, x: Seq<char>)
    ensures
        opens_statement(alter(tn) + x),
{
    reveal_strlit("ALTER TABLE ");
    let p = "ALTER TABLE "@;
    assert(p[0] == 'A' && p[1] == 'L');
    lemma_opens_concat(p, ticked(tn));
    lemma_opens_concat(alter(tn), x);
}

proof fn lemma_index_lines_open(tn: Seq<char>, ix: IndexView)
    ensures
        opens_statement(add_index_line(tn, ix)),
        opens_statement(drop_index_line(tn, ix)),
{
    let l = column_list(ix.columns);
    if ix.is_primary {
        lemma_alter_opens(tn, " ADD PRIMARY KEY ("@);
        lemma_opens_concat(alter(tn) + " ADD PRIMARY KEY ("@, l);
        lemma_opens_concat(alter(tn) + " ADD PRIMARY KEY ("@ + l, ");"@);
        lemma_alter_opens(tn, " DROP PRIMARY KEY;"@);
    } else if ix.is_unique {
        let a = alter(tn) + " ADD UNIQUE KEY "@;
        lemma_alter_opens(tn, " ADD UNIQUE KEY "@);
        lemma_opens_concat(a, ticked(ix.name));
        lemma_opens_concat(a + ticked(ix.name), " ("@);
        lemma_opens_concat(a + ticked(ix.name) + " ("@, l);
        lemma_opens_concat(a + ticked(ix.name) + " ("@ + l, ");"@);
    } else {
        let a = alter(tn) + " ADD KEY "@;
        lemma_alter_opens(tn, " ADD KEY "@);
        lemma_opens_concat(a, ticked(ix.name));
        lemma_opens_concat(a + ticked(ix.name), " ("@);
        lemma_opens_concat(a + ticked(ix.name) + " ("@, l);
        lemma_opens_concat(a + ticked(ix.name) + " ("@ + l, ");"@);
    }
    if !ix.is_primary {
        lemma_alter_opens(tn, " DROP KEY "@);
        lemma_opens_concat(alter(tn) + " DROP KEY "@, ticked(ix.name));
        lemma_opens_concat(alter(tn) + " DROP KEY "@ + ticked(ix.name), ";"@);
    }
}

proof fn lemma_col_lines_open(news: Seq<ColumnView>, olds: Seq<ColumnView>, tn: Seq<char>)
    ensures
        forall|j: int| 0 <= j < add_col_lines(news, olds, tn).len() ==> opens_statement(
            #[trigger] add_col_lines(news, olds, tn)[j],
        ),
        forall|j: int| 0 <= j < drop_col_lines(news, olds, tn).len() ==> opens_statement(
            #[trigger] drop_col_lines(news, olds, tn)[j],
        ),
        forall|j: int| 0 <= j < mod_col_lines(news, olds, tn).len() ==> opens_statement(
            #[trigger] mod_col_lines(news, olds, tn)[j],
        ),
    decreases news.len(),
{
    if news.len() > 0 {
        lemma_col_lines_open(news.drop_last(), olds, tn);
        let c = news.last();
        let pa = add_col_lines(news.drop_last(), olds, tn);
        let pd = drop_col_lines(news.drop_last(), olds, tn);
        let pm = mod_col_lines(news.drop_last(), olds, tn);
        lemma_alter_opens(tn, " ADD COLUMN "@);
        lemma_opens_concat(alter(tn) + " ADD COLUMN "@, column_sql(c));
        lemma_opens_concat(alter(tn) + " ADD COLUMN "@ + column_sql(c), ";"@);
        lemma_alter_opens(tn, " DROP COLUMN "@);
        lemma_opens_concat(alter(tn) + " DROP COLUMN "@, ticked(c.name));
        lemma_opens_concat(alter(tn) + " DROP COLUMN "@ + ticked(c.name), ";"@);
        lemma_alter_opens(tn, " MODIFY COLUMN "@);
        lemma_opens_concat(alter(tn) + " MODIFY COLUMN "@, column_sql(c));
        lemma_opens_concat(alter(tn) + " MODIFY COLUMN "@ + column_sql(c), ";"@);
        assert forall|j: int| 0 <= j < add_col_lines(news, olds, tn).len() implies opens_statement(
            #[trigger] add_col_lines(news, olds, tn)[j],
        ) by {
            if j < pa.len() {
                assert(add_col_lines(news, olds, tn)[j] == pa[j]);
            }
        }
        assert forall|j: int| 0 <= j < drop_col_lines(news, olds, tn).len() implies opens_statement(
            #[trigger] drop_col_lines(news, olds, tn)[j],
        ) by {
            if j < pd.len() {
                assert(drop_col_lines(news, olds, tn)[j] == pd[j]);
            }
        }
        assert forall|j: int| 0 <= j < mod_col_lines(news, olds, tn).len() implies opens_statement(
            #[trigger] mod_col_lines(news, olds, tn)[j],
        ) by {
            if j < pm.len() {
                assert(mod_col_lines(news, olds, tn)[j] == pm[j]);
            }
        }
    }
}

proof fn lemma_idx_lines_open(news: Seq<IndexView>, olds: Seq<IndexView>, tn: Seq<char>)
    ensures
        forall|j: int| 0 <= j < add_idx_lines(news, olds, tn).len() ==> opens_statement(
            #[trigger] add_idx_lines(news, olds, tn)[j],
        ),
        forall|j: int| 0 <= j < drop_idx_lines(news, olds, tn).len() ==> opens_statement(
            #[trigger] drop_idx_lines(news, olds, tn)[j],
        ),
        forall|j: int| 0 <= j < mod_idx_lines(news, olds, tn).len() ==> opens_statement(
            #[trigger] mod_idx_lines(news, olds, tn)[j],
        ),
    decreases news.len(),
{
    if news.len() > 0 {
        lemma_idx_lines_open(news.drop_last(), olds, tn);
        let x = news.last();
        let pa = add_idx_lines(news.drop_last(), olds, tn);
        let pd = drop_idx_lines(news.drop_last(), olds, tn);
        let pm = mod_idx_lines(news.drop_last(), olds, tn);
        lemma_index_lines_open(tn, x);
        let k = idx_pos(olds, x.name, 0);
        if k >= 0 {
            lemma_idx_pos_range(olds, x.name, 0);
            lemma_index_lines_open(tn, olds[k]);
        }
        assert forall|j: int| 0 <= j < add_idx_lines(news, olds, tn).len() implies opens_statement(
            #[trigger] add_idx_lines(news, olds, tn)[j],
        ) by {
            if j < pa.len() {
                assert(add_idx_lines(news, olds, tn)[j] == pa[j]);
            }
        }
        assert forall|j: int| 0 <= j < drop_idx_lines(news, olds, tn).len() implies opens_statement(
            #[trigger] drop_idx_lines(news, olds, tn)[j],
        ) by {
            if j < pd.len() {
                assert(drop_idx_lines(news, olds, tn)[j] == pd[j]);
            }
        }
        assert forall|j: int| 0 <= j < mod_idx_lines(news, olds, tn).len() implies opens_statement(
            #[trigger] mod_idx_lines(news, olds, tn)[j],
        ) by {
            if j < pm.len() {
                assert(mod_idx_lines(news, olds, tn)[j] == pm[j]);
            }
        }
    }
}

/// Lemma: every statement for a table opens with two capitals.
proof fn lemma_table_diff_opens(old_t: TableView, new_t: TableView, j: int)
    requires
        0 <= j < table_diff(old_t, new_t).len(),
    ensures
        opens_statement(table_diff(old_t, new_t)[j]),
{
    let o = last_cols(old_t.columns);
    let n = last_cols(new_t.columns);
    let oi = last_idxs(old_t.indexes);
    let ni = last_idxs(new_t.indexes);
    let tn = new_t.name;
    let a = add_col_lines(n, o, tn);
    let d = drop_col_lines(o, n, tn);
    let m = mod_col_lines(n, o, tn);
    let ai = add_idx_lines(ni, oi, tn);
    let di = drop_idx_lines(oi, ni, tn);
    let mi = mod_idx_lines(ni, oi, tn);
    lemma_col_lines_open(n, o, tn);
    lemma_col_lines_open(o, n, tn);
    lemma_idx_lines_open(ni, oi, tn);
    lemma_idx_lines_open(oi, ni, tn);
    let all = a + d + m + (ai + di + mi);
    assert(table_diff(old_t, new_t) == all);
    if j < a.len() {
        assert(all[j] == a[j]);
    } else if j < a.len() + d.len() {
        assert(all[j] == d[j - a.len()]);
    } else if j < a.len() + d.len() + m.len() {
        assert(all[j] == m[j - a.len() - d.len()]);
    } else if j < a.len() + d.len() + m.len() + ai.len() {
        assert(all[j] == ai[j - a.len() - d.len() - m.len()]);
    } else if j < a.len() + d.len() + m.len() + ai.len() + di.len() {
        assert(all[j] == di[j - a.len() - d.len() - m.len() - ai.len()]);
    } else {
        assert(all[j] == mi[j - a.len() - d.len() - m.len() - ai.len() - di.len()]);
    }
}


proof fn lemma_modified_lines_hold(to: Seq<TableView>, from: Seq<TableView>, k: int, x: int)
    requires
        0 <= k < to.len(),
        find_table(from, to[k].name, 0) >= 0,
        0 <= x < table_diff(from[find_table(from, to[k].name, 0)], to[k]).len(),
    ensures
        modified_lines(to, from).contains(table_diff(from[find_table(from, to[k].name, 0)], to[k])[x]),
    decreases to.len(),
{
    let prev = modified_lines(to.drop_last(), from);
    let line = table_diff(from[find_table(from, to[k].name, 0)], to[k])[x];
    if k == to.len() - 1 {
        let td = table_diff(from[find_table(from, to[k].name, 0)], to[k]);
        let r = prev + seq!["-- 修改表: "@ + to[k].name] + td + seq![Seq::<char>::empty()];
        assert(r[prev.len() + 1 + x] == line);
    } else {
        assert(to.drop_last()[k] == to[k]);
        lemma_modified_lines_hold(to.drop_last(), from, k, x);
        let j = choose|j: int| 0 <= j < prev.len() && prev[j] == line;
        let t = to.last();
        let q = find_table(from, t.name, 0);
        if q >= 0 && table_diff(from[q], t).len() > 0 {
            let r = prev + seq!["-- 修改表: "@ + t.name] + table_diff(from[q], t) + seq![Seq::<char>::empty()];
            assert(r[j] == prev[j]);
        }
    }
}

proof fn lemma_no_table_lines(from: Seq<TableView>, to: Seq<TableView>, m: int)
    requires
        tables_unchanged(from, to),
        0 <= m <= to.len(),
    ensures
        added_lines(to.take(m), from) == Seq::<Seq<char>>::empty(),
        modified_lines(to.take(m), from) == Seq::<Seq<char>>::empty(),
    decreases m,
{
    if m > 0 {
        lemma_no_table_lines(from, to, m - 1);
        assert(to.take(m).drop_last() =~= to.take(m - 1));
        assert(to.take(m).last() == to[m - 1]);
    }
}

proof fn lemma_no_dropped_lines(from: Seq<TableView>, to: Seq<TableView>, m: int)
    requires
        tables_unchanged(from, to),
        0 <= m <= from.len(),
    ensures
        dropped_lines(from.take(m), to) == Seq::<Seq<char>>::empty(),
    decreases m,
{
    if m > 0 {
        lemma_no_dropped_lines(from, to, m - 1);
        assert(from.take(m).drop_last() =~= from.take(m - 1));
        assert(from.take(m).last() == from[m - 1]);
    }
}

proof fn lemma_count_concat(x: Seq<Seq<char>>, y: Seq<Seq<char>>)
    ensures
        count_meaningful(x + y) == count_meaningful(x) + count_meaningful(y),
    decreases y.len(),
{
    if y.len() == 0 {
        assert(x + y =~= x);
    } else {
        lemma_count_concat(x, y.drop_last());
        assert((x + y).drop_last() =~= x + y.drop_last());
        assert((x + y).last() == y.last());
    }
}

/// Lemma: the first piece, cut at line breaks, of a line that opens a
/// statement carries one.
proof fn lemma_opening_piece(l: Seq<char>)
    requires
        opens_statement(l),
    ensures
        count_meaningful(split_on(l, '\n')) > 0,
{
    let p = match l.index_of_first('\n') {
        Some(i) => l.take(i),
        None => l,
    };
    l.index_of_first_ensures('\n');
    match l.index_of_first('\n') {
        Some(i) => {
            assert(i >= 2);
            assert(!p.contains('\n'));
            assert(l =~= p + seq!['\n'] + l.skip(i + 1));
            lemma_split_on_concat(p, l.skip(i + 1), '\n');
            lemma_split_on_none(p, '\n');
        },
        None => {
            lemma_split_on_none(l, '\n');
        },
    }
    let ps = split_on(l, '\n');
    assert(ps[0] == p);
    assert(p[0] == l[0] && p[1] == l[1]);
    lemma_trim_keeps_head(p);
    assert(!has_prefix(trim(p), "--"@)) by {
        reveal_strlit("--");
        if has_prefix(trim(p), "--"@) {
            assert(trim(p).take(2)[0] == "--"@[0]);
        }
    }
    assert(is_meaningful(p));
    lemma_count_concat(seq![p], ps.drop_first());
    assert(seq![p] + ps.drop_first() =~= ps);
    assert(seq![p].drop_last() =~= Seq::<Seq<char>>::empty());
}

/// Lemma: lines joined by line breaks, one of which opens a statement,
/// carry a statement.
proof fn lemma_joined_opening(ls: Seq<Seq<char>>, j: int)
    requires
        0 <= j < ls.len(),
        opens_statement(ls[j]),
    ensures
        meaningful_lines(join(ls, "\n"@)) > 0,
    decreases ls.len(),
{
    reveal_strlit("\n");
    assert("\n"@ =~= seq!['\n']);
    if ls.len() == 1 {
        lemma_opening_piece(ls[0]);
    } else {
        let d = ls.drop_last();
        lemma_split_on_concat(join(d, "\n"@), ls.last(), '\n');
        lemma_count_concat(split_on(join(d, "\n"@), '\n'), split_on(ls.last(), '\n'));
        if j == ls.len() - 1 {
            lemma_opening_piece(ls.last());
        } else {
            assert(d[j] == ls[j]);
            lemma_joined_opening(d, j);
        }
    }
}

/// Law: the difference script is empty exactly when both schemas hold the
/// same table names and no table needs a statement, whatever time the
/// clock writes into its header.
pub proof fn law_mysql_diff_empty_exactly_when(from: Seq<TableView>, to: Seq<TableView>, time: Seq<char>)
    requires
        is_clock_stamp(time),
    ensures
        mysql_diff(from, to, time) == Seq::<char>::empty() <==> tables_unchanged(from, to),
{
    assert(!time.contains('\n')) by {
        if time.contains('\n') {
            let i = choose|i: int| 0 <= i < time.len() && time[i] == '\n';
            assert(is_stamp_char(time[i]));
        }
    }
    let h = header_lines(time);
    let a = added_lines(to, from);
    let d = dropped_lines(from, to);
    let m = modified_lines(to, from);
    let ls = diff_lines(from, to, time);
    assert(ls == h + a + d + m);
    if tables_unchanged(from, to) {
        lemma_no_table_lines(from, to, to.len() as int);
        lemma_no_dropped_lines(from, to, from.len() as int);
        assert(to.take(to.len() as int) =~= to);
        assert(from.take(from.len() as int) =~= from);
        assert(ls =~= h);
        lemma_header_only(from, to, time);
    } else {
        let j: int = if exists|k: int|
            0 <= k < to.len() && find_table(from, (#[trigger] to[k]).name, 0) < 0 {
            let k = choose|k: int| 0 <= k < to.len() && find_table(from, (#[trigger] to[k]).name, 0) < 0;
            lemma_added_lines_hold(to, from, k);
            let i = choose|i: int| 0 <= i < a.len() && a[i] == create_table_sql(to[k]);
            reveal_strlit("CREATE TABLE ");
            let c = "CREATE TABLE "@;
            assert(c[0] == 'C' && c[1] == 'R');
            lemma_opens_concat(c, ticked(to[k].name));
            lemma_opens_concat(c + ticked(to[k].name), " ("@);
            lemma_opens_concat(c + ticked(to[k].name) + " ("@, join(create_parts(to[k]), ",\n"@));
            lemma_opens_concat(c + ticked(to[k].name) + " ("@ + join(create_parts(to[k]), ",\n"@), "\n)"@);
            lemma_opens_concat(
                c + ticked(to[k].name) + " ("@ + join(create_parts(to[k]), ",\n"@) + "\n)"@,
                opt_text(to[k].engine, " ENGINE="@, Seq::empty()),
            );
            lemma_opens_concat(
                c + ticked(to[k].name) + " ("@ + join(create_parts(to[k]), ",\n"@) + "\n)"@ + opt_text(
                    to[k].engine,
                    " ENGINE="@,
                    Seq::empty(),
                ),
                opt_text(to[k].charset, " DEFAULT CHARSET="@, Seq::empty()),
            );
            lemma_opens_concat(
                c + ticked(to[k].name) + " ("@ + join(create_parts(to[k]), ",\n"@) + "\n)"@ + opt_text(
                    to[k].engine,
                    " ENGINE="@,
                    Seq::empty(),
                ) + opt_text(to[k].charset, " DEFAULT CHARSET="@, Seq::empty()),
                ";"@,
            );
            assert(ls[h.len() + i] == a[i]);
            h.len() + i
        } else if exists|k: int|
            0 <= k < from.len() && find_table(to, (#[trigger] from[k]).name, 0) < 0 {
            let k = choose|k: int| 0 <= k < from.len() && find_table(to, (#[trigger] from[k]).name, 0) < 0;
            lemma_dropped_lines_hold(from, to, k);
            let line = "DROP TABLE IF EXISTS "@ + ticked(from[k].name) + ";"@;
            let i = choose|i: int| 0 <= i < d.len() && d[i] == line;
            reveal_strlit("DROP TABLE IF EXISTS ");
            let c = "DROP TABLE IF EXISTS "@;
            assert(c[0] == 'D' && c[1] == 'R');
            lemma_opens_concat(c, ticked(from[k].name));
            lemma_opens_concat(c + ticked(from[k].name), ";"@);
            assert(ls[h.len() + a.len() + i] == d[i]);
            h.len() + a.len() + i
        } else {
            let k = choose|k: int|
                0 <= k < to.len() && !(find_table(from, (#[trigger] to[k]).name, 0) >= 0 && table_diff(
                    from[find_table(from, to[k].name, 0)],
                    to[k],
                ).len() == 0);
            assert(find_table(from, to[k].name, 0) >= 0);
            lemma_modified_lines_hold(to, from, k, 0);
            let line = table_diff(from[find_table(from, to[k].name, 0)], to[k])[0];
            lemma_table_diff_opens(from[find_table(from, to[k].name, 0)], to[k], 0);
            let i = choose|i: int| 0 <= i < m.len() && m[i] == line;
            assert(ls[h.len() + a.len() + d.len() + i] == m[i]);
            h.len() + a.len() + d.len() + i
        };
        lemma_joined_opening(ls, j);
        let text = join(ls, "\n"@);
        if text.len() == 0 {
            assert(text =~= Seq::<char>::empty());
            lemma_split_on_none(text, '\n');
            let ps = split_on(text, '\n');
            assert(ps =~= seq![text]);
            assert(ps.drop_last() =~= Seq::<Seq<char>>::empty());
            assert(trim(text).len() == 0) by {
                assert(trim_start(text) == text);
                assert(trim_end(text) == text);
            }
            assert(ps.last() == text);
            assert(!is_meaningful(ps.last()));
            assert(count_meaningful(ps.drop_last()) == 0);
            assert(count_meaningful(ps) == 0);
            assert(false);
        }
        assert(mysql_diff(from, to, time) == text);
        assert(mysql_diff(from, to, time).len() > 0);
    }
}


/// Lemma: where names are distinct, every column is the last of its name.
proof fn lemma_last_cols_distinct(s: Seq<ColumnView>)
    requires
        col_names_unique(s),
    ensures
        last_cols(s) == s,
    decreases s.len(),
{
    if s.len() > 0 {
        let rest = s.drop_first();
        assert(col_names_unique(rest)) by {
            assert forall|i: int, j: int|
                0 <= i < rest.len() && 0 <= j < rest.len() && i != j implies rest[i].name
                != rest[j].name by {
                assert(rest[i] == s[i + 1] && rest[j] == s[j + 1]);
            }
        }
        lemma_last_cols_distinct(rest);
        if col_named_in(rest, s[0].name) {
            let k = choose|k: int| 0 <= k < rest.len() && #[trigger] rest[k].name == s[0].name;
            assert(s[k + 1].name == s[0].name);
        }
        assert(seq![s[0]] + rest =~= s);
    }
}

pub open spec fn add_column_line(tn: Seq<char>, c: ColumnView) -> Seq<char> {
    alter(tn) + " ADD COLUMN "@ + column_sql(c) + ";"@
}

pub open spec fn drop_column_line(tn: Seq<char>, c: ColumnView) -> Seq<char> {
    alter(tn) + " DROP COLUMN "@ + ticked(c.name) + ";"@
}

pub open spec fn modify_column_line(tn: Seq<char>, c: ColumnView) -> Seq<char> {
    alter(tn) + " MODIFY COLUMN "@ + column_sql(c) + ";"@
}

proof fn lemma_add_col_lines_from(news: Seq<ColumnView>, olds: Seq<ColumnView>, tn: Seq<char>, j: int)
    requires
        0 <= j < add_col_lines(news, olds, tn).len(),
    ensures
        exists|k: int|
            0 <= k < news.len() && col_pos(olds, (#[trigger] news[k]).name, 0) < 0
                && add_col_lines(news, olds, tn)[j] == add_column_line(tn, news[k]),
    decreases news.len(),
{
    let prev = add_col_lines(news.drop_last(), olds, tn);
    if j < prev.len() {
        lemma_add_col_lines_from(news.drop_last(), olds, tn, j);
        let k = choose|k: int|
            0 <= k < news.drop_last().len() && col_pos(olds, (#[trigger] news.drop_last()[k]).name, 0)
                < 0 && prev[j] == add_column_line(tn, news.drop_last()[k]);
        assert(news.drop_last()[k] == news[k]);
        assert(add_col_lines(news, olds, tn)[j] == prev[j]);
    } else {
        assert(news[news.len() - 1] == news.last());
    }
}

proof fn lemma_drop_col_lines_from(olds: Seq<ColumnView>, news: Seq<ColumnView>, tn: Seq<char>, j: int)
    requires
        0 <= j < drop_col_lines(olds, news, tn).len(),
    ensures
        exists|k: int|
            0 <= k < olds.len() && col_pos(news, (#[trigger] olds[k]).name, 0) < 0
                && drop_col_lines(olds, news, tn)[j] == drop_column_line(tn, olds[k]),
    decreases olds.len(),
{
    let prev = drop_col_lines(olds.drop_last(), news, tn);
    if j < prev.len() {
        lemma_drop_col_lines_from(olds.drop_last(), news, tn, j);
        let k = choose|k: int|
            0 <= k < olds.drop_last().len() && col_pos(news, (#[trigger] olds.drop_last()[k]).name, 0)
                < 0 && prev[j] == drop_column_line(tn, olds.drop_last()[k]);
        assert(olds.drop_last()[k] == olds[k]);
        assert(drop_col_lines(olds, news, tn)[j] == prev[j]);
    } else {
        assert(olds[olds.len() - 1] == olds.last());
    }
}

proof fn lemma_mod_col_lines_from(news: Seq<ColumnView>, olds: Seq<ColumnView>, tn: Seq<char>, j: int)
    requires
        0 <= j < mod_col_lines(news, olds, tn).len(),
    ensures
        exists|k: int|
            0 <= k < news.len() && col_pos(olds, (#[trigger] news[k]).name, 0) >= 0 && olds[col_pos(
                olds,
                news[k].name,
                0,
            )] != news[k] && mod_col_lines(news, olds, tn)[j] == modify_column_line(tn, news[k]),
    decreases news.len(),
{
    let prev = mod_col_lines(news.drop_last(), olds, tn);
    if j < prev.len() {
        lemma_mod_col_lines_from(news.drop_last(), olds, tn, j);
        let k = choose|k: int|
            0 <= k < news.drop_last().len() && col_pos(olds, (#[trigger] news.drop_last()[k]).name, 0)
                >= 0 && olds[col_pos(olds, news.drop_last()[k].name, 0)] != news.drop_last()[k]
                && prev[j] == modify_column_line(tn, news.drop_last()[k]);
        assert(news.drop_last()[k] == news[k]);
        assert(mod_col_lines(news, olds, tn)[j] == prev[j]);
    } else {
        assert(news[news.len() - 1] == news.last());
    }
}

/// Law: for tables whose column names are distinct, the column statements
/// are the additions, then the removals, then the redefinitions; the
/// additions are exactly one for each new column whose name the old table
/// lacks, the removals one for each old column whose name the new table
/// lacks, the redefinitions one for each column of both whose definition
/// changed; and there are none exactly when the two tables have the same
/// columns.
pub proof fn law_column_diffs_distinct(old_t: TableView, new_t: TableView)
    requires
        col_names_unique(old_t.columns),
        col_names_unique(new_t.columns),
    ensures
        ({
            let o = old_t.columns;
            let n = new_t.columns;
            let tn = new_t.name;
            &&& column_diffs(old_t, new_t) == add_col_lines(n, o, tn) + drop_col_lines(o, n, tn)
                + mod_col_lines(n, o, tn)
            &&& forall|l: Seq<char>|
                #[trigger] add_col_lines(n, o, tn).contains(l) <==> exists|k: int|
                    0 <= k < n.len() && col_pos(o, (#[trigger] n[k]).name, 0) < 0 && l
                        == add_column_line(tn, n[k])
            &&& forall|l: Seq<char>|
                #[trigger] drop_col_lines(o, n, tn).contains(l) <==> exists|k: int|
                    0 <= k < o.len() && col_pos(n, (#[trigger] o[k]).name, 0) < 0 && l
                        == drop_column_line(tn, o[k])
            &&& forall|l: Seq<char>|
                #[trigger] mod_col_lines(n, o, tn).contains(l) <==> exists|k: int|
                    0 <= k < n.len() && col_pos(o, (#[trigger] n[k]).name, 0) >= 0 && o[col_pos(
                        o,
                        n[k].name,
                        0,
                    )] != n[k] && l == modify_column_line(tn, n[k])
            &&& column_diffs(old_t, new_t).len() == 0 <==> {
                &&& forall|k: int|
                    0 <= k < n.len() ==> col_pos(o, (#[trigger] n[k]).name, 0) >= 0 && o[col_pos(
                        o,
                        n[k].name,
                        0,
                    )] == n[k]
                &&& forall|k: int| 0 <= k < o.len() ==> col_pos(n, (#[trigger] o[k]).name, 0) >= 0
            }
        }),
{
    let o = old_t.columns;
    let n = new_t.columns;
    let tn = new_t.name;
    lemma_last_cols_distinct(o);
    lemma_last_cols_distinct(n);
    law_column_diffs_empty(old_t, new_t);
    let a = add_col_lines(n, o, tn);
    let d = drop_col_lines(o, n, tn);
    let m = mod_col_lines(n, o, tn);
    assert forall|l: Seq<char>| #[trigger] a.contains(l) <==> exists|k: int|
        0 <= k < n.len() && col_pos(o, (#[trigger] n[k]).name, 0) < 0 && l == add_column_line(tn, n[k]) by {
        if a.contains(l) {
            let j = choose|j: int| 0 <= j < a.len() && a[j] == l;
            lemma_add_col_lines_from(n, o, tn, j);
        }
        if exists|k: int| 0 <= k < n.len() && col_pos(o, (#[trigger] n[k]).name, 0) < 0 && l
            == add_column_line(tn, n[k]) {
            let k = choose|k: int|
                0 <= k < n.len() && col_pos(o, (#[trigger] n[k]).name, 0) < 0 && l == add_column_line(
                    tn,
                    n[k],
                );
            lemma_add_col_lines_hold(n, o, tn, k);
        }
    }
    assert forall|l: Seq<char>| #[trigger] d.contains(l) <==> exists|k: int|
        0 <= k < o.len() && col_pos(n, (#[trigger] o[k]).name, 0) < 0 && l == drop_column_line(tn, o[k]) by {
        if d.contains(l) {
            let j = choose|j: int| 0 <= j < d.len() && d[j] == l;
            lemma_drop_col_lines_from(o, n, tn, j);
        }
        if exists|k: int| 0 <= k < o.len() && col_pos(n, (#[trigger] o[k]).name, 0) < 0 && l
            == drop_column_line(tn, o[k]) {
            let k = choose|k: int|
                0 <= k < o.len() && col_pos(n, (#[trigger] o[k]).name, 0) < 0 && l == drop_column_line(
                    tn,
                    o[k],
                );
            lemma_drop_col_lines_hold(o, n, tn, k);
        }
    }
    assert forall|l: Seq<char>| #[trigger] m.contains(l) <==> exists|k: int|
        0 <= k < n.len() && col_pos(o, (#[trigger] n[k]).name, 0) >= 0 && o[col_pos(o, n[k].name, 0)]
            != n[k] && l == modify_column_line(tn, n[k]) by {
        if m.contains(l) {
            let j = choose|j: int| 0 <= j < m.len() && m[j] == l;
            lemma_mod_col_lines_from(n, o, tn, j);
        }
        if exists|k: int|
            0 <= k < n.len() && col_pos(o, (#[trigger] n[k]).name, 0) >= 0 && o[col_pos(o, n[k].name, 0)]
                != n[k] && l == modify_column_line(tn, n[k]) {
            let k = choose|k: int|
                0 <= k < n.len() && col_pos(o, (#[trigger] n[k]).name, 0) >= 0 && o[col_pos(
                    o,
                    n[k].name,
                    0,
                )] != n[k] && l == modify_column_line(tn, n[k]);
            lemma_mod_col_lines_hold(n, o, tn, k);
        }
    }
}


// ---------------------------------------------------------------------------
// The kind of an added index.

proof fn lemma_prefix_at(line: Seq<char>, p: Seq<char>, i: int)
    requires
        has_prefix(line, p),
        0 <= i < p.len(),
    ensures
        line[i] == p[i],
{
    assert(line.take(p.len() as int)[i] == line[i]);
}

/// Lemma: the character after ` ADD ` in the statement that adds an index
/// tells its kind: `P` for the primary key, `U` for a unique key, `K` else.
proof fn lemma_add_index_kind_char(tn: Seq<char>, ix: IndexView)
    ensures
        add_index_line(tn, ix).len() > alter(tn).len() + 5,
        add_index_line(tn, ix)[alter(tn).len() + 5int] == (if ix.is_primary {
            'P'
        } else if ix.is_unique {
            'U'
        } else {
            'K'
        }),
{
    let h = alter(tn);
    let l = column_list(ix.columns);
    let lit = if ix.is_primary {
        " ADD PRIMARY KEY ("@
    } else if ix.is_unique {
        " ADD UNIQUE KEY "@
    } else {
        " ADD KEY "@
    };
    reveal_strlit(" ADD PRIMARY KEY (");
    reveal_strlit(" ADD UNIQUE KEY ");
    reveal_strlit(" ADD KEY ");
    let line = add_index_line(tn, ix);
    if ix.is_primary {
        assert(line == ((h + lit) + l) + ");"@);
    } else {
        assert(line == ((((h + lit) + ticked(ix.name)) + " ("@) + l) + ");"@);
    }
    assert(line[h.len() + 5int] == (h + lit)[h.len() + 5int]);
}

/// Law: the statement that adds an index says what kind of index it is:
/// `ADD PRIMARY KEY (` exactly for the primary key, `ADD UNIQUE KEY` and the
/// index's name exactly for a unique index that is not the primary key, and
/// `ADD KEY` and the name exactly for any other index.
pub proof fn law_added_index_kind(tn: Seq<char>, ix: IndexView)
    ensures
        ({
            let head = "ALTER TABLE "@ + ticked(tn);
            let line = add_index_line(tn, ix);
            &&& has_prefix(line, head + " ADD PRIMARY KEY ("@) <==> ix.is_primary
            &&& has_prefix(line, head + " ADD UNIQUE KEY "@ + ticked(ix.name)) <==> (ix.is_unique
                && !ix.is_primary)
            &&& has_prefix(line, head + " ADD KEY "@ + ticked(ix.name)) <==> (!ix.is_unique
                && !ix.is_primary)
        }),
{
    let head = "ALTER TABLE "@ + ticked(tn);
    let line = add_index_line(tn, ix);
    let l = column_list(ix.columns);
    let pp = head + " ADD PRIMARY KEY ("@;
    let pu = head + " ADD UNIQUE KEY "@ + ticked(ix.name);
    let pk = head + " ADD KEY "@ + ticked(ix.name);
    reveal_strlit(" ADD PRIMARY KEY (");
    reveal_strlit(" ADD UNIQUE KEY ");
    reveal_strlit(" ADD KEY ");
    assert(head == alter(tn));
    lemma_add_index_kind_char(tn, ix);
    let i: int = head.len() + 5int;
    assert(pp[i] == 'P');
    assert(pu[i] == 'U');
    assert(pk[i] == 'K');
    if ix.is_primary {
        assert(line == (pp + l) + ");"@);
        assert(line.take(pp.len() as int) =~= pp);
    } else if ix.is_unique {
        assert(line == ((pu + " ("@) + l) + ");"@);
        assert(line.take(pu.len() as int) =~= pu);
    } else {
        assert(line == ((pk + " ("@) + l) + ");"@);
        assert(line.take(pk.len() as int) =~= pk);
    }
    if has_prefix(line, pp) {
        lemma_prefix_at(line, pp, i);
    }
    if has_prefix(line, pu) {
        lemma_prefix_at(line, pu, i);
    }
    if has_prefix(line, pk) {
        lemma_prefix_at(line, pk, i);
    }
}

/// Law: each unique index (not the primary key) that only the new table
/// has is added by a statement that keeps it unique.
pub proof fn law_added_unique_index_stays_unique(old_t: TableView, new_t: TableView)
    ensures
        forall|k: int|
            0 <= k < last_idxs(new_t.indexes).len() && idx_pos(
                last_idxs(old_t.indexes),
                last_idxs(new_t.indexes)[k].name,
                0,
            ) < 0 && (#[trigger] last_idxs(new_t.indexes)[k]).is_unique
                && !last_idxs(new_t.indexes)[k].is_primary ==> exists|line: Seq<char>|
                #[trigger] table_diff(old_t, new_t).contains(line) && has_prefix(
                    line,
                    "ALTER TABLE "@ + ticked(new_t.name) + " ADD UNIQUE KEY "@ + ticked(
                        last_idxs(new_t.indexes)[k].name,
                    ),
                ),
{
    law_index_changes(old_t, new_t);
    let n = last_idxs(new_t.indexes);
    assert forall|k: int|
        0 <= k < n.len() && idx_pos(last_idxs(old_t.indexes), n[k].name, 0) < 0 && (#[trigger] n[k]).is_unique
            && !n[k].is_primary implies exists|line: Seq<char>|
        #[trigger] table_diff(old_t, new_t).contains(line) && has_prefix(
            line,
            "ALTER TABLE "@ + ticked(new_t.name) + " ADD UNIQUE KEY "@ + ticked(n[k].name),
        ) by {
        law_added_index_kind(new_t.name, n[k]);
        assert(table_diff(old_t, new_t).contains(add_index_line(new_t.name, n[k])));
    }
}

} // verus!
