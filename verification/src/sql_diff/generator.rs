//! MySQL text for columns, indexes and whole tables.
use vstd::prelude::*;
use crate::split::{join, views, join_chars, lemma_views_push, lemma_views_empty};
use crate::text::{extend_str, extend_chars, to_chars, from_chars, trim, has_sub, trim_chars, chars_eq, contains};
use crate::split::{decimal, decimal_chars};
use crate::error::DuckError;
use crate::clock::is_clock_stamp;
use super::parser::{parse_tables, parse_sql_tables, SqlParseError, parse_error_text};
use super::differ::{mysql_diff, meaningful_lines, generate_mysql_diff_at, count_meaningful_lines};
use super::types::{
    TableColumn, TableIndex, TableDefinition, ColumnView, IndexView, TableView, str_views,
    column_views, index_views,
};

verus! {

/// A name between backticks.
pub open spec fn ticked(n: Seq<char>) -> Seq<char> {
    seq!['`'] + n + seq!['`']
}

pub open spec fn opt_text(o: Option<Seq<char>>, before: Seq<char>, after: Seq<char>) -> Seq<char> {
    match o {
        Some(x) => before + x + after,
        None => Seq::empty(),
    }
}

pub open spec fn flag_text(b: bool, text: Seq<char>) -> Seq<char> {
    if b {
        text
    } else {
        Seq::empty()
    }
}

/// The definition of a column, as it stands in `CREATE TABLE` or `ALTER TABLE`.
pub open spec fn column_sql(c: ColumnView) -> Seq<char> {
    ticked(c.name) + seq![' '] + c.data_type + flag_text(!c.nullable, " NOT NULL"@) + opt_text(
        c.default_value,
        " DEFAULT '"@,
        "'"@,
    ) + flag_text(c.auto_increment, " AUTO_INCREMENT"@) + opt_text(c.comment, " COMMENT '"@, "'"@)
}

/// Column names between backticks, separated by `, `.
pub open spec fn column_list(cols: Seq<Seq<char>>) -> Seq<char> {
    join(cols.map_values(|c: Seq<char>| ticked(c)), ", "@)
}

/// The definition of an index inside `CREATE TABLE`.
pub open spec fn index_sql(i: IndexView) -> Seq<char> {
    if i.is_primary {
        "PRIMARY KEY ("@ + column_list(i.columns) + ")"@
    } else if i.is_unique {
        "UNIQUE KEY "@ + ticked(i.name) + " ("@ + column_list(i.columns) + ")"@
    } else {
        "KEY "@ + ticked(i.name) + " ("@ + column_list(i.columns) + ")"@
    }
}

/// The lines of a `CREATE TABLE` body: columns, then indexes, each indented.
pub open spec fn create_parts(t: TableView) -> Seq<Seq<char>> {
    t.columns.map_values(|c: ColumnView| "  "@ + column_sql(c)) + t.indexes.map_values(
        |i: IndexView| "  "@ + index_sql(i),
    )
}

pub open spec fn create_table_sql(t: TableView) -> Seq<char> {
    "CREATE TABLE "@ + ticked(t.name) + " ("@ + join(create_parts(t), ",\n"@) + "\n)"@ + opt_text(
        t.engine,
        " ENGINE="@,
        Seq::empty(),
    ) + opt_text(t.charset, " DEFAULT CHARSET="@, Seq::empty()) + ";"@
}

fn push_ticked(v: &mut Vec<char>, name: &str)
    ensures
        final(v)@ == old(v)@ + ticked(name@),
{
    v.push('`');
    extend_str(v, name);
    v.push('`');
    assert(v@ =~= old(v)@ + ticked(name@));
}

fn push_opt(v: &mut Vec<char>, o: &Option<String>, before: &str, after: &str)
    ensures
        final(v)@ == old(v)@ + opt_text(super::types::opt_view(*o), before@, after@),
{
    match o {
        Some(x) => {
            extend_str(v, before);
            extend_str(v, x.as_str());
            extend_str(v, after);
            assert(v@ =~= old(v)@ + (before@ + x@ + after@));
        },
        None => {
            assert(v@ =~= old(v)@ + Seq::<char>::empty());
        },
    }
}

pub fn column_sql_chars(column: &TableColumn) -> (r: Vec<char>)
    ensures
        r@ == column_sql(column@),
{
    let mut v: Vec<char> = Vec::new();
    push_ticked(&mut v, column.name.as_str());
    v.push(' ');
    extend_str(&mut v, column.data_type.as_str());
    let ghost a = v@;
    if !column.nullable {
        extend_str(&mut v, " NOT NULL");
    }
    assert(v@ =~= a + flag_text(!column.nullable, " NOT NULL"@));
    push_opt(&mut v, &column.default_value, " DEFAULT '", "'");
    let ghost b = v@;
    if column.auto_increment {
        extend_str(&mut v, " AUTO_INCREMENT");
    }
    assert(v@ =~= b + flag_text(column.auto_increment, " AUTO_INCREMENT"@));
    push_opt(&mut v, &column.comment, " COMMENT '", "'");
    assert(v@ =~= column_sql(column@));
    v
}

/// The definition of a column, as `CREATE TABLE` and `ALTER TABLE` write it.
pub fn generate_column_sql(column: &TableColumn) -> (r: String)
    ensures
        r@ == column_sql(column@),
{
    let v = column_sql_chars(column);
    from_chars(&v)
}

pub fn column_list_chars(cols: &Vec<String>) -> (r: Vec<char>)
    ensures
        r@ == column_list(str_views(cols@)),
{
    let mut parts: Vec<Vec<char>> = Vec::new();
    let mut i: usize = 0;
    proof {
        lemma_views_empty();
    }
    while i < cols.len()
        invariant
            i <= cols@.len(),
            views(parts@) == str_views(cols@).take(i as int).map_values(|c: Seq<char>| ticked(c)),
        decreases cols@.len() - i,
    {
        let mut t: Vec<char> = Vec::new();
        push_ticked(&mut t, cols[i].as_str());
        proof {
            lemma_views_push(parts@, t);
            assert(str_views(cols@).take(i + 1).map_values(|c: Seq<char>| ticked(c)) =~= str_views(
                cols@,
            ).take(i as int).map_values(|c: Seq<char>| ticked(c)).push(ticked(cols@[i as int]@)));
        }
        parts.push(t);
        i = i + 1;
    }
    assert(str_views(cols@).take(cols@.len() as int) =~= str_views(cols@));
    let sep = to_chars(", ");
    join_chars(&parts, &sep)
}

pub fn index_sql_chars(index: &TableIndex) -> (r: Vec<char>)
    ensures
        r@ == index_sql(index@),
{
    let list = column_list_chars(&index.columns);
    let mut v: Vec<char> = Vec::new();
    if index.is_primary {
        extend_str(&mut v, "PRIMARY KEY (");
        extend_chars(&mut v, &list);
        extend_str(&mut v, ")");
    } else if index.is_unique {
        extend_str(&mut v, "UNIQUE KEY ");
        push_ticked(&mut v, index.name.as_str());
        extend_str(&mut v, " (");
        extend_chars(&mut v, &list);
        extend_str(&mut v, ")");
    } else {
        extend_str(&mut v, "KEY ");
        push_ticked(&mut v, index.name.as_str());
        extend_str(&mut v, " (");
        extend_chars(&mut v, &list);
        extend_str(&mut v, ")");
    }
    assert(v@ =~= index_sql(index@));
    v
}

/// The definition of an index inside `CREATE TABLE`.
pub fn generate_index_sql(index: &TableIndex) -> (r: String)
    ensures
        r@ == index_sql(index@),
{
    let v = index_sql_chars(index);
    from_chars(&v)
}

pub fn create_table_chars(table: &TableDefinition) -> (r: Vec<char>)
    ensures
        r@ == create_table_sql(table@),
{
    let ghost t = table@;
    let mut parts: Vec<Vec<char>> = Vec::new();
    let mut i: usize = 0;
    proof {
        lemma_views_empty();
    }
    while i < table.columns.len()
        invariant
            t == table@,
            i <= table.columns@.len(),
            views(parts@) == t.columns.take(i as int).map_values(
                |c: ColumnView| "  "@ + column_sql(c),
            ),
        decreases table.columns@.len() - i,
    {
        let mut p = to_chars("  ");
        let c = column_sql_chars(&table.columns[i]);
        extend_chars(&mut p, &c);
        proof {
            lemma_views_push(parts@, p);
            assert(t.columns.take(i + 1).map_values(|c: ColumnView| "  "@ + column_sql(c))
                =~= t.columns.take(i as int).map_values(|c: ColumnView| "  "@ + column_sql(c)).push(
                "  "@ + column_sql(t.columns[i as int]),
            ));
        }
        parts.push(p);
        i = i + 1;
    }
    assert(t.columns.take(table.columns@.len() as int) =~= t.columns);
    let ghost cols_part = views(parts@);
    let mut k: usize = 0;
    while k < table.indexes.len()
        invariant
            t == table@,
            k <= table.indexes@.len(),
            views(parts@) == cols_part + t.indexes.take(k as int).map_values(
                |i: IndexView| "  "@ + index_sql(i),
            ),
        decreases table.indexes@.len() - k,
    {
        let mut p = to_chars("  ");
        let x = index_sql_chars(&table.indexes[k]);
        extend_chars(&mut p, &x);
        proof {
            lemma_views_push(parts@, p);
            assert(t.indexes.take(k + 1).map_values(|i: IndexView| "  "@ + index_sql(i))
                =~= t.indexes.take(k as int).map_values(|i: IndexView| "  "@ + index_sql(i)).push(
                "  "@ + index_sql(t.indexes[k as int]),
            ));
        }
        parts.push(p);
        k = k + 1;
    }
    assert(t.indexes.take(table.indexes@.len() as int) =~= t.indexes);
    assert(views(parts@) =~= create_parts(t));
    let sep = to_chars(",\n");
    let body = join_chars(&parts, &sep);
    let mut v = to_chars("CREATE TABLE ");
    push_ticked(&mut v, table.name.as_str());
    extend_str(&mut v, " (");
    extend_chars(&mut v, &body);
    extend_str(&mut v, "\n)");
    push_opt(&mut v, &table.engine, " ENGINE=", "");
    push_opt(&mut v, &table.charset, " DEFAULT CHARSET=", "");
    extend_str(&mut v, ";");
    proof {
        let e: Seq<char> = ""@;
        assert(e.len() == 0) by {
            reveal_strlit("");
        }
        assert(e =~= Seq::<char>::empty());
    }
    assert(v@ =~= create_table_sql(t));
    v
}

/// The `CREATE TABLE` statement that defines `table`.
pub fn generate_create_table_sql(table: &TableDefinition) -> (r: String)
    ensures
        r@ == create_table_sql(table@),
{
    let v = create_table_chars(table);
    from_chars(&v)
}


// ---------------------------------------------------------------------------
// Schema differences between two scripts.

pub open spec fn opt_str(o: Option<&str>) -> Option<Seq<char>> {
    match o {
        Some(s) => Some(s@),
        None => None,
    }
}

pub open spec fn or_unknown(v: Option<Seq<char>>) -> Seq<char> {
    match v {
        Some(x) => x,
        None => "unknown"@,
    }
}

pub open spec fn tag_if(b: bool, tag: Seq<char>) -> Seq<Seq<char>> {
    if b {
        seq![tag]
    } else {
        Seq::empty()
    }
}

/// The kinds of change that a difference script holds, by the statements in it.
pub open spec fn change_types(d: Seq<char>) -> Seq<Seq<char>> {
    let alter = has_sub(d, "ALTER TABLE"@);
    tag_if(has_sub(d, "CREATE TABLE"@), "新增表"@) + tag_if(has_sub(d, "DROP TABLE"@), "删除表"@)
        + tag_if(alter && has_sub(d, "ADD COLUMN"@), "新增列"@) + tag_if(
        alter && has_sub(d, "DROP COLUMN"@),
        "删除列"@,
    ) + tag_if(alter && has_sub(d, "MODIFY COLUMN"@), "修改列"@) + tag_if(
        alter && has_sub(d, "ADD KEY"@),
        "新增索引"@,
    ) + tag_if(alter && has_sub(d, "DROP KEY"@), "删除索引"@)
}

pub open spec fn change_summary(d: Seq<char>) -> Seq<char> {
    if change_types(d).len() == 0 {
        "架构变更"@
    } else {
        join(change_types(d), "、"@)
    }
}

pub open spec fn version_span(fv: Seq<char>, tv: Seq<char>) -> Seq<char> {
    "版本 "@ + fv + " 到 "@ + tv
}

/// The description of a difference script between versions `fv` and `tv`.
pub open spec fn describe_diff(d: Seq<char>, fv: Seq<char>, tv: Seq<char>) -> Seq<char> {
    if trim(d).len() == 0 {
        version_span(fv, tv) + ": 仅有注释或格式变化，无实际架构差异"@
    } else {
        version_span(fv, tv) + ": "@ + change_summary(d) + " - 生成 "@ + decimal(meaningful_lines(d))
            + " 行可执行的差异SQL"@
    }
}

/// The difference script from `from_sql` to `to_sql` and its description.
/// With no earlier script, the whole of `to_sql`; with scripts equal up to
/// surrounding white space, an empty script.
pub open spec fn schema_diff(
    from_sql: Option<Seq<char>>,
    to_sql: Seq<char>,
    fv: Option<Seq<char>>,
    tv: Seq<char>,
    time: Seq<char>,
) -> Result<(Seq<char>, Seq<char>), SqlParseError> {
    match from_sql {
        None => Ok((to_sql, "初始版本 "@ + tv + " 的完整数据库架构"@)),
        Some(f) => if trim(f) == trim(to_sql) {
            Ok((Seq::empty(), version_span(or_unknown(fv), tv) + ": 无变化"@))
        } else {
            match parse_tables(f) {
                Err(e) => Err(e),
                Ok(ft) => match parse_tables(to_sql) {
                    Err(e) => Err(e),
                    Ok(tt) => {
                        let d = mysql_diff(ft, tt, time);
                        Ok((d, describe_diff(d, or_unknown(fv), tv)))
                    },
                },
            }
        },
    }
}

/// Whether `r` is what `schema_diff` gives, with a parse error reported as
/// `DuckError::Custom` carrying its text.
pub open spec fn schema_diff_result(
    r: Result<(String, String), DuckError>,
    s: Result<(Seq<char>, Seq<char>), SqlParseError>,
) -> bool {
    match s {
        Ok((d, desc)) => r matches Ok((a, b)) && a@ == d && b@ == desc,
        Err(e) => r matches Err(DuckError::Custom(m)) && m@ == parse_error_text(e),
    }
}

fn version_span_chars(fv: Option<&str>, tv: &str) -> (r: Vec<char>)
    ensures
        r@ == version_span(or_unknown(opt_str(fv)), tv@),
{
    let mut v = to_chars("版本 ");
    match fv {
        Some(x) => extend_str(&mut v, x),
        None => extend_str(&mut v, "unknown"),
    }
    extend_str(&mut v, " 到 ");
    extend_str(&mut v, tv);
    v
}

fn push_tag(tags: &mut Vec<Vec<char>>, b: bool, tag: &str)
    ensures
        crate::split::views(final(tags)@) == crate::split::views(old(tags)@) + tag_if(b, tag@),
{
    if b {
        let t = to_chars(tag);
        proof {
            crate::split::lemma_views_push(tags@, t);
        }
        tags.push(t);
        assert(crate::split::views(tags@) =~= crate::split::views(old(tags)@) + tag_if(b, tag@));
    } else {
        assert(crate::split::views(tags@) =~= crate::split::views(old(tags)@) + tag_if(b, tag@));
    }
}

fn change_summary_chars(d: &Vec<char>) -> (r: Vec<char>)
    ensures
        r@ == change_summary(d@),
{
    let alter = contains(d, &to_chars("ALTER TABLE"));
    let mut tags: Vec<Vec<char>> = Vec::new();
    proof {
        crate::split::lemma_views_empty();
    }
    push_tag(&mut tags, contains(d, &to_chars("CREATE TABLE")), "新增表");
    push_tag(&mut tags, contains(d, &to_chars("DROP TABLE")), "删除表");
    push_tag(&mut tags, alter && contains(d, &to_chars("ADD COLUMN")), "新增列");
    push_tag(&mut tags, alter && contains(d, &to_chars("DROP COLUMN")), "删除列");
    push_tag(&mut tags, alter && contains(d, &to_chars("MODIFY COLUMN")), "修改列");
    push_tag(&mut tags, alter && contains(d, &to_chars("ADD KEY")), "新增索引");
    push_tag(&mut tags, alter && contains(d, &to_chars("DROP KEY")), "删除索引");
    assert(crate::split::views(tags@) =~= change_types(d@));
    if tags.len() == 0 {
        to_chars("架构变更")
    } else {
        crate::split::join_chars(&tags, &to_chars("、"))
    }
}

fn describe_chars(d: &Vec<char>, fv: Option<&str>, tv: &str) -> (r: Vec<char>)
    ensures
        r@ == describe_diff(d@, or_unknown(opt_str(fv)), tv@),
{
    let mut v = version_span_chars(fv, tv);
    if trim_chars(d).len() == 0 {
        extend_str(&mut v, ": 仅有注释或格式变化，无实际架构差异");
    } else {
        extend_str(&mut v, ": ");
        let s = change_summary_chars(d);
        extend_chars(&mut v, &s);
        extend_str(&mut v, " - 生成 ");
        let n = count_meaningful_lines(d);
        let digits = decimal_chars(n);
        extend_chars(&mut v, &digits);
        extend_str(&mut v, " 行可执行的差异SQL");
    }
    v
}

/// The difference script from `from_sql` to `to_sql` and its description,
/// stamped with `generated_at` (see `schema_diff`).
pub fn generate_schema_diff_at(
    from_sql: Option<&str>,
    to_sql: &str,
    from_version: Option<&str>,
    to_version: &str,
    generated_at: &str,
) -> (r: Result<(String, String), DuckError>)
    ensures
        schema_diff_result(
            r,
            schema_diff(opt_str(from_sql), to_sql@, opt_str(from_version), to_version@, generated_at@),
        ),
{
    match from_sql {
        None => {
            let mut v = to_chars("初始版本 ");
            extend_str(&mut v, to_version);
            extend_str(&mut v, " 的完整数据库架构");
            Ok((String::from_str(to_sql), from_chars(&v)))
        },
        Some(from_content) => {
            let fc = to_chars(from_content);
            let tc = to_chars(to_sql);
            if chars_eq(&trim_chars(&fc), &trim_chars(&tc)) {
                let mut v = version_span_chars(from_version, to_version);
                extend_str(&mut v, ": 无变化");
                return Ok((String::new(), from_chars(&v)));
            }
            let from_tables = match parse_sql_tables(from_content) {
                Ok(t) => t,
                Err(e) => return Err(DuckError::Custom(e.message())),
            };
            let to_tables = match parse_sql_tables(to_sql) {
                Ok(t) => t,
                Err(e) => return Err(DuckError::Custom(e.message())),
            };
            let diff = generate_mysql_diff_at(&from_tables, &to_tables, generated_at);
            let dc = to_chars(diff.as_str());
            let desc = describe_chars(&dc, from_version, to_version);
            Ok((diff, from_chars(&desc)))
        },
    }
}

/// The difference script from `from_sql` to `to_sql` and its description,
/// stamped with the current time.
pub fn generate_schema_diff(
    from_sql: Option<&str>,
    to_sql: &str,
    from_version: Option<&str>,
    to_version: &str,
) -> (r: Result<(String, String), DuckError>)
    ensures
        exists|time: Seq<char>|
            is_clock_stamp(time) && schema_diff_result(
                r,
                #[trigger] schema_diff(opt_str(from_sql), to_sql@, opt_str(from_version), to_version@, time),
            ),
{
    let now = crate::clock::utc_now_text();
    generate_schema_diff_at(from_sql, to_sql, from_version, to_version, now.as_str())
}

} // verus!
