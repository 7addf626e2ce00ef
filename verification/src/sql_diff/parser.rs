//! Reading the `CREATE TABLE` statements of a MySQL initialisation script.
//!
//! Only the statements after the first `USE` statement are read (all of
//! them when there is none); lines whose first non-blank characters are
//! `--` are comments.
use vstd::prelude::*;
use crate::split::{views, split_on, split_on_char, lemma_views_push, lemma_views_empty};
use crate::sql_text::{
    sql_statements, split_sql_statements, top_level_list, split_top_level, close_index,
    find_close, index_of_from, find_char, lemma_close_index_range, lemma_index_of_range,
};
use crate::text::{
    is_ws, trim, upper, has_prefix, strip_pair, to_chars, to_upper, starts_with, chars_eq,
    strip_pair_chars, slice_chars, extend_chars, from_chars, trim_chars, is_whitespace_char,
};
use super::types::{
    TableColumn, TableIndex, TableDefinition, ColumnView, IndexView, TableView, column_views,
    index_views, table_views, str_views, opt_view, lemma_str_views_push,
};

verus! {

/// Why a `CREATE TABLE` statement could not be read.
#[derive(Debug, Clone, Copy, PartialEq, Eq, Structural)]
pub enum SqlParseError {
    /// The statement names no table before its column list.
    MissingTableName,
    /// The statement has no `(` opening a column list.
    MissingColumnList,
    /// The column list is not closed by a matching `)`.
    UnclosedColumnList,
}

/// The text that describes a parse error.
pub open spec fn parse_error_text(e: SqlParseError) -> Seq<char> {
    match e {
        SqlParseError::MissingTableName => "CREATE TABLE 语句缺少表名"@,
        SqlParseError::MissingColumnList => "CREATE TABLE 语句缺少列定义"@,
        SqlParseError::UnclosedColumnList => "CREATE TABLE 语句的列定义未闭合"@,
    }
}

impl SqlParseError {
    /// A readable description of the error.
    pub fn message(&self) -> (r: String)
        ensures
            r@ == parse_error_text(*self),
    {
        match self {
            SqlParseError::MissingTableName => String::from_str("CREATE TABLE 语句缺少表名"),
            SqlParseError::MissingColumnList => String::from_str("CREATE TABLE 语句缺少列定义"),
            SqlParseError::UnclosedColumnList => String::from_str("CREATE TABLE 语句的列定义未闭合"),
        }
    }
}

// ---------------------------------------------------------------------------
// Comment lines.

pub open spec fn is_comment_line(line: Seq<char>) -> bool {
    has_prefix(trim(line), "--"@)
}

/// The lines that are not comments, each followed by a line break.
pub open spec fn kept_lines(ls: Seq<Seq<char>>) -> Seq<char>
    decreases ls.len(),
{
    if ls.len() == 0 {
        Seq::empty()
    } else if is_comment_line(ls.last()) {
        kept_lines(ls.drop_last())
    } else {
        kept_lines(ls.drop_last()) + ls.last().push('\n')
    }
}

pub open spec fn strip_comment_lines(s: Seq<char>) -> Seq<char> {
    kept_lines(split_on(s, '\n'))
}

pub fn remove_comment_lines(s: &Vec<char>) -> (r: Vec<char>)
    ensures
        r@ == strip_comment_lines(s@),
{
    let lines = split_on_char(s, '\n');
    let dash = to_chars("--");
    let mut r: Vec<char> = Vec::new();
    let mut i: usize = 0;
    while i < lines.len()
        invariant
            i <= lines@.len(),
            dash@ == "--"@,
            r@ == kept_lines(views(lines@).take(i as int)),
        decreases lines@.len() - i,
    {
        let t = trim_chars(&lines[i]);
        let comment = starts_with(&t, &dash);
        proof {
            assert(views(lines@).take(i + 1).drop_last() =~= views(lines@).take(i as int));
            assert(views(lines@).take(i + 1).last() == lines@[i as int]@);
        }
        if !comment {
            extend_chars(&mut r, &lines[i]);
            r.push('\n');
        }
        i = i + 1;
    }
    assert(views(lines@).take(lines@.len() as int) =~= views(lines@));
    r
}

// ---------------------------------------------------------------------------
// Statement selection.

pub open spec fn is_use_statement(st: Seq<char>) -> bool {
    has_prefix(upper(st), "USE"@) && st.len() > "USE"@.len() && is_ws(st["USE"@.len() as int])
}

pub open spec fn is_create_table(st: Seq<char>) -> bool {
    has_prefix(upper(st), "CREATE TABLE"@) && st.len() > "CREATE TABLE"@.len() && is_ws(
        st["CREATE TABLE"@.len() as int],
    )
}

/// Whether `st` starts with the keyword `kw` followed by white space.
fn starts_with_keyword(st: &Vec<char>, kw: &str) -> (r: bool)
    ensures
        r == (has_prefix(upper(st@), kw@) && st@.len() > kw@.len() && is_ws(st@[kw@.len() as int])),
{
    let k = to_chars(kw);
    let u = to_upper(st);
    let p = starts_with(&u, &k);
    if p && st.len() > k.len() {
        is_whitespace_char(st[k.len()])
    } else {
        false
    }
}

/// The index of the first `USE` statement at or after `i`, or the length.
pub open spec fn first_use(stmts: Seq<Seq<char>>, i: int) -> int
    decreases stmts.len() - i,
{
    if i < 0 || i >= stmts.len() {
        stmts.len() as int
    } else if is_use_statement(stmts[i]) {
        i
    } else {
        first_use(stmts, i + 1)
    }
}

/// The statements that follow the first `USE` statement; all of them if none.
pub open spec fn scoped_statements(stmts: Seq<Seq<char>>) -> Seq<Seq<char>> {
    let u = first_use(stmts, 0);
    if u < stmts.len() {
        stmts.skip(u + 1)
    } else {
        stmts
    }
}

// ---------------------------------------------------------------------------
// Items of a column list.

/// The words of `s` (white-space separated, outside brackets and quotes).
pub open spec fn words(s: Seq<char>) -> Seq<Seq<char>> {
    top_level_list(s, true)
}

/// The part of an item before its first `(`.
pub open spec fn before_paren(item: Seq<char>) -> Seq<char> {
    let open = index_of_from(item, '(', 0);
    if open >= 0 {
        item.take(open)
    } else {
        item
    }
}

/// The column names listed between the first `(` of `item` and its match.
pub open spec fn paren_columns(item: Seq<char>) -> Seq<Seq<char>> {
    let open = index_of_from(item, '(', 0);
    if open < 0 {
        Seq::empty()
    } else {
        let c = close_index(item, open + 1, 1, false);
        let end = if c < 0 {
            item.len() as int
        } else {
            c
        };
        top_level_list(item.subrange(open + 1, end), false).map_values(
            |x: Seq<char>| strip_pair(x, '`'),
        )
    }
}

pub open spec fn upper_word(ws: Seq<Seq<char>>, k: int) -> Seq<char> {
    if 0 <= k < ws.len() {
        upper(ws[k])
    } else {
        Seq::empty()
    }
}

/// The name of an index declared by `item` whose name is word `k`, or,
/// when there is no such word, its first column.
pub open spec fn index_name(item: Seq<char>, k: int) -> Seq<char> {
    let ws = words(before_paren(item));
    if 0 <= k < ws.len() {
        strip_pair(ws[k], '`')
    } else if paren_columns(item).len() > 0 {
        paren_columns(item)[0]
    } else {
        Seq::empty()
    }
}

pub struct AttrState {
    pub nullable: bool,
    pub default_value: Option<Seq<char>>,
    pub auto_increment: bool,
    pub comment: Option<Seq<char>>,
    pub primary: bool,
    pub unique: bool,
}

pub open spec fn attr_init() -> AttrState {
    AttrState {
        nullable: true,
        default_value: None,
        auto_increment: false,
        comment: None,
        primary: false,
        unique: false,
    }
}

/// Reads the column attributes in `toks[j..]`.
pub open spec fn attrs(toks: Seq<Seq<char>>, j: int, st: AttrState) -> AttrState
    decreases toks.len() - j,
{
    if j < 0 || j >= toks.len() {
        st
    } else {
        let t = upper(toks[j]);
        let next = upper_word(toks, j + 1);
        if t == "NOT"@ && j + 1 < toks.len() && next == "NULL"@ {
            attrs(toks, j + 2, AttrState { nullable: false, ..st })
        } else if t == "NULL"@ {
            attrs(toks, j + 1, AttrState { nullable: true, ..st })
        } else if t == "DEFAULT"@ && j + 1 < toks.len() {
            attrs(toks, j + 2, AttrState { default_value: Some(strip_pair(toks[j + 1], '\'')), ..st })
        } else if t == "AUTO_INCREMENT"@ {
            attrs(toks, j + 1, AttrState { auto_increment: true, ..st })
        } else if t == "COMMENT"@ && j + 1 < toks.len() {
            attrs(toks, j + 2, AttrState { comment: Some(strip_pair(toks[j + 1], '\'')), ..st })
        } else if t == "PRIMARY"@ && j + 1 < toks.len() && next == "KEY"@ {
            attrs(toks, j + 2, AttrState { primary: true, ..st })
        } else if t == "UNIQUE"@ {
            attrs(toks, j + 1, AttrState { unique: true, ..st })
        } else {
            attrs(toks, j + 1, st)
        }
    }
}

pub enum ItemKind {
    Column(ColumnView, Seq<IndexView>),
    Index(IndexView),
    Skip,
}

pub open spec fn key_index(name: Seq<char>, cols: Seq<Seq<char>>, primary: bool, unique: bool) -> IndexView {
    IndexView { name, columns: cols, is_primary: primary, is_unique: unique, index_type: None }
}

/// The indexes that a column declares inline (`PRIMARY KEY`, `UNIQUE`).
pub open spec fn inline_indexes(name: Seq<char>, st: AttrState) -> Seq<IndexView> {
    let p: Seq<IndexView> = if st.primary {
        seq![key_index("PRIMARY"@, seq![name], true, false)]
    } else {
        Seq::empty()
    };
    let u: Seq<IndexView> = if st.unique {
        seq![key_index(name, seq![name], false, true)]
    } else {
        Seq::empty()
    };
    p + u
}

pub open spec fn is_skipped_word(w: Seq<char>) -> bool {
    w == "CONSTRAINT"@ || w == "FOREIGN"@ || w == "FULLTEXT"@ || w == "SPATIAL"@ || w == "CHECK"@
}

/// What one item of a column list declares.
pub open spec fn classify(item: Seq<char>) -> ItemKind {
    let ws = words(before_paren(item));
    let w0 = upper_word(ws, 0);
    let w1 = upper_word(ws, 1);
    if w0 == "PRIMARY"@ && w1 == "KEY"@ {
        ItemKind::Index(key_index("PRIMARY"@, paren_columns(item), true, false))
    } else if w0 == "UNIQUE"@ {
        let k = if w1 == "KEY"@ || w1 == "INDEX"@ {
            2int
        } else {
            1int
        };
        ItemKind::Index(key_index(index_name(item, k), paren_columns(item), false, true))
    } else if w0 == "KEY"@ || w0 == "INDEX"@ {
        ItemKind::Index(key_index(index_name(item, 1), paren_columns(item), false, false))
    } else if is_skipped_word(w0) {
        ItemKind::Skip
    } else {
        let toks = words(item);
        if toks.len() < 2 {
            ItemKind::Skip
        } else {
            let st = attrs(toks, 2, attr_init());
            let name = strip_pair(toks[0], '`');
            ItemKind::Column(
                ColumnView {
                    name,
                    data_type: toks[1],
                    nullable: st.nullable,
                    default_value: st.default_value,
                    auto_increment: st.auto_increment,
                    comment: st.comment,
                },
                inline_indexes(name, st),
            )
        }
    }
}

/// The columns and indexes declared by a column list, in order.
pub open spec fn classify_all(items: Seq<Seq<char>>) -> (Seq<ColumnView>, Seq<IndexView>)
    decreases items.len(),
{
    if items.len() == 0 {
        (Seq::empty(), Seq::empty())
    } else {
        let prev = classify_all(items.drop_last());
        match classify(items.last()) {
            ItemKind::Column(c, extra) => (prev.0.push(c), prev.1 + extra),
            ItemKind::Index(ix) => (prev.0, prev.1.push(ix)),
            ItemKind::Skip => prev,
        }
    }
}

// ---------------------------------------------------------------------------
// Table options.

/// The first index at or after `i` where `p` occurs in `s`, or `-1`.
pub open spec fn find_sub(s: Seq<char>, p: Seq<char>, i: int) -> int
    decreases s.len() + 1 - i,
{
    if i < 0 || i + p.len() > s.len() {
        -1
    } else if s.subrange(i, i + p.len()) == p {
        i
    } else {
        find_sub(s, p, i + 1)
    }
}

/// The length of the run of non-white-space characters at the start of `s`.
pub open spec fn word_len(s: Seq<char>) -> nat
    decreases s.len(),
{
    if s.len() == 0 || is_ws(s[0]) {
        0
    } else {
        1 + word_len(s.drop_first())
    }
}

/// The value written after `key` (matched without regard to case) in the
/// table options, up to the next white space.
pub open spec fn option_value(tail: Seq<char>, key: Seq<char>) -> Option<Seq<char>> {
    let i = find_sub(upper(tail), key, 0);
    if i < 0 {
        None
    } else {
        let rest = tail.skip(i + key.len());
        let n = word_len(rest);
        if n == 0 {
            None
        } else {
            Some(rest.take(n as int))
        }
    }
}


pub proof fn lemma_find_sub_range(s: Seq<char>, p: Seq<char>, i: int)
    ensures
        find_sub(s, p, i) == -1 || (i <= find_sub(s, p, i) && find_sub(s, p, i) + p.len()
            <= s.len() && s.subrange(find_sub(s, p, i), find_sub(s, p, i) + p.len()) == p),
    decreases s.len() + 1 - i,
{
    if !(i < 0 || i + p.len() > s.len()) && s.subrange(i, i + p.len()) != p {
        lemma_find_sub_range(s, p, i + 1);
    }
}

pub fn find_sub_exec(s: &Vec<char>, p: &Vec<char>) -> (r: Option<usize>)
    ensures
        match r {
            Some(k) => k as int == find_sub(s@, p@, 0),
            None => find_sub(s@, p@, 0) == -1,
        },
{
    if p.len() > s.len() {
        return None;
    }
    let last = s.len() - p.len();
    let mut i: usize = 0;
    loop
        invariant
            p@.len() <= s@.len(),
            last == s@.len() - p@.len(),
            i <= last,
            find_sub(s@, p@, i as int) == find_sub(s@, p@, 0),
        decreases last - i,
    {
        if crate::text::occurs_at_exec(s, p, i) {
            return Some(i);
        }
        if i == last {
            assert(find_sub(s@, p@, i + 1) == -1);
            return None;
        }
        i = i + 1;
    }
}

pub proof fn lemma_word_len(s: Seq<char>, n: int)
    requires
        0 <= n <= s.len(),
        forall|j: int| 0 <= j < n ==> !is_ws(#[trigger] s[j]),
        n == s.len() || is_ws(s[n]),
    ensures
        word_len(s) == n,
    decreases n,
{
    if n > 0 {
        assert forall|j: int| 0 <= j < n - 1 implies !is_ws(#[trigger] s.drop_first()[j]) by {
            assert(s.drop_first()[j] == s[j + 1]);
        }
        if n < s.len() {
            assert(s.drop_first()[n - 1] == s[n]);
        }
        lemma_word_len(s.drop_first(), n - 1);
    }
}

pub open spec fn opt_chars(o: Option<Vec<char>>) -> Option<Seq<char>> {
    match o {
        Some(v) => Some(v@),
        None => None,
    }
}

fn option_value_exec(tail: &Vec<char>, key: &str) -> (r: Option<Vec<char>>)
    ensures
        opt_chars(r) == option_value(tail@, key@),
{
    let k = to_chars(key);
    let u = to_upper(tail);
    match find_sub_exec(&u, &k) {
        None => None,
        Some(i) => {
            proof {
                lemma_find_sub_range(u@, k@, 0);
                assert(u@.len() == tail@.len());
                assert(i + k@.len() <= tail@.len());
            }
            let klen = k.len();
            let tlen = tail.len();
            assert(i + klen <= tlen);
            let start = i + klen;
            let rest = slice_chars(tail, start, tlen);
            assert(rest@ =~= tail@.skip(i + k@.len()));
            let mut n: usize = 0;
            while n < rest.len() && !is_whitespace_char(rest[n])
                invariant
                    n <= rest@.len(),
                    forall|j: int| 0 <= j < n ==> !is_ws(#[trigger] rest@[j]),
                decreases rest@.len() - n,
            {
                n = n + 1;
            }
            proof {
                lemma_word_len(rest@, n as int);
            }
            if n == 0 {
                None
            } else {
                let v = slice_chars(&rest, 0, n);
                assert(v@ =~= rest@.take(n as int));
                Some(v)
            }
        },
    }
}

/// Keyword spellings used when reading column lists.
struct Keywords {
    not: Vec<char>,
    null: Vec<char>,
    default: Vec<char>,
    auto_increment: Vec<char>,
    comment: Vec<char>,
    primary: Vec<char>,
    key: Vec<char>,
    unique: Vec<char>,
    index: Vec<char>,
    constraint: Vec<char>,
    foreign: Vec<char>,
    fulltext: Vec<char>,
    spatial: Vec<char>,
    check: Vec<char>,
}

impl Keywords {
    spec fn wf(&self) -> bool {
        &&& self.not@ == "NOT"@
        &&& self.null@ == "NULL"@
        &&& self.default@ == "DEFAULT"@
        &&& self.auto_increment@ == "AUTO_INCREMENT"@
        &&& self.comment@ == "COMMENT"@
        &&& self.primary@ == "PRIMARY"@
        &&& self.key@ == "KEY"@
        &&& self.unique@ == "UNIQUE"@
        &&& self.index@ == "INDEX"@
        &&& self.constraint@ == "CONSTRAINT"@
        &&& self.foreign@ == "FOREIGN"@
        &&& self.fulltext@ == "FULLTEXT"@
        &&& self.spatial@ == "SPATIAL"@
        &&& self.check@ == "CHECK"@
    }

    fn new() -> (r: Keywords)
        ensures
            r.wf(),
    {
        Keywords {
            not: to_chars("NOT"),
            null: to_chars("NULL"),
            default: to_chars("DEFAULT"),
            auto_increment: to_chars("AUTO_INCREMENT"),
            comment: to_chars("COMMENT"),
            primary: to_chars("PRIMARY"),
            key: to_chars("KEY"),
            unique: to_chars("UNIQUE"),
            index: to_chars("INDEX"),
            constraint: to_chars("CONSTRAINT"),
            foreign: to_chars("FOREIGN"),
            fulltext: to_chars("FULLTEXT"),
            spatial: to_chars("SPATIAL"),
            check: to_chars("CHECK"),
        }
    }
}

fn upper_word_exec(ws: &Vec<Vec<char>>, k: usize) -> (r: Vec<char>)
    ensures
        r@ == upper_word(views(ws@), k as int),
{
    if k < ws.len() {
        to_upper(&ws[k])
    } else {
        let r: Vec<char> = Vec::new();
        assert(r@ =~= Seq::<char>::empty());
        r
    }
}

fn before_paren_exec(item: &Vec<char>) -> (r: Vec<char>)
    ensures
        r@ == before_paren(item@),
{
    match find_char(item, '(', 0) {
        Some(open) => {
            proof {
                lemma_index_of_range(item@, '(', 0);
            }
            let r = slice_chars(item, 0, open);
            assert(r@ =~= item@.take(open as int));
            r
        },
        None => slice_chars(item, 0, item.len()),
    }
}

fn strings_of(parts: &Vec<Vec<char>>) -> (r: Vec<String>)
    ensures
        str_views(r@) == views(parts@).map_values(|x: Seq<char>| strip_pair(x, '`')),
{
    let mut r: Vec<String> = Vec::new();
    let mut k: usize = 0;
    while k < parts.len()
        invariant
            k <= parts@.len(),
            str_views(r@) == views(parts@).take(k as int).map_values(
                |x: Seq<char>| strip_pair(x, '`'),
            ),
        decreases parts@.len() - k,
    {
        let t = strip_pair_chars(&parts[k], '`');
        let st = from_chars(&t);
        proof {
            lemma_str_views_push(r@, st);
            assert(views(parts@).take(k + 1).map_values(|x: Seq<char>| strip_pair(x, '`'))
                =~= views(parts@).take(k as int).map_values(|x: Seq<char>| strip_pair(x, '`')).push(
                strip_pair(parts@[k as int]@, '`'),
            ));
        }
        r.push(st);
        k = k + 1;
    }
    assert(views(parts@).take(parts@.len() as int) =~= views(parts@));
    r
}

fn paren_columns_exec(item: &Vec<char>) -> (r: Vec<String>)
    ensures
        str_views(r@) == paren_columns(item@),
{
    match find_char(item, '(', 0) {
        None => {
            let r: Vec<String> = Vec::new();
            assert(str_views(r@) =~= Seq::<Seq<char>>::empty());
            r
        },
        Some(open) => {
            proof {
                lemma_index_of_range(item@, '(', 0);
                lemma_close_index_range(item@, open + 1, 1, false);
                assert(open < item@.len());
            }
            let ilen = item.len();
            assert(open < ilen);
            let start = open + 1;
            let end = match find_close(item, start) {
                Some(c) => c,
                None => item.len(),
            };
            let inner = slice_chars(item, open + 1, end);
            let parts = split_top_level(&inner, false);
            strings_of(&parts)
        },
    }
}

fn index_name_exec(item: &Vec<char>, k: usize) -> (r: String)
    ensures
        r@ == index_name(item@, k as int),
{
    let pre = before_paren_exec(item);
    let ws = split_top_level(&pre, true);
    if k < ws.len() {
        let t = strip_pair_chars(&ws[k], '`');
        from_chars(&t)
    } else {
        let cols = paren_columns_exec(item);
        if cols.len() > 0 {
            cols[0].clone()
        } else {
            let r = String::new();
            r
        }
    }
}

/// What an item of a column list declares, as values.
pub enum Item {
    Column(TableColumn, Vec<TableIndex>),
    Index(TableIndex),
    Skip,
}

pub open spec fn item_view(it: Item) -> ItemKind {
    match it {
        Item::Column(c, v) => ItemKind::Column(c@, index_views(v@)),
        Item::Index(ix) => ItemKind::Index(ix@),
        Item::Skip => ItemKind::Skip,
    }
}

fn opt_string(o: Option<Vec<char>>) -> (r: Option<String>)
    ensures
        opt_view(r) == opt_chars(o),
{
    match o {
        Some(v) => Some(from_chars(&v)),
        None => None,
    }
}

fn make_index(name: String, cols: Vec<String>, primary: bool, unique: bool) -> (r: TableIndex)
    ensures
        r@ == key_index(name@, str_views(cols@), primary, unique),
{
    TableIndex { name, columns: cols, is_primary: primary, is_unique: unique, index_type: None }
}

fn one_name(name: &String) -> (r: Vec<String>)
    ensures
        str_views(r@) == seq![name@],
{
    let mut r: Vec<String> = Vec::new();
    r.push(name.clone());
    assert(str_views(r@) =~= seq![name@]);
    r
}

fn column_item(toks: &Vec<Vec<char>>, kw: &Keywords) -> (r: Item)
    requires
        kw.wf(),
        toks@.len() >= 2,
    ensures
        ({
            let t = views(toks@);
            let st = attrs(t, 2, attr_init());
            let name = strip_pair(t[0], '`');
            item_view(r) == ItemKind::Column(
                ColumnView {
                    name,
                    data_type: t[1],
                    nullable: st.nullable,
                    default_value: st.default_value,
                    auto_increment: st.auto_increment,
                    comment: st.comment,
                },
                inline_indexes(name, st),
            )
        }),
{
    let ghost t = views(toks@);
    let mut nullable = true;
    let mut default_value: Option<Vec<char>> = None;
    let mut auto_increment = false;
    let mut comment: Option<Vec<char>> = None;
    let mut primary = false;
    let mut unique = false;
    let mut j: usize = 2;
    while j < toks.len()
        invariant
            kw.wf(),
            t == views(toks@),
            2 <= j <= toks@.len(),
            attrs(
                t,
                j as int,
                AttrState {
                    nullable,
                    default_value: opt_chars(default_value),
                    auto_increment,
                    comment: opt_chars(comment),
                    primary,
                    unique,
                },
            ) == attrs(t, 2, attr_init()),
        decreases toks@.len() - j,
    {
        let u = to_upper(&toks[j]);
        let next = upper_word_exec(toks, j + 1);
        let has_next = j + 1 < toks.len();
        if chars_eq(&u, &kw.not) && has_next && chars_eq(&next, &kw.null) {
            nullable = false;
            j = j + 2;
        } else if chars_eq(&u, &kw.null) {
            nullable = true;
            j = j + 1;
        } else if chars_eq(&u, &kw.default) && has_next {
            default_value = Some(strip_pair_chars(&toks[j + 1], '\''));
            j = j + 2;
        } else if chars_eq(&u, &kw.auto_increment) {
            auto_increment = true;
            j = j + 1;
        } else if chars_eq(&u, &kw.comment) && has_next {
            comment = Some(strip_pair_chars(&toks[j + 1], '\''));
            j = j + 2;
        } else if chars_eq(&u, &kw.primary) && has_next && chars_eq(&next, &kw.key) {
            primary = true;
            j = j + 2;
        } else if chars_eq(&u, &kw.unique) {
            unique = true;
            j = j + 1;
        } else {
            j = j + 1;
        }
    }
    let name_chars = strip_pair_chars(&toks[0], '`');
    let name = from_chars(&name_chars);
    let mut extra: Vec<TableIndex> = Vec::new();
    let ghost st = attrs(t, 2, attr_init());
    if primary {
        let ix = make_index(String::from_str("PRIMARY"), one_name(&name), true, false);
        extra.push(ix);
    }
    let ghost e1 = index_views(extra@);
    if unique {
        let ix = make_index(name.clone(), one_name(&name), false, true);
        extra.push(ix);
    }
    proof {
        let p: Seq<IndexView> = if st.primary {
            seq![key_index("PRIMARY"@, seq![name@], true, false)]
        } else {
            Seq::empty()
        };
        assert(e1 =~= p);
        assert(index_views(extra@) =~= inline_indexes(name@, st));
    }
    let col = TableColumn {
        name,
        data_type: from_chars(&toks[1]),
        nullable,
        default_value: opt_string(default_value),
        auto_increment,
        comment: opt_string(comment),
    };
    Item::Column(col, extra)
}

fn classify_exec(item: &Vec<char>, kw: &Keywords) -> (r: Item)
    requires
        kw.wf(),
    ensures
        item_view(r) == classify(item@),
{
    let pre = before_paren_exec(item);
    let ws = split_top_level(&pre, true);
    let w0 = upper_word_exec(&ws, 0);
    let w1 = upper_word_exec(&ws, 1);
    if chars_eq(&w0, &kw.primary) && chars_eq(&w1, &kw.key) {
        Item::Index(make_index(String::from_str("PRIMARY"), paren_columns_exec(item), true, false))
    } else if chars_eq(&w0, &kw.unique) {
        let k: usize = if chars_eq(&w1, &kw.key) || chars_eq(&w1, &kw.index) {
            2
        } else {
            1
        };
        Item::Index(make_index(index_name_exec(item, k), paren_columns_exec(item), false, true))
    } else if chars_eq(&w0, &kw.key) || chars_eq(&w0, &kw.index) {
        Item::Index(make_index(index_name_exec(item, 1), paren_columns_exec(item), false, false))
    } else if chars_eq(&w0, &kw.constraint) || chars_eq(&w0, &kw.foreign) || chars_eq(
        &w0,
        &kw.fulltext,
    ) || chars_eq(&w0, &kw.spatial) || chars_eq(&w0, &kw.check) {
        Item::Skip
    } else {
        let toks = split_top_level(item, true);
        if toks.len() < 2 {
            Item::Skip
        } else {
            column_item(&toks, kw)
        }
    }
}

pub proof fn lemma_index_views_push(v: Seq<TableIndex>, x: TableIndex)
    ensures
        index_views(v.push(x)) == index_views(v).push(x@),
{
    assert(index_views(v.push(x)) =~= index_views(v).push(x@));
}

pub proof fn lemma_column_views_push(v: Seq<TableColumn>, x: TableColumn)
    ensures
        column_views(v.push(x)) == column_views(v).push(x@),
{
    assert(column_views(v.push(x)) =~= column_views(v).push(x@));
}

fn append_indexes(dst: &mut Vec<TableIndex>, src: &Vec<TableIndex>)
    ensures
        index_views(final(dst)@) == index_views(old(dst)@) + index_views(src@),
{
    let mut k: usize = 0;
    while k < src.len()
        invariant
            k <= src@.len(),
            index_views(dst@) == index_views(old(dst)@) + index_views(src@).take(k as int),
        decreases src@.len() - k,
    {
        let x = src[k].duplicate();
        proof {
            lemma_index_views_push(dst@, x);
            assert(index_views(src@).take(k + 1) =~= index_views(src@).take(k as int).push(src@[k as int]@));
        }
        dst.push(x);
        k = k + 1;
    }
    assert(index_views(src@).take(src@.len() as int) =~= index_views(src@));
}

fn classify_items(items: &Vec<Vec<char>>) -> (r: (Vec<TableColumn>, Vec<TableIndex>))
    ensures
        (column_views(r.0@), index_views(r.1@)) == classify_all(views(items@)),
{
    let kw = Keywords::new();
    let mut cols: Vec<TableColumn> = Vec::new();
    let mut idxs: Vec<TableIndex> = Vec::new();
    let mut i: usize = 0;
    assert(column_views(cols@) =~= Seq::<ColumnView>::empty());
    assert(index_views(idxs@) =~= Seq::<IndexView>::empty());
    while i < items.len()
        invariant
            kw.wf(),
            i <= items@.len(),
            (column_views(cols@), index_views(idxs@)) == classify_all(views(items@).take(i as int)),
        decreases items@.len() - i,
    {
        let it = classify_exec(&items[i], &kw);
        proof {
            assert(views(items@).take(i + 1).drop_last() =~= views(items@).take(i as int));
            assert(views(items@).take(i + 1).last() == items@[i as int]@);
        }
        match it {
            Item::Column(c, extra) => {
                proof {
                    lemma_column_views_push(cols@, c);
                }
                cols.push(c);
                append_indexes(&mut idxs, &extra);
            },
            Item::Index(ix) => {
                proof {
                    lemma_index_views_push(idxs@, ix);
                }
                idxs.push(ix);
            },
            Item::Skip => {},
        }
        i = i + 1;
    }
    assert(views(items@).take(items@.len() as int) =~= views(items@));
    (cols, idxs)
}

// ---------------------------------------------------------------------------
// One `CREATE TABLE` statement.

pub open spec fn parse_create_table(st: Seq<char>) -> Result<TableView, SqlParseError> {
    let open = index_of_from(st, '(', 0);
    if open < 0 {
        Err(SqlParseError::MissingColumnList)
    } else {
        let head = words(st.take(open));
        if head.len() < 3 {
            Err(SqlParseError::MissingTableName)
        } else {
            let close = close_index(st, open + 1, 1, false);
            if close < 0 {
                Err(SqlParseError::UnclosedColumnList)
            } else {
                let parts = classify_all(top_level_list(st.subrange(open + 1, close), false));
                let tail = st.skip(close + 1);
                Ok(
                    TableView {
                        name: strip_pair(head.last(), '`'),
                        columns: parts.0,
                        indexes: parts.1,
                        engine: option_value(tail, "ENGINE="@),
                        charset: option_value(tail, "CHARSET="@),
                    },
                )
            }
        }
    }
}

// ---------------------------------------------------------------------------
// The whole script.

/// The index of the first table named `name` at or after `i`, or `-1`.
pub open spec fn find_table(ts: Seq<TableView>, name: Seq<char>, i: int) -> int
    decreases ts.len() - i,
{
    if i < 0 || i >= ts.len() {
        -1
    } else if ts[i].name == name {
        i
    } else {
        find_table(ts, name, i + 1)
    }
}

/// `ts` with `t` in place of the table of the same name, or with `t` added.
pub open spec fn upsert_table(ts: Seq<TableView>, t: TableView) -> Seq<TableView> {
    let k = find_table(ts, t.name, 0);
    if k >= 0 {
        ts.update(k, t)
    } else {
        ts.push(t)
    }
}

pub open spec fn collect_tables(stmts: Seq<Seq<char>>) -> Result<Seq<TableView>, SqlParseError>
    decreases stmts.len(),
{
    if stmts.len() == 0 {
        Ok(Seq::empty())
    } else {
        match collect_tables(stmts.drop_last()) {
            Err(e) => Err(e),
            Ok(ts) => if is_create_table(stmts.last()) {
                match parse_create_table(stmts.last()) {
                    Ok(t) => Ok(upsert_table(ts, t)),
                    Err(e) => Err(e),
                }
            } else {
                Ok(ts)
            },
        }
    }
}

/// The tables that a script creates, in order of first creation; a later
/// definition of the same name replaces an earlier one.
pub open spec fn parse_tables(sql: Seq<char>) -> Result<Seq<TableView>, SqlParseError> {
    collect_tables(scoped_statements(sql_statements(strip_comment_lines(sql))))
}


pub open spec fn names_unique(ts: Seq<TableView>) -> bool {
    forall|i: int, j: int| 0 <= i < ts.len() && 0 <= j < ts.len() && i != j ==> ts[i].name != ts[j].name
}

pub proof fn lemma_find_table_range(ts: Seq<TableView>, name: Seq<char>, i: int)
    requires
        0 <= i,
    ensures
        find_table(ts, name, i) == -1 || (0 <= i <= find_table(ts, name, i) < ts.len() && ts[find_table(
            ts,
            name,
            i,
        )].name == name),
        find_table(ts, name, i) == -1 ==> forall|k: int| i <= k < ts.len() ==> ts[k].name != name,
    decreases ts.len() - i,
{
    if 0 <= i < ts.len() && ts[i].name != name {
        lemma_find_table_range(ts, name, i + 1);
    }
}

/// Law: replacing or adding a table keeps table names distinct.
pub proof fn lemma_upsert_keeps_names_unique(ts: Seq<TableView>, t: TableView)
    requires
        names_unique(ts),
    ensures
        names_unique(upsert_table(ts, t)),
        find_table(upsert_table(ts, t), t.name, 0) >= 0,
        upsert_table(ts, t)[find_table(upsert_table(ts, t), t.name, 0)] == t,
{
    lemma_find_table_range(ts, t.name, 0);
    let r = upsert_table(ts, t);
    lemma_find_table_range(r, t.name, 0);
    let k = find_table(ts, t.name, 0);
    if k >= 0 {
        assert forall|i: int, j: int| 0 <= i < r.len() && 0 <= j < r.len() && i != j implies r[i].name
            != r[j].name by {
            if i == k {
                assert(ts[k].name == t.name);
            } else if j == k {
                assert(ts[k].name == t.name);
            }
        }
        assert(r[k] == t);
        if find_table(r, t.name, 0) != k {
            let f = find_table(r, t.name, 0);
            assert(r[f].name == t.name);
            assert(r[k].name == t.name);
        }
    } else {
        assert(r[ts.len() as int] == t);
        if find_table(r, t.name, 0) == -1 {
            assert(r[ts.len() as int].name == t.name);
        }
        let f = find_table(r, t.name, 0);
        if f != ts.len() {
            assert(r[f].name == t.name);
            assert(ts[f].name == t.name);
        }
    }
}

/// The tables of a script, by name; no two share a name.
pub struct Schema {
    tables: Vec<TableDefinition>,
}

impl View for Schema {
    type V = Seq<TableView>;

    closed spec fn view(&self) -> Seq<TableView> {
        table_views(self.tables@)
    }
}

pub proof fn lemma_table_views_push(v: Seq<TableDefinition>, x: TableDefinition)
    ensures
        table_views(v.push(x)) == table_views(v).push(x@),
{
    assert(table_views(v.push(x)) =~= table_views(v).push(x@));
}

pub proof fn lemma_table_views_update(v: Seq<TableDefinition>, k: int, x: TableDefinition)
    requires
        0 <= k < v.len(),
    ensures
        table_views(v.update(k, x)) == table_views(v).update(k, x@),
{
    assert(table_views(v.update(k, x)) =~= table_views(v).update(k, x@));
}

impl Schema {
    #[verifier::type_invariant]
    spec fn wf(&self) -> bool {
        names_unique(table_views(self.tables@))
    }

    /// An empty schema.
    pub fn new() -> (r: Schema)
        ensures
            r@ == Seq::<TableView>::empty(),
    {
        let r = Schema { tables: Vec::new() };
        assert(r@ =~= Seq::<TableView>::empty());
        r
    }

    /// The index of the table named `name`.
    fn position(&self, name: &str) -> (r: Option<usize>)
        ensures
            match r {
                Some(k) => k as int == find_table(self@, name@, 0),
                None => find_table(self@, name@, 0) == -1,
            },
    {
        let mut i: usize = 0;
        while i < self.tables.len()
            invariant
                i <= self.tables@.len(),
                self@ == table_views(self.tables@),
                find_table(self@, name@, i as int) == find_table(self@, name@, 0),
            decreases self.tables@.len() - i,
        {
            if crate::text::str_eq(self.tables[i].name.as_str(), name) {
                return Some(i);
            }
            i = i + 1;
        }
        None
    }

    /// Adds `t`, or replaces the table of the same name by it.
    pub fn insert(&mut self, t: TableDefinition)
        ensures
            final(self)@ == upsert_table(old(self)@, t@),
            names_unique(final(self)@),
    {
        proof {
            use_type_invariant(&*self);
            lemma_upsert_keeps_names_unique(self@, t@);
        }
        let pos = self.position(t.name.as_str());
        match pos {
            Some(k) => {
                proof {
                    lemma_find_table_range(self@, t.name@, 0);
                    lemma_table_views_update(self.tables@, k as int, t);
                }
                let mut tables: Vec<TableDefinition> = Vec::new();
                std::mem::swap(&mut tables, &mut self.tables);
                tables.set(k, t);
                self.tables = tables;
            },
            None => {
                proof {
                    lemma_table_views_push(self.tables@, t);
                }
                let mut tables: Vec<TableDefinition> = Vec::new();
                std::mem::swap(&mut tables, &mut self.tables);
                tables.push(t);
                self.tables = tables;
            },
        }
    }

    /// The number of tables.
    pub fn len(&self) -> (r: usize)
        ensures
            r == self@.len(),
    {
        self.tables.len()
    }

    /// Whether a table is named `name`.
    pub fn contains_key(&self, name: &str) -> (r: bool)
        ensures
            r == (find_table(self@, name@, 0) >= 0),
    {
        self.position(name).is_some()
    }

    /// The table named `name`, if any.
    pub fn get(&self, name: &str) -> (r: Option<&TableDefinition>)
        ensures
            match r {
                Some(t) => find_table(self@, name@, 0) >= 0 && t@ == self@[find_table(self@, name@, 0)],
                None => find_table(self@, name@, 0) == -1,
            },
    {
        match self.position(name) {
            Some(k) => {
                proof {
                    lemma_find_table_range(self@, name@, 0);
                }
                Some(&self.tables[k])
            },
            None => None,
        }
    }

    /// The table names, in order.
    pub fn keys(&self) -> (r: Vec<String>)
        ensures
            str_views(r@) == self@.map_values(|t: TableView| t.name),
    {
        let mut r: Vec<String> = Vec::new();
        let mut i: usize = 0;
        while i < self.tables.len()
            invariant
                i <= self.tables@.len(),
                self@ == table_views(self.tables@),
                str_views(r@) == self@.take(i as int).map_values(|t: TableView| t.name),
            decreases self.tables@.len() - i,
        {
            let n = self.tables[i].name.clone();
            proof {
                lemma_str_views_push(r@, n);
                assert(self@.take(i + 1).map_values(|t: TableView| t.name) =~= self@.take(
                    i as int,
                ).map_values(|t: TableView| t.name).push(self@[i as int].name));
            }
            r.push(n);
            i = i + 1;
        }
        assert(self@.take(self@.len() as int) =~= self@);
        r
    }

    /// The tables, in order.
    pub fn tables(&self) -> (r: &Vec<TableDefinition>)
        ensures
            table_views(r@) == self@,
    {
        &self.tables
    }
}

fn parse_create_table_exec(st: &Vec<char>) -> (r: Result<TableDefinition, SqlParseError>)
    ensures
        match r {
            Ok(t) => parse_create_table(st@) == Ok::<TableView, SqlParseError>(t@),
            Err(e) => parse_create_table(st@) == Err::<TableView, SqlParseError>(e),
        },
{
    let open = match find_char(st, '(', 0) {
        None => return Err(SqlParseError::MissingColumnList),
        Some(o) => o,
    };
    proof {
        lemma_index_of_range(st@, '(', 0);
    }
    let head_chars = slice_chars(st, 0, open);
    assert(head_chars@ =~= st@.take(open as int));
    let head = split_top_level(&head_chars, true);
    if head.len() < 3 {
        return Err(SqlParseError::MissingTableName);
    }
    let slen = st.len();
    assert(open < slen);
    let start = open + 1;
    let close = match find_close(st, start) {
        None => return Err(SqlParseError::UnclosedColumnList),
        Some(c) => c,
    };
    proof {
        lemma_close_index_range(st@, start as int, 1, false);
    }
    let body = slice_chars(st, start, close);
    let items = split_top_level(&body, false);
    let parts = classify_items(&items);
    let tail = slice_chars(st, close + 1, slen);
    assert(tail@ =~= st@.skip(close + 1));
    let name_chars = strip_pair_chars(&head[head.len() - 1], '`');
    let engine = option_value_exec(&tail, "ENGINE=");
    let charset = option_value_exec(&tail, "CHARSET=");
    let (columns, indexes) = parts;
    let t = TableDefinition {
        name: from_chars(&name_chars),
        columns,
        indexes,
        engine: opt_string(engine),
        charset: opt_string(charset),
    };
    Ok(t)
}

fn scoped_range(stmts: &Vec<Vec<char>>) -> (r: usize)
    ensures
        r <= stmts@.len(),
        views(stmts@).skip(r as int) == scoped_statements(views(stmts@)),
{
    let mut i: usize = 0;
    while i < stmts.len()
        invariant
            i <= stmts@.len(),
            first_use(views(stmts@), i as int) == first_use(views(stmts@), 0),
        decreases stmts@.len() - i,
    {
        if starts_with_keyword(&stmts[i], "USE") {
            return i + 1;
        }
        i = i + 1;
    }
    assert(views(stmts@).skip(0) =~= views(stmts@));
    0
}

/// Reads the tables that `sql` creates (see the module documentation).
pub fn parse_sql_tables(sql: &str) -> (r: Result<Schema, SqlParseError>)
    ensures
        match r {
            Ok(s) => parse_tables(sql@) == Ok::<Seq<TableView>, SqlParseError>(s@),
            Err(e) => parse_tables(sql@) == Err::<Seq<TableView>, SqlParseError>(e),
        },
{
    let chars = to_chars(sql);
    let text = remove_comment_lines(&chars);
    let stmts = split_sql_statements(&text);
    let from = scoped_range(&stmts);
    let ghost scoped = views(stmts@).skip(from as int);
    let mut schema = Schema::new();
    let mut i: usize = from;
    while i < stmts.len()
        invariant
            from <= i <= stmts@.len(),
            scoped == views(stmts@).skip(from as int),
            scoped == scoped_statements(sql_statements(strip_comment_lines(sql@))),
            collect_tables(scoped.take(i - from)) == Ok::<Seq<TableView>, SqlParseError>(schema@),
        decreases stmts@.len() - i,
    {
        proof {
            assert(scoped.take(i + 1 - from).drop_last() =~= scoped.take(i - from));
            assert(scoped.take(i + 1 - from).last() == stmts@[i as int]@);
        }
        if starts_with_keyword(&stmts[i], "CREATE TABLE") {
            match parse_create_table_exec(&stmts[i]) {
                Ok(t) => {
                    schema.insert(t);
                },
                Err(e) => {
                    proof {
                        assert(collect_tables(scoped.take(i + 1 - from)) == Err::<
                            Seq<TableView>,
                            SqlParseError,
                        >(e));
                        lemma_collect_err_stays(scoped, (i + 1 - from) as int);
                    }
                    return Err(e);
                },
            }
        }
        i = i + 1;
    }
    assert(scoped.take(i - from) =~= scoped);
    Ok(schema)
}

/// An error while reading a prefix stays the result of the whole.
pub proof fn lemma_collect_err_stays(stmts: Seq<Seq<char>>, n: int)
    requires
        0 <= n <= stmts.len(),
        collect_tables(stmts.take(n)) is Err,
    ensures
        collect_tables(stmts) == collect_tables(stmts.take(n)),
    decreases stmts.len() - n,
{
    if n < stmts.len() {
        assert(stmts.take(n + 1).drop_last() =~= stmts.take(n));
        lemma_collect_err_stays(stmts, n + 1);
    } else {
        assert(stmts.take(n) =~= stmts);
    }
}

} // verus!
