//! Lexical scanning of SQL text: statements, top-level lists, bracket matching.
use vstd::prelude::*;
use crate::split::{views, lemma_views_push, lemma_views_empty};
use crate::text::{trim, trim_start, trim_chars};

verus! {

// ---------------------------------------------------------------------------
// Statement splitting: `;` ends a statement unless it stands inside a quoted
// string or inside a `{ ... }` JSON literal. A string opened by `'` is closed
// only by `'`, one opened by `"` only by `"`.

pub struct StmtState {
    pub stmts: Seq<Seq<char>>,
    pub cur: Seq<char>,
    pub in_string: bool,
    /// The quote that opened the current string.
    pub quote: char,
    pub in_json: bool,
    pub braces: nat,
}

/// A finished statement is kept, trimmed, unless it is blank.
pub open spec fn add_trimmed(ps: Seq<Seq<char>>, cur: Seq<char>) -> Seq<Seq<char>> {
    if trim(cur).len() > 0 {
        ps.push(trim(cur))
    } else {
        ps
    }
}

pub open spec fn stmt_step(st: StmtState, ch: char) -> StmtState {
    if ch == '\'' || ch == '"' {
        if st.in_json {
            StmtState { cur: st.cur.push(ch), ..st }
        } else if !st.in_string {
            StmtState { cur: st.cur.push(ch), in_string: true, quote: ch, ..st }
        } else if ch == st.quote {
            StmtState { cur: st.cur.push(ch), in_string: false, ..st }
        } else {
            StmtState { cur: st.cur.push(ch), ..st }
        }
    } else if ch == '{' {
        if !st.in_string {
            StmtState { cur: st.cur.push(ch), braces: st.braces + 1, in_json: true, ..st }
        } else {
            StmtState { cur: st.cur.push(ch), ..st }
        }
    } else if ch == '}' {
        if !st.in_string && st.in_json {
            let b: nat = if st.braces > 0 {
                (st.braces - 1) as nat
            } else {
                0
            };
            StmtState { cur: st.cur.push(ch), braces: b, in_json: b != 0, ..st }
        } else {
            StmtState { cur: st.cur.push(ch), ..st }
        }
    } else if ch == ';' {
        if !st.in_string && !st.in_json {
            StmtState { stmts: add_trimmed(st.stmts, st.cur), cur: Seq::empty(), ..st }
        } else {
            StmtState { cur: st.cur.push(ch), ..st }
        }
    } else {
        StmtState { cur: st.cur.push(ch), ..st }
    }
}

pub open spec fn stmt_run(s: Seq<char>, i: int, st: StmtState) -> StmtState
    decreases s.len() - i,
{
    if 0 <= i < s.len() {
        stmt_run(s, i + 1, stmt_step(st, s[i]))
    } else {
        st
    }
}

pub open spec fn stmt_init() -> StmtState {
    StmtState {
        stmts: Seq::empty(),
        cur: Seq::empty(),
        in_string: false,
        quote: '\'',
        in_json: false,
        braces: 0,
    }
}

/// The statements of a SQL script, trimmed, blank ones left out.
pub open spec fn sql_statements(s: Seq<char>) -> Seq<Seq<char>> {
    let st = stmt_run(s, 0, stmt_init());
    add_trimmed(st.stmts, st.cur)
}

fn push_trimmed(ps: &mut Vec<Vec<char>>, cur: &Vec<char>)
    ensures
        views(final(ps)@) == add_trimmed(views(old(ps)@), cur@),
{
    let t = trim_chars(cur);
    if t.len() > 0 {
        proof {
            lemma_views_push(ps@, t);
        }
        ps.push(t);
    }
}

/// Splits a SQL script into statements (`;` inside quotes or JSON braces
/// does not end a statement).
pub fn split_sql_statements(s: &Vec<char>) -> (r: Vec<Vec<char>>)
    ensures
        views(r@) == sql_statements(s@),
{
    let mut stmts: Vec<Vec<char>> = Vec::new();
    let mut cur: Vec<char> = Vec::new();
    let mut in_string = false;
    let mut quote: char = '\'';
    let mut in_json = false;
    let mut braces: usize = 0;
    let mut i: usize = 0;
    proof {
        lemma_views_empty();
        assert(cur@ =~= Seq::<char>::empty());
    }
    while i < s.len()
        invariant
            i <= s@.len(),
            braces <= i,
            stmt_run(
                s@,
                i as int,
                StmtState {
                    stmts: views(stmts@),
                    cur: cur@,
                    in_string,
                    quote,
                    in_json,
                    braces: braces as nat,
                },
            ) == stmt_run(s@, 0, stmt_init()),
        decreases s@.len() - i,
    {
        let ch = s[i];
        if ch == '\'' || ch == '"' {
            cur.push(ch);
            if !in_json {
                if !in_string {
                    in_string = true;
                    quote = ch;
                } else if ch == quote {
                    in_string = false;
                }
            }
        } else if ch == '{' {
            cur.push(ch);
            if !in_string {
                braces = braces + 1;
                in_json = true;
            }
        } else if ch == '}' {
            cur.push(ch);
            if !in_string && in_json {
                if braces > 0 {
                    braces = braces - 1;
                }
                in_json = braces != 0;
            }
        } else if ch == ';' {
            if !in_string && !in_json {
                push_trimmed(&mut stmts, &cur);
                cur = Vec::new();
                assert(cur@ =~= Seq::<char>::empty());
            } else {
                cur.push(ch);
            }
        } else {
            cur.push(ch);
        }
        i = i + 1;
    }
    push_trimmed(&mut stmts, &cur);
    stmts
}

// ---------------------------------------------------------------------------
// Top-level lists: pieces separated by `,` (or by white space) that stand
// outside parentheses and outside single-quoted strings.

pub struct ListState {
    pub pieces: Seq<Seq<char>>,
    pub cur: Seq<char>,
    pub depth: nat,
    pub in_quote: bool,
}

/// Whether `ch` separates list pieces: a comma, or (when `by_space`) white space.
pub open spec fn is_list_sep(ch: char, by_space: bool) -> bool {
    if by_space {
        crate::text::is_ws(ch)
    } else {
        ch == ','
    }
}

pub open spec fn list_step(st: ListState, ch: char, by_space: bool) -> ListState {
    if ch == '\'' {
        ListState { cur: st.cur.push(ch), in_quote: !st.in_quote, ..st }
    } else if st.in_quote {
        ListState { cur: st.cur.push(ch), ..st }
    } else if ch == '(' {
        ListState { cur: st.cur.push(ch), depth: st.depth + 1, ..st }
    } else if ch == ')' {
        ListState {
            cur: st.cur.push(ch),
            depth: if st.depth > 0 {
                (st.depth - 1) as nat
            } else {
                0
            },
            ..st
        }
    } else if st.depth == 0 && is_list_sep(ch, by_space) {
        ListState { pieces: add_trimmed(st.pieces, st.cur), cur: Seq::empty(), ..st }
    } else {
        ListState { cur: st.cur.push(ch), ..st }
    }
}

pub open spec fn list_run(s: Seq<char>, by_space: bool, i: int, st: ListState) -> ListState
    decreases s.len() - i,
{
    if 0 <= i < s.len() {
        list_run(s, by_space, i + 1, list_step(st, s[i], by_space))
    } else {
        st
    }
}

/// The trimmed, non-blank top-level pieces of `s`.
pub open spec fn top_level_list(s: Seq<char>, by_space: bool) -> Seq<Seq<char>> {
    let st = list_run(
        s,
        by_space,
        0,
        ListState { pieces: Seq::empty(), cur: Seq::empty(), depth: 0, in_quote: false },
    );
    add_trimmed(st.pieces, st.cur)
}

pub fn split_top_level(s: &Vec<char>, by_space: bool) -> (r: Vec<Vec<char>>)
    ensures
        views(r@) == top_level_list(s@, by_space),
{
    let mut pieces: Vec<Vec<char>> = Vec::new();
    let mut cur: Vec<char> = Vec::new();
    let mut depth: usize = 0;
    let mut in_quote = false;
    let mut i: usize = 0;
    proof {
        lemma_views_empty();
        assert(cur@ =~= Seq::<char>::empty());
    }
    while i < s.len()
        invariant
            i <= s@.len(),
            depth <= i,
            list_run(
                s@,
                by_space,
                i as int,
                ListState { pieces: views(pieces@), cur: cur@, depth: depth as nat, in_quote },
            ) == list_run(
                s@,
                by_space,
                0,
                ListState { pieces: Seq::empty(), cur: Seq::empty(), depth: 0, in_quote: false },
            ),
        decreases s@.len() - i,
    {
        let ch = s[i];
        if ch == '\'' {
            cur.push(ch);
            in_quote = !in_quote;
        } else if in_quote {
            cur.push(ch);
        } else if ch == '(' {
            cur.push(ch);
            depth = depth + 1;
        } else if ch == ')' {
            cur.push(ch);
            if depth > 0 {
                depth = depth - 1;
            }
        } else if depth == 0 && (if by_space {
            crate::text::is_whitespace_char(ch)
        } else {
            ch == ','
        }) {
            push_trimmed(&mut pieces, &cur);
            cur = Vec::new();
            assert(cur@ =~= Seq::<char>::empty());
        } else {
            cur.push(ch);
        }
        i = i + 1;
    }
    push_trimmed(&mut pieces, &cur);
    pieces
}

// ---------------------------------------------------------------------------
// Bracket matching and searching.

/// The index of the `)` that closes a `(` whose contents start at `i`, with
/// `depth` brackets open; single-quoted text is skipped. `-1` when none.
pub open spec fn close_index(s: Seq<char>, i: int, depth: nat, in_quote: bool) -> int
    decreases s.len() - i,
{
    if i < 0 || i >= s.len() {
        -1
    } else if s[i] == '\'' {
        close_index(s, i + 1, depth, !in_quote)
    } else if in_quote {
        close_index(s, i + 1, depth, in_quote)
    } else if s[i] == '(' {
        close_index(s, i + 1, depth + 1, in_quote)
    } else if s[i] == ')' {
        if depth <= 1 {
            i
        } else {
            close_index(s, i + 1, (depth - 1) as nat, in_quote)
        }
    } else {
        close_index(s, i + 1, depth, in_quote)
    }
}

pub proof fn lemma_close_index_range(s: Seq<char>, i: int, depth: nat, in_quote: bool)
    ensures
        close_index(s, i, depth, in_quote) == -1 || (i <= close_index(s, i, depth, in_quote)
            < s.len()),
    decreases s.len() - i,
{
    if 0 <= i < s.len() {
        if s[i] == '\'' {
            lemma_close_index_range(s, i + 1, depth, !in_quote);
        } else if in_quote {
            lemma_close_index_range(s, i + 1, depth, in_quote);
        } else if s[i] == '(' {
            lemma_close_index_range(s, i + 1, depth + 1, in_quote);
        } else if s[i] == ')' {
            if depth > 1 {
                lemma_close_index_range(s, i + 1, (depth - 1) as nat, in_quote);
            }
        } else {
            lemma_close_index_range(s, i + 1, depth, in_quote);
        }
    }
}

/// The index of the bracket closing the one opened just before `start`,
/// or `None`.
pub fn find_close(s: &Vec<char>, start: usize) -> (r: Option<usize>)
    requires
        1 <= start,
    ensures
        match r {
            Some(k) => k as int == close_index(s@, start as int, 1, false),
            None => close_index(s@, start as int, 1, false) == -1,
        },
{
    let mut i = start;
    let mut depth: usize = 1;
    let mut in_quote = false;
    while i < s.len()
        invariant
            1 <= start <= i,
            1 <= depth <= i - start + 1,
            close_index(s@, i as int, depth as nat, in_quote) == close_index(
                s@,
                start as int,
                1,
                false,
            ),
        decreases s@.len() - i,
    {
        let ch = s[i];
        if ch == '\'' {
            in_quote = !in_quote;
        } else if in_quote {
        } else if ch == '(' {
            depth = depth + 1;
        } else if ch == ')' {
            if depth <= 1 {
                return Some(i);
            }
            depth = depth - 1;
        }
        i = i + 1;
    }
    None
}

/// The first index of `c` in `s` at or after `i`, or `-1`.
pub open spec fn index_of_from(s: Seq<char>, c: char, i: int) -> int
    decreases s.len() - i,
{
    if i < 0 || i >= s.len() {
        -1
    } else if s[i] == c {
        i
    } else {
        index_of_from(s, c, i + 1)
    }
}

pub proof fn lemma_index_of_range(s: Seq<char>, c: char, i: int)
    ensures
        index_of_from(s, c, i) == -1 || (i <= index_of_from(s, c, i) < s.len() && s[index_of_from(
            s,
            c,
            i,
        )] == c),
    decreases s.len() - i,
{
    if 0 <= i < s.len() && s[i] != c {
        lemma_index_of_range(s, c, i + 1);
    }
}

pub fn find_char(s: &Vec<char>, c: char, from: usize) -> (r: Option<usize>)
    ensures
        match r {
            Some(k) => k as int == index_of_from(s@, c, from as int),
            None => index_of_from(s@, c, from as int) == -1,
        },
{
    let mut i = from;
    while i < s.len()
        invariant
            from <= i,
            index_of_from(s@, c, i as int) == index_of_from(s@, c, from as int),
        decreases s@.len() - i,
    {
        if s[i] == c {
            return Some(i);
        }
        i = i + 1;
    }
    None
}


/// Text that holds no quote, brace or semicolon.
pub open spec fn plain_sql(x: Seq<char>) -> bool {
    forall|i: int|
        0 <= i < x.len() ==> {
            let c = #[trigger] x[i];
            c != '\'' && c != '"' && c != '{' && c != '}' && c != ';'
        }
}

proof fn lemma_run_plain(s: Seq<char>, i: int, j: int, st: StmtState)
    requires
        0 <= i <= j <= s.len(),
        plain_sql(s.subrange(i, j)),
    ensures
        stmt_run(s, i, st) == stmt_run(s, j, StmtState { cur: st.cur + s.subrange(i, j), ..st }),
    decreases j - i,
{
    if i < j {
        let c = s[i];
        assert(s.subrange(i, j)[0] == c);
        let st1 = StmtState { cur: st.cur.push(c), ..st };
        assert(stmt_step(st, c) == st1);
        assert(plain_sql(s.subrange(i + 1, j))) by {
            assert forall|k: int| 0 <= k < s.subrange(i + 1, j).len() implies {
                let d = #[trigger] s.subrange(i + 1, j)[k];
                d != '\'' && d != '"' && d != '{' && d != '}' && d != ';'
            } by {
                assert(s.subrange(i + 1, j)[k] == s.subrange(i, j)[k + 1]);
            }
        }
        lemma_run_plain(s, i + 1, j, st1);
        assert(st1.cur + s.subrange(i + 1, j) =~= st.cur + s.subrange(i, j));
    } else {
        assert(st.cur + s.subrange(i, j) =~= st.cur);
    }
}

proof fn lemma_trim_start_has(s: Seq<char>, k: int)
    requires
        0 <= k < s.len(),
        !crate::text::is_ws(s[k]),
    ensures
        exists|j: int| 0 <= j < trim_start(s).len() && !crate::text::is_ws(#[trigger] trim_start(s)[j]),
    decreases s.len(),
{
    if s.len() > 0 && crate::text::is_ws(s[0]) {
        assert(k > 0);
        assert(s.drop_first()[k - 1] == s[k]);
        lemma_trim_start_has(s.drop_first(), k - 1);
        assert(trim_start(s) == trim_start(s.drop_first()));
    } else {
        assert(trim_start(s) == s);
        assert(!crate::text::is_ws(trim_start(s)[k]));
    }
}

/// Law: a `;` inside a string, opened and closed by the same quote (`'` or
/// `"`), does not end a statement: the text around it, with no other
/// quote, brace or semicolon, is one statement.
pub proof fn law_quoted_semicolon_stays(a: Seq<char>, x: Seq<char>, y: Seq<char>, b: Seq<char>, q: char)
    requires
        q == '\'' || q == '"',
        plain_sql(a),
        plain_sql(x),
        plain_sql(y),
        plain_sql(b),
    ensures
        ({
            let s = a + seq![q] + x + seq![';'] + y + seq![q] + b;
            sql_statements(s) == seq![trim(s)]
        }),
{
    let s = a + seq![q] + x + seq![';'] + y + seq![q] + b;
    let p0 = a.len() as int;
    let p1 = p0 + 1 + x.len();
    let p2 = p1 + 1 + y.len();
    assert(s.subrange(0, p0) =~= a);
    assert(s.subrange(p0 + 1, p1) =~= x);
    assert(s.subrange(p1 + 1, p2) =~= y);
    assert(s.subrange(p2 + 1, s.len() as int) =~= b);
    assert(s[p0] == q && s[p1] == ';' && s[p2] == q);
    let st0 = stmt_init();
    lemma_run_plain(s, 0, p0, st0);
    let st1 = StmtState { cur: a, ..st0 };
    assert(st0.cur + a =~= a);
    let st2 = StmtState { cur: a.push(q), in_string: true, quote: q, ..st0 };
    assert(stmt_step(st1, q) == st2);
    lemma_run_plain(s, p0 + 1, p1, st2);
    let st3 = StmtState { cur: a.push(q) + x, ..st2 };
    let st4 = StmtState { cur: (a.push(q) + x).push(';'), ..st2 };
    assert(stmt_step(st3, ';') == st4);
    lemma_run_plain(s, p1 + 1, p2, st4);
    let st5 = StmtState { cur: (a.push(q) + x).push(';') + y, ..st2 };
    let st6 = StmtState { cur: ((a.push(q) + x).push(';') + y).push(q), in_string: false, ..st2 };
    assert(stmt_step(st5, q) == st6);
    lemma_run_plain(s, p2 + 1, s.len() as int, st6);
    let fin = StmtState { cur: ((a.push(q) + x).push(';') + y).push(q) + b, ..st6 };
    assert(fin.cur =~= s);
    assert(stmt_run(s, 0, st0) == fin);
    lemma_trim_start_has(s, p0);
    let j = choose|j: int| 0 <= j < trim_start(s).len() && !crate::text::is_ws(#[trigger] trim_start(s)[j]);
    crate::text::lemma_trim_end_keeps(trim_start(s), j);
}

} // verus!
