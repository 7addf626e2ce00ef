//! What the database actor decides on its own: the statements of its setup
//! script, how configuration values are written and read back, and which
//! update a status change needs.
use vstd::prelude::*;
use vstd::string::StringExecFns;
use crate::split::{views, split_on, split_on_char};
use crate::container::nonempty_trimmed;
use crate::text::{to_chars, from_chars, extend_str, trim_chars};
use crate::sql_diff::types::{str_views, lemma_str_views_push};
use crate::json::{JsonShape, JsonShapeView, json_shape, read_json};

verus! {

broadcast use vstd::string::group_string_axioms;

/// The statements of a setup script: its pieces between semicolons,
/// trimmed, without the blank ones.
pub open spec fn script_statements(sql: Seq<char>) -> Seq<Seq<char>> {
    nonempty_trimmed(split_on(sql, ';'))
}

pub fn init_statements(sql: &str) -> (r: Vec<String>)
    ensures
        str_views(r@) == script_statements(sql@),
{
    let pieces = split_on_char(&to_chars(sql), ';');
    let ghost pv = views(pieces@);
    let mut r: Vec<String> = Vec::new();
    let mut i: usize = 0;
    while i < pieces.len()
        invariant
            i <= pieces@.len(),
            pv == views(pieces@),
            str_views(r@) == nonempty_trimmed(pv.take(i as int)),
        decreases pieces@.len() - i,
    {
        proof {
            assert(pv.take(i + 1).drop_last() =~= pv.take(i as int));
            assert(pv.take(i + 1).last() == pieces@[i as int]@);
        }
        let t = trim_chars(&pieces[i]);
        if t.len() > 0 {
            let x = from_chars(&t);
            proof {
                lemma_str_views_push(r@, x);
            }
            r.push(x);
        }
        i = i + 1;
    }
    assert(pv.take(pv.len() as int) =~= pv);
    r
}

/// The stored form of a configuration value written as text: the text in
/// double quotes, as it stands.
pub fn stored_config_value(value: &str) -> (r: String)
    ensures
        r@ == "\""@ + value@ + "\""@,
{
    let mut v = to_chars("\"");
    extend_str(&mut v, value);
    extend_str(&mut v, "\"");
    from_chars(&v)
}

/// A stored configuration value as read back: the contents of a JSON
/// string, any other text as it stands.
pub fn decode_config_value(stored: &str) -> (r: String)
    ensures
        r@ == (match json_shape(stored@) {
            JsonShapeView::Text(s) => s,
            _ => stored@,
        }),
{
    match read_json(stored) {
        JsonShape::Text(s) => s,
        _ => String::from_str(stored),
    }
}

/// The update of a download task's status, by which of the downloaded size
/// and the error message are given.
pub fn download_status_update_sql(has_size: bool, has_error: bool) -> (r: &'static str)
    ensures
        r@ == (if has_size && has_error {
            "UPDATE download_tasks SET status = ?, downloaded_size = ?, error_message = ?, updated_at = CURRENT_TIMESTAMP WHERE id = ?"@
        } else if has_size {
            "UPDATE download_tasks SET status = ?, downloaded_size = ?, updated_at = CURRENT_TIMESTAMP WHERE id = ?"@
        } else if has_error {
            "UPDATE download_tasks SET status = ?, error_message = ?, updated_at = CURRENT_TIMESTAMP WHERE id = ?"@
        } else {
            "UPDATE download_tasks SET status = ?, updated_at = CURRENT_TIMESTAMP WHERE id = ?"@
        }),
{
    if has_size && has_error {
        "UPDATE download_tasks SET status = ?, downloaded_size = ?, error_message = ?, updated_at = CURRENT_TIMESTAMP WHERE id = ?"
    } else if has_size {
        "UPDATE download_tasks SET status = ?, downloaded_size = ?, updated_at = CURRENT_TIMESTAMP WHERE id = ?"
    } else if has_error {
        "UPDATE download_tasks SET status = ?, error_message = ?, updated_at = CURRENT_TIMESTAMP WHERE id = ?"
    } else {
        "UPDATE download_tasks SET status = ?, updated_at = CURRENT_TIMESTAMP WHERE id = ?"
    }
}

/// The update of a scheduled task's status, with or without details.
pub fn task_status_update_sql(has_details: bool) -> (r: &'static str)
    ensures
        r@ == (if has_details {
            "UPDATE scheduled_tasks SET status = ?, details = ?, completed_at = NOW() WHERE id = ?"@
        } else {
            "UPDATE scheduled_tasks SET status = ?, completed_at = NOW() WHERE id = ?"@
        }),
{
    if has_details {
        "UPDATE scheduled_tasks SET status = ?, details = ?, completed_at = NOW() WHERE id = ?"
    } else {
        "UPDATE scheduled_tasks SET status = ?, completed_at = NOW() WHERE id = ?"
    }
}

} // verus!
