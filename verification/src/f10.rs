//! The F10 pages: the `var apidata={ content:"..." }` wrapper, the
//! current-manager block (`jjjl`) and the fact sheet (`jbgk`).

use crate::text::{
    chars_of, collapse_ws, collapse_ws_exec, copy_range, find, find_from_exec,
    lemma_find_from, lemma_find_skip, replace_all, replace_all_exec, strip_tags,
    strip_tags_exec, string_of, trim, trim_bounds,
};
use vstd::prelude::*;
use vstd::string::StrSliceExecFns;

verus! {

/// Where the embedded HTML of an `apidata` script starts and ends, counted
/// in the body with its surrounding white space trimmed: the text after the
/// first `content:"` up to the first `",arryear:` that follows it.
pub open spec fn apidata_bounds(body: Seq<char>) -> Result<(int, int), Seq<char>> {
    let t = trim(body);
    let key = "content:\""@;
    match find(t, key) {
        None => Err("F10 apidata: missing content:\""@),
        Some(i) => {
            let start = i + key.len();
            match find(t.skip(start), "\",arryear:"@) {
                None => Err("F10 apidata: missing \",arryear:\""@),
                Some(e) => Ok((start, start + e)),
            }
        },
    }
}

/// The HTML inside `var apidata={ content:"...",arryear:...}`: the text of
/// the trimmed body between the content key and the `",arryear:` marker.
pub fn extract_apidata_content(body: &str) -> (r: Result<&str, String>)
    ensures
        match apidata_bounds(body@) {
            Ok((a, b)) => r matches Ok(x) && x@ == trim(body@).subrange(a, b),
            Err(m) => r matches Err(e) && e@ == m,
        },
{
    let b = chars_of(body);
    let key = chars_of("content:\"");
    let end_key = chars_of("\",arryear:");
    let (lo, hi) = trim_bounds(b.as_slice());
    let t = copy_range(b.as_slice(), lo, hi);
    let r1 = find_from_exec(t.as_slice(), key.as_slice(), 0);
    match r1 {
        None => Err(String::from_str("F10 apidata: missing content:\"")),
        Some(i) => {
            proof {
                lemma_find_from(t@, key@, 0);
            }
            let start = i + key.len();
            let r2 = find_from_exec(t.as_slice(), end_key.as_slice(), start);
            proof {
                lemma_find_skip(t@, end_key@, start as int);
                lemma_find_from(t@, end_key@, start as int);
            }
            match r2 {
                None => Err(String::from_str("F10 apidata: missing \",arryear:\"")),
                Some(e) => {
                    let n = body.unicode_len();
                    proof {
                        assert(body@.subrange((lo + start) as int, (lo + e) as int) =~= t@.subrange(
                            start as int,
                            e as int,
                        ));
                    }
                    Ok(body.substring_char(lo + start, lo + e))
                },
            }
        },
    }
}

/// The same extraction for the industry (`hypz`) script: the key is looked
/// for in the body as given, and the messages name `hypz`.
pub open spec fn hypz_bounds(js: Seq<char>) -> Result<(int, int), Seq<char>> {
    let key = "content:\""@;
    match find(js, key) {
        None => Err("F10 hypz: missing content:\""@),
        Some(i) => {
            let start = i + key.len();
            match find(js.skip(start), "\",arryear:"@) {
                None => Err("F10 hypz: missing \",arryear:\""@),
                Some(e) => Ok((start, start + e)),
            }
        },
    }
}

/// The HTML inside the industry script.
pub fn extract_apidata_html(js: &str) -> (r: Result<&str, String>)
    ensures
        match hypz_bounds(js@) {
            Ok((a, b)) => r matches Ok(x) && x@ == js@.subrange(a, b),
            Err(m) => r matches Err(e) && e@ == m,
        },
{
    let b = chars_of(js);
    let key = chars_of("content:\"");
    let end_key = chars_of("\",arryear:");
    let r1 = find_from_exec(b.as_slice(), key.as_slice(), 0);
    match r1 {
        None => Err(String::from_str("F10 hypz: missing content:\"")),
        Some(i) => {
            proof {
                lemma_find_from(b@, key@, 0);
            }
            let start = i + key.len();
            let r2 = find_from_exec(b.as_slice(), end_key.as_slice(), start);
            proof {
                lemma_find_skip(b@, end_key@, start as int);
                lemma_find_from(b@, end_key@, start as int);
            }
            match r2 {
                None => Err(String::from_str("F10 hypz: missing \",arryear:\"")),
                Some(e) => {
                    let n = js.unicode_len();
                    Ok(js.substring_char(start, e))
                },
            }
        },
    }
}

/// Plain text of an HTML fragment: tags dropped, the five common entities
/// decoded one after another, white space collapsed.
pub open spec fn clean_html(s: Seq<char>) -> Seq<char> {
    let a = replace_all(strip_tags(s), "&nbsp;"@, " "@);
    let b = replace_all(a, "&amp;"@, "&"@);
    let c = replace_all(b, "&lt;"@, "<"@);
    let d = replace_all(c, "&gt;"@, ">"@);
    let e = replace_all(d, "&quot;"@, "\""@);
    collapse_ws(e)
}

fn replace_lit(s: &[char], from: &str, to: &str) -> (v: Vec<char>)
    requires
        from@.len() > 0,
    ensures
        v@ == replace_all(s@, from@, to@),
{
    let f = chars_of(from);
    let t = chars_of(to);
    replace_all_exec(s, f.as_slice(), t.as_slice())
}

/// `clean_html(s)`.
pub fn clean_html_exec(s: &[char]) -> (v: Vec<char>)
    ensures
        v@ == clean_html(s@),
{
    proof {
        reveal_strlit("&nbsp;");
        reveal_strlit("&amp;");
        reveal_strlit("&lt;");
        reveal_strlit("&gt;");
        reveal_strlit("&quot;");
    }
    let a0 = strip_tags_exec(s);
    let a = replace_lit(a0.as_slice(), "&nbsp;", " ");
    let b = replace_lit(a.as_slice(), "&amp;", "&");
    let c = replace_lit(b.as_slice(), "&lt;", "<");
    let d = replace_lit(c.as_slice(), "&gt;", ">");
    let e = replace_lit(d.as_slice(), "&quot;", "\"");
    collapse_ws_exec(e.as_slice())
}

/// Plain text of an HTML fragment (tags dropped, entities decoded, white
/// space collapsed).
pub fn clean_html_str(html: &str) -> (r: String)
    ensures
        r@ == clean_html(html@),
{
    let s = chars_of(html);
    let v = clean_html_exec(s.as_slice());
    string_of(v.as_slice())
}

} // verus!
