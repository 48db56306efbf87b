//! Reading the stored cookies: their names, and the value of one of them.
use vstd::prelude::*;
use crate::text::str_equal;

verus! {

/// The name of the cookie that the crate `cookie` parses `raw` to; `None`
/// where `raw` does not parse.
pub uninterp spec fn cookie_name(raw: Seq<char>) -> Option<Seq<char>>;

/// The value of the cookie that the crate `cookie` parses `raw` to, without
/// the double quotes around it, if it has them.
pub uninterp spec fn cookie_value(raw: Seq<char>) -> Seq<char>;

/// Parses `raw` with `Cookie::parse` and returns what `name` and
/// `value_trimmed` give of the cookie.
#[verifier::external_body]
fn parse_cookie(raw: &str) -> (cookie: Option<(String, String)>)
    ensures
        match cookie {
            Some((name, value)) => cookie_name(raw@) == Some(name@) && value@ == cookie_value(
                raw@,
            ),
            None => cookie_name(raw@) is None,
        },
{
    match cookie::Cookie::parse(raw) {
        Ok(c) => Some((c.name().to_string(), c.value_trimmed().to_string())),
        Err(_) => None,
    }
}

/// The names of those of the first `n` cookies that parse, in order.
pub open spec fn names_among(raw_cookies: Seq<String>, n: int) -> Seq<Seq<char>>
    decreases n,
{
    if n <= 0 {
        Seq::empty()
    } else {
        match cookie_name(raw_cookies[n - 1]@) {
            Some(name) => names_among(raw_cookies, n - 1).push(name),
            None => names_among(raw_cookies, n - 1),
        }
    }
}

/// The index of the first cookie from `from` on that parses and has the name
/// `name`; the number of cookies if there is none.
pub open spec fn cookie_position(raw_cookies: Seq<String>, name: Seq<char>, from: int) -> int
    decreases raw_cookies.len() - from,
{
    if from < 0 || from >= raw_cookies.len() {
        raw_cookies.len() as int
    } else if cookie_name(raw_cookies[from]@) == Some(name) {
        from
    } else {
        cookie_position(raw_cookies, name, from + 1)
    }
}

/// The texts of `list`, in order.
pub open spec fn texts_of(list: Seq<String>) -> Seq<Seq<char>> {
    list.map_values(|s: String| s@)
}

/// The names of the cookies. A cookie that does not parse is passed over.
pub fn list_cookie_names(raw_cookies: &Vec<String>) -> (names: Vec<String>)
    ensures
        texts_of(names@) == names_among(raw_cookies@, raw_cookies.len() as int),
{
    let mut names: Vec<String> = Vec::new();
    let mut i: usize = 0;
    assert(texts_of(names@) =~= Seq::empty());
    while i < raw_cookies.len()
        invariant
            i <= raw_cookies.len(),
            texts_of(names@) == names_among(raw_cookies@, i as int),
        decreases raw_cookies.len() - i,
    {
        if let Some((name, _)) = parse_cookie(raw_cookies[i].as_str()) {
            assert(texts_of(names@.push(name)) =~= texts_of(names@).push(name@));
            names.push(name);
        }
        i += 1;
    }
    names
}

/// The value of the first cookie that parses and has the name `name`, without
/// the double quotes around it.
pub fn get_cookie_value(raw_cookies: &Vec<String>, name: &str) -> (value: Option<String>)
    ensures
        ({
            let p = cookie_position(raw_cookies@, name@, 0);
            match value {
                Some(v) => p < raw_cookies.len() && v@ == cookie_value(raw_cookies@[p]@),
                None => p == raw_cookies.len(),
            }
        }),
{
    let mut i: usize = 0;
    while i < raw_cookies.len()
        invariant
            i <= raw_cookies.len(),
            cookie_position(raw_cookies@, name@, 0) == cookie_position(
                raw_cookies@,
                name@,
                i as int,
            ),
        decreases raw_cookies.len() - i,
    {
        if let Some((found, value)) = parse_cookie(raw_cookies[i].as_str()) {
            if str_equal(found.as_str(), name) {
                return Some(value);
            }
        }
        i += 1;
    }
    None
}

} // verus!
