//! File locations under the user's configuration directory, as plain strings.

use vstd::prelude::*;
use crate::text::push_char;

verus! {

/// `PathBuf::join` on UTF-8 paths: an absolute `p` replaces `base`; otherwise `p`
/// is appended after a `/` unless `base` is empty or already ends with one.
pub open spec fn join_path(base: Seq<char>, p: Seq<char>) -> Seq<char> {
    if p.len() > 0 && p[0] == '/' {
        p
    } else if base.len() == 0 || base.last() == '/' {
        base + p
    } else {
        base + seq!['/'] + p
    }
}

pub fn join(base: &str, p: &str) -> (r: String)
    ensures
        r@ == join_path(base@, p@),
{
    let bv = crate::text::chars_of(base);
    let pv = crate::text::chars_of(p);
    if pv.len() > 0 && pv[0] == '/' {
        return crate::text::owned(p);
    }
    let mut r = crate::text::owned(base);
    if !(bv.len() == 0 || bv[bv.len() - 1] == '/') {
        push_char(&mut r, '/');
    }
    r.append(p);
    r
}

/// The home directory, or the current directory when it is unknown.
pub open spec fn home_or_here(home: Option<Seq<char>>) -> Seq<char> {
    match home {
        Some(h) => h,
        None => "."@,
    }
}

/// `<home>/.config/grok-search`.
pub open spec fn app_dir_spec(home: Option<Seq<char>>) -> Seq<char> {
    join_path(join_path(home_or_here(home), ".config"@), "grok-search"@)
}

/// `<home>/.config/grok-search`, the directory of all persistent state.
pub fn app_dir(home: &Option<String>) -> (r: String)
    ensures
        r@ == app_dir_spec(home.deep_view()),
{
    let base = match home {
        Some(h) => h.clone(),
        None => crate::text::owned("."),
    };
    let c = join(base.as_str(), ".config");
    join(c.as_str(), "grok-search")
}

} // verus!
