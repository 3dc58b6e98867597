//! Reading the repository out of an admin API path
//! `/api/repos/{owner}/{repo}/...`.

use vstd::prelude::*;
use vstd::string::*;
use crate::text::{chars_of, str_eq};

verus! {

/// Index of the first `/` at or after `from`, or the length when none.
pub open spec fn next_slash(s: Seq<char>, from: int) -> int
    decreases s.len() - from,
{
    if from < 0 || from >= s.len() {
        s.len() as int
    } else if s[from] == '/' {
        from
    } else {
        next_slash(s, from + 1)
    }
}

/// Bounds of the `/`-separated parts 1 to 4 of a path, as five slash
/// positions (the last may be the length).
pub open spec fn slashes(s: Seq<char>) -> (int, int, int, int, int) {
    let cut0 = next_slash(s, 0);
    let cut1 = next_slash(s, cut0 + 1);
    let cut2 = next_slash(s, cut1 + 1);
    let cut3 = next_slash(s, cut2 + 1);
    let cut4 = next_slash(s, cut3 + 1);
    (cut0, cut1, cut2, cut3, cut4)
}

/// The owner and repository spans of an admin path: its second and third
/// parts must read `api` and `repos`, and it must have a fifth part.
pub open spec fn repo_spans(s: Seq<char>) -> Option<(int, int, int, int)> {
    let (cut0, cut1, cut2, cut3, cut4) = slashes(s);
    if cut3 < s.len() && s.subrange(cut0 + 1, cut1) == "api"@ && s.subrange(cut1 + 1, cut2) == "repos"@ {
        Some((cut2 + 1, cut3, cut3 + 1, cut4))
    } else {
        None
    }
}

fn next_slash_exec(s: &Vec<char>, from: usize) -> (r: usize)
    ensures
        r as int == next_slash(s@, from as int),
        r <= s@.len(),
        from <= s@.len() ==> from <= r,
{
    let n = s.len();
    if from >= n {
        return n;
    }
    let mut i = from;
    while i < n && s[i] != '/'
        invariant
            n == s@.len(),
            from <= i <= n,
            next_slash(s@, from as int) == next_slash(s@, i as int),
        decreases n - i,
    {
        i = i + 1;
    }
    i
}

/// The owner and repository named by an admin API path.
pub fn extract_repo_from_path<'a>(path: &'a str) -> (r: Option<(&'a str, &'a str)>)
    ensures
        match repo_spans(path@) {
            Some((a, b, c, d)) => r matches Some((o, p)) && o@ == path@.subrange(a, b) && p@
                == path@.subrange(c, d),
            None => r is None,
        },
{
    let s = chars_of(path);
    let n = s.len();
    let cut0 = next_slash_exec(&s, 0);
    if cut0 >= n {
        return None;
    }
    let cut1 = next_slash_exec(&s, cut0 + 1);
    if cut1 >= n {
        return None;
    }
    let cut2 = next_slash_exec(&s, cut1 + 1);
    if cut2 >= n {
        return None;
    }
    let cut3 = next_slash_exec(&s, cut2 + 1);
    if cut3 >= n {
        return None;
    }
    let cut4 = next_slash_exec(&s, cut3 + 1);
    if !str_eq(path.substring_char(cut0 + 1, cut1), "api") || !str_eq(path.substring_char(cut1 + 1, cut2), "repos") {
        return None;
    }
    Some((path.substring_char(cut2 + 1, cut3), path.substring_char(cut3 + 1, cut4)))
}

} // verus!
