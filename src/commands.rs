//! Maintainer commands written in a comment:
//!
//! - `/credit check @user`
//! - `/credit override @user +10 "reason"` (or a negative delta)
//! - `/credit blacklist @user`
//!
//! A command stands at the start of a line and its last token ends the line
//! (trailing whitespace aside). Whitespace is Unicode whitespace and may span
//! line breaks between tokens; a user name is a run of ASCII letters, digits
//! and underscores; a reason is one or more characters other than `"`. When
//! several commands appear, a `check` anywhere wins over an `override`, which
//! wins over a `blacklist`, and of each kind the first by position is taken.
//! An `override` whose delta does not fit an `i32` is ignored, and the
//! `blacklist` form is tried instead.

use vstd::prelude::*;
use vstd::string::*;
use crate::text::{chars_of, string_of_range, occurs_at};

verus! {

/// A parsed `/credit` command.
#[derive(Debug, Clone, PartialEq, Eq)]
pub enum CreditCommand {
    Check { username: String },
    Override { username: String, delta: i32, reason: String },
    Blacklist { username: String },
}

/// Character classes of the command grammar.
#[derive(Debug, Clone, Copy, PartialEq, Eq, Structural)]
pub enum CharClass {
    Space,
    Word,
    Digit,
    NotQuote,
}

/// Unicode whitespace.
pub open spec fn is_space(c: char) -> bool {
    ||| c == '\t' || c == '\n' || c == '\u{0B}' || c == '\u{0C}' || c == '\r' || c == ' '
    ||| c == '\u{85}' || c == '\u{A0}' || c == '\u{1680}'
    ||| ('\u{2000}' <= c && c <= '\u{200A}')
    ||| c == '\u{2028}' || c == '\u{2029}' || c == '\u{202F}' || c == '\u{205F}' || c == '\u{3000}'
}

pub open spec fn is_digit(c: char) -> bool {
    '0' <= c && c <= '9'
}

pub open spec fn is_word(c: char) -> bool {
    is_digit(c) || ('a' <= c && c <= 'z') || ('A' <= c && c <= 'Z') || c == '_'
}

pub open spec fn in_class(k: CharClass, c: char) -> bool {
    match k {
        CharClass::Space => is_space(c),
        CharClass::Word => is_word(c),
        CharClass::Digit => is_digit(c),
        CharClass::NotQuote => c != '"',
    }
}

/// End of the longest run of class `k` starting at `i`.
pub open spec fn run_end(s: Seq<char>, i: int, k: CharClass) -> int
    decreases s.len() - i,
{
    if 0 <= i < s.len() && in_class(k, s[i]) {
        run_end(s, i + 1, k)
    } else {
        i
    }
}

/// From `i`, only whitespace remains before a line break or the end.
pub open spec fn ends_line(s: Seq<char>, i: int) -> bool {
    let j = run_end(s, i, CharClass::Space);
    j == s.len() || exists|p: int| i <= p < j && s[p] == '\n'
}

pub open spec fn line_start(s: Seq<char>, p: int) -> bool {
    p == 0 || (0 < p <= s.len() && s[p - 1] == '\n')
}

/// `/credit <kw> @user` at `p`: the span of the user name.
pub open spec fn user_command_at(s: Seq<char>, p: int, kw: Seq<char>) -> Option<(int, int)> {
    let b = run_end(s, p + 7, CharClass::Space);
    let d = run_end(s, b + kw.len(), CharClass::Space);
    let f = run_end(s, d + 1, CharClass::Word);
    if occurs_at(s, "/credit"@, p) && b > p + 7 && occurs_at(s, kw, b) && d > b + kw.len()
        && occurs_at(s, "@"@, d) && f > d + 1 && ends_line(s, f) {
        Some((d + 1, f))
    } else {
        None
    }
}

/// Spans of an override at `p`: user name, signed delta, reason.
pub open spec fn override_at(s: Seq<char>, p: int) -> Option<(int, int, int, int, int, int)> {
    let b = run_end(s, p + 7, CharClass::Space);
    let d = run_end(s, b + 8, CharClass::Space);
    let f = run_end(s, d + 1, CharClass::Word);
    let g = run_end(s, f, CharClass::Space);
    let k = run_end(s, g + 1, CharClass::Digit);
    let m = run_end(s, k, CharClass::Space);
    let r = run_end(s, m + 1, CharClass::NotQuote);
    if occurs_at(s, "/credit"@, p) && b > p + 7 && occurs_at(s, "override"@, b) && d > b + 8
        && occurs_at(s, "@"@, d) && f > d + 1 && g > f && g < s.len() && (s[g] == '+' || s[g]
        == '-') && k > g + 1 && m > k && occurs_at(s, "\""@, m) && r > m + 1 && occurs_at(
        s,
        "\""@,
        r,
    ) && ends_line(s, r + 1) {
        Some((d + 1, f, g, k, m + 1, r))
    } else {
        None
    }
}

/// The first line start at or after `p` where a user command with `kw` stands.
pub open spec fn first_user_command(s: Seq<char>, p: int, kw: Seq<char>) -> Option<(int, int)>
    decreases s.len() + 1 - p,
{
    if p < 0 || p > s.len() {
        None
    } else if line_start(s, p) && user_command_at(s, p, kw) is Some {
        user_command_at(s, p, kw)
    } else {
        first_user_command(s, p + 1, kw)
    }
}

pub open spec fn first_override(s: Seq<char>, p: int) -> Option<(int, int, int, int, int, int)>
    decreases s.len() + 1 - p,
{
    if p < 0 || p > s.len() {
        None
    } else if line_start(s, p) && override_at(s, p) is Some {
        override_at(s, p)
    } else {
        first_override(s, p + 1)
    }
}

/// Value of the decimal digits `s[h..k]`.
pub open spec fn digits_value(s: Seq<char>, h: int, k: int) -> int
    decreases k - h,
{
    if k <= h {
        0
    } else {
        digits_value(s, h, k - 1) * 10 + (s[k - 1] as int - '0' as int)
    }
}

/// The delta written at `s[g..k]`: a sign, then digits.
pub open spec fn signed_value(s: Seq<char>, g: int, k: int) -> int {
    if s[g] == '-' {
        -digits_value(s, g + 1, k)
    } else {
        digits_value(s, g + 1, k)
    }
}

pub open spec fn fits_i32(x: int) -> bool {
    i32::MIN <= x <= i32::MAX
}

/// The command that a comment holds, as spans of its text.
pub open spec fn command_in(s: Seq<char>) -> Option<(CharClass, int, int, int, int, int)> {
    match first_user_command(s, 0, "check"@) {
        Some((a, b)) => Some((CharClass::Space, a, b, 0, 0, 0)),
        None => {
            let fallback = match first_user_command(s, 0, "blacklist"@) {
                Some((a, b)) => Some((CharClass::Word, a, b, 0, 0, 0)),
                None => None,
            };
            match first_override(s, 0) {
                Some((a, b, g, k, q, e)) => {
                    if fits_i32(signed_value(s, g, k)) {
                        Some((CharClass::Digit, a, b, signed_value(s, g, k), q, e))
                    } else {
                        fallback
                    }
                },
                None => fallback,
            }
        },
    }
}

fn in_class_exec(k: CharClass, c: char) -> (r: bool)
    ensures
        r == in_class(k, c),
{
    match k {
        CharClass::Space => {
            c == '\t' || c == '\n' || c == '\u{0B}' || c == '\u{0C}' || c == '\r' || c == ' '
                || c == '\u{85}' || c == '\u{A0}' || c == '\u{1680}' || ('\u{2000}' <= c && c
                <= '\u{200A}') || c == '\u{2028}' || c == '\u{2029}' || c == '\u{202F}' || c
                == '\u{205F}' || c == '\u{3000}'
        },
        CharClass::Word => {
            ('0' <= c && c <= '9') || ('a' <= c && c <= 'z') || ('A' <= c && c <= 'Z') || c == '_'
        },
        CharClass::Digit => '0' <= c && c <= '9',
        CharClass::NotQuote => c != '"',
    }
}

fn run_end_exec(s: &Vec<char>, i: usize, k: CharClass) -> (r: usize)
    ensures
        r as int == run_end(s@, i as int, k),
        i <= r,
        r <= s@.len() || r == i,
{
    let n = s.len();
    let mut j = i;
    while j < n && in_class_exec(k, s[j])
        invariant
            n == s@.len(),
            i <= j,
            j <= n || j == i,
            run_end(s@, i as int, k) == run_end(s@, j as int, k),
        decreases n - j,
    {
        j = j + 1;
    }
    j
}

fn occurs_at_vec(s: &Vec<char>, i: usize, lit: &Vec<char>) -> (r: bool)
    ensures
        r == occurs_at(s@, lit@, i as int),
{
    let n = s.len();
    let m = lit.len();
    if i > n || m > n - i {
        return false;
    }
    let mut k: usize = 0;
    while k < m
        invariant
            n == s@.len(),
            m == lit@.len(),
            i + m <= n,
            k <= m,
            forall|j: int| 0 <= j < k ==> s@[i + j] == lit@[j],
        decreases m - k,
    {
        if s[i + k] != lit[k] {
            assert(s@.subrange(i as int, i + m)[k as int] != lit@[k as int]);
            return false;
        }
        k = k + 1;
    }
    assert(s@.subrange(i as int, i + m) =~= lit@);
    true
}

fn ends_line_exec(s: &Vec<char>, i: usize) -> (r: bool)
    requires
        i <= s@.len(),
    ensures
        r == ends_line(s@, i as int),
{
    let j = run_end_exec(s, i, CharClass::Space);
    if j == s.len() {
        return true;
    }
    let mut p = i;
    while p < j
        invariant
            i <= p <= j <= s@.len(),
            j as int == run_end(s@, i as int, CharClass::Space),
            forall|q: int| i <= q < p ==> s@[q] != '\n',
        decreases j - p,
    {
        if s[p] == '\n' {
            assert(s@[p as int] == '\n');
            return true;
        }
        p = p + 1;
    }
    false
}

/// The literals of the grammar, as characters.
struct Lits {
    credit: Vec<char>,
    at: Vec<char>,
    quote: Vec<char>,
    check: Vec<char>,
    over: Vec<char>,
    black: Vec<char>,
}

impl Lits {
    spec fn ok(&self) -> bool {
        &&& self.credit@ == "/credit"@
        &&& self.at@ == "@"@
        &&& self.quote@ == "\""@
        &&& self.check@ == "check"@
        &&& self.over@ == "override"@
        &&& self.black@ == "blacklist"@
    }

    fn new() -> (r: Lits)
        ensures
            r.ok(),
    {
        Lits {
            credit: chars_of("/credit"),
            at: chars_of("@"),
            quote: chars_of("\""),
            check: chars_of("check"),
            over: chars_of("override"),
            black: chars_of("blacklist"),
        }
    }
}

fn user_command_at_exec(s: &Vec<char>, p: usize, kw: &Vec<char>, lits: &Lits) -> (r: Option<(usize, usize)>)
    requires
        lits.ok(),
        p <= s@.len(),
        kw@.len() < 16,
    ensures
        match r {
            Some((a, b)) => user_command_at(s@, p as int, kw@) == Some((a as int, b as int)) && a <= b
                <= s@.len(),
            None => user_command_at(s@, p as int, kw@) is None,
        },
{
    proof {
        reveal_strlit("/credit");
        reveal_strlit("@");
        assert("/credit"@.len() == 7);
        assert("@"@.len() == 1);
    }
    let n = s.len();
    if !occurs_at_vec(s, p, &lits.credit) {
        return None;
    }
    let b = run_end_exec(s, p + 7, CharClass::Space);
    if b == p + 7 || !occurs_at_vec(s, b, kw) {
        return None;
    }
    let d = run_end_exec(s, b + kw.len(), CharClass::Space);
    if d == b + kw.len() || !occurs_at_vec(s, d, &lits.at) {
        return None;
    }
    let f = run_end_exec(s, d + 1, CharClass::Word);
    if f == d + 1 || !ends_line_exec(s, f) {
        return None;
    }
    Some((d + 1, f))
}

fn override_at_exec(s: &Vec<char>, p: usize, lits: &Lits) -> (r: Option<(usize, usize, usize, usize, usize, usize)>)
    requires
        lits.ok(),
        p <= s@.len(),
    ensures
        match r {
            Some((a, b, g, k, q, e)) => override_at(s@, p as int) == Some(
                (a as int, b as int, g as int, k as int, q as int, e as int),
            ) && a <= b <= g && g + 1 < k <= s@.len() && q <= e < s@.len() && (s@[g as int] == '+'
                || s@[g as int] == '-') && k as int == run_end(s@, g as int + 1, CharClass::Digit),
            None => override_at(s@, p as int) is None,
        },
{
    proof {
        reveal_strlit("/credit");
        reveal_strlit("@");
        reveal_strlit("\"");
        reveal_strlit("override");
        assert("/credit"@.len() == 7);
        assert("@"@.len() == 1);
        assert("\""@.len() == 1);
        assert("override"@.len() == 8);
    }
    let n = s.len();
    if !occurs_at_vec(s, p, &lits.credit) {
        return None;
    }
    let b = run_end_exec(s, p + 7, CharClass::Space);
    if b == p + 7 || !occurs_at_vec(s, b, &lits.over) {
        return None;
    }
    let d = run_end_exec(s, b + 8, CharClass::Space);
    if d == b + 8 || !occurs_at_vec(s, d, &lits.at) {
        return None;
    }
    let f = run_end_exec(s, d + 1, CharClass::Word);
    if f == d + 1 {
        return None;
    }
    let g = run_end_exec(s, f, CharClass::Space);
    if g == f || g >= s.len() || !(s[g] == '+' || s[g] == '-') {
        return None;
    }
    let k = run_end_exec(s, g + 1, CharClass::Digit);
    if k == g + 1 {
        return None;
    }
    let m = run_end_exec(s, k, CharClass::Space);
    if m == k || !occurs_at_vec(s, m, &lits.quote) {
        return None;
    }
    let e = run_end_exec(s, m + 1, CharClass::NotQuote);
    if e == m + 1 || !occurs_at_vec(s, e, &lits.quote) || !ends_line_exec(s, e + 1) {
        return None;
    }
    Some((d + 1, f, g, k, m + 1, e))
}

fn first_user_command_exec(s: &Vec<char>, kw: &Vec<char>, lits: &Lits) -> (r: Option<(usize, usize)>)
    requires
        lits.ok(),
        kw@.len() < 16,
    ensures
        match r {
            Some((a, b)) => first_user_command(s@, 0, kw@) == Some((a as int, b as int)) && a <= b
                <= s@.len(),
            None => first_user_command(s@, 0, kw@) is None,
        },
{
    let n = s.len();
    let mut p: usize = 0;
    while p <= n
        invariant
            lits.ok(),
            kw@.len() < 16,
            n == s@.len(),
            first_user_command(s@, 0, kw@) == first_user_command(s@, p as int, kw@),
        decreases n + 1 - p,
    {
        let at_start = p == 0 || s[p - 1] == '\n';
        if at_start {
            if let Some(span) = user_command_at_exec(s, p, kw, lits) {
                return Some(span);
            }
        }
        if p == n {
            assert(first_user_command(s@, n + 1, kw@) is None);
            return None;
        }
        p = p + 1;
    }
    None
}

fn first_override_exec(s: &Vec<char>, lits: &Lits) -> (r: Option<(usize, usize, usize, usize, usize, usize)>)
    requires
        lits.ok(),
    ensures
        match r {
            Some((a, b, g, k, q, e)) => first_override(s@, 0) == Some(
                (a as int, b as int, g as int, k as int, q as int, e as int),
            ) && a <= b <= g && g + 1 < k <= s@.len() && q <= e < s@.len() && (s@[g as int] == '+'
                || s@[g as int] == '-') && k as int == run_end(s@, g as int + 1, CharClass::Digit),
            None => first_override(s@, 0) is None,
        },
{
    let n = s.len();
    let mut p: usize = 0;
    while p <= n
        invariant
            lits.ok(),
            n == s@.len(),
            first_override(s@, 0) == first_override(s@, p as int),
        decreases n + 1 - p,
    {
        let at_start = p == 0 || s[p - 1] == '\n';
        if at_start {
            if let Some(spans) = override_at_exec(s, p, lits) {
                return Some(spans);
            }
        }
        if p == n {
            assert(first_override(s@, n + 1) is None);
            return None;
        }
        p = p + 1;
    }
    None
}

proof fn lemma_digits_grow(s: Seq<char>, h: int, j: int, k: int)
    requires
        h <= j <= k <= s.len(),
        forall|i: int| h <= i < k ==> is_digit(#[trigger] s[i]),
    ensures
        digits_value(s, h, j) <= digits_value(s, h, k),
        0 <= digits_value(s, h, j),
    decreases k - h,
{
    if j < k {
        lemma_digits_grow(s, h, j, k - 1);
    } else if j > h {
        lemma_digits_grow(s, h, j - 1, j - 1);
    }
}

/// The delta written at `s[g..k]`, if it fits an `i32`.
fn signed_value_exec(s: &Vec<char>, g: usize, k: usize) -> (r: Option<i32>)
    requires
        g + 1 < k <= s@.len(),
        s@[g as int] == '+' || s@[g as int] == '-',
        forall|i: int| g + 1 <= i < k ==> is_digit(#[trigger] s@[i]),
    ensures
        fits_i32(signed_value(s@, g as int, k as int)) ==> r == Some(
            signed_value(s@, g as int, k as int) as i32,
        ),
        !fits_i32(signed_value(s@, g as int, k as int)) ==> r is None,
{
    let h = g + 1;
    let mut acc: i64 = 0;
    let mut j = h;
    while j < k
        invariant
            h <= j <= k <= s@.len(),
            g + 1 == h,
            forall|i: int| h <= i < k ==> is_digit(#[trigger] s@[i]),
            acc == digits_value(s@, h as int, j as int),
            0 <= acc <= 2147483648,
        decreases k - j,
    {
        let c = s[j];
        assert(is_digit(s@[j as int]));
        let d = (c as u32 - '0' as u32) as i64;
        acc = acc * 10 + d;
        j = j + 1;
        if acc > 2147483648 {
            proof { lemma_digits_grow(s@, h as int, j as int, k as int); }
            return None;
        }
    }
    if s[g] == '-' {
        Some((-acc) as i32)
    } else if acc > 2147483647 {
        None
    } else {
        Some(acc as i32)
    }
}

/// Parse the `/credit` command of a comment, if it holds one.
pub fn parse_credit_command(comment_body: &str) -> (r: Option<CreditCommand>)
    ensures
        match command_in(comment_body@) {
            None => r is None,
            Some((kind, a, b, delta, q, e)) => {
                let user = comment_body@.subrange(a, b);
                match kind {
                    CharClass::Space => r matches Some(CreditCommand::Check { username })
                        && username@ == user,
                    CharClass::Digit => r matches Some(CreditCommand::Override { username, delta: dl, reason })
                        && username@ == user && dl == delta && reason@ == comment_body@.subrange(q, e),
                    _ => r matches Some(CreditCommand::Blacklist { username }) && username@ == user,
                }
            },
        },
{
    proof { reveal_strlit("check"); reveal_strlit("blacklist"); }
    let s = chars_of(comment_body);
    let lits = Lits::new();
    if let Some((a, b)) = first_user_command_exec(&s, &lits.check, &lits) {
        return Some(CreditCommand::Check { username: string_of_range(&s, a, b) });
    }
    if let Some((a, b, g, k, q, e)) = first_override_exec(&s, &lits) {
        proof {
            assert forall|i: int| g + 1 <= i < k implies is_digit(#[trigger] s@[i]) by {
                lemma_run_class(s@, g as int + 1, CharClass::Digit, i);
            }
        }
        if let Some(delta) = signed_value_exec(&s, g, k) {
            return Some(
                CreditCommand::Override {
                    username: string_of_range(&s, a, b),
                    delta,
                    reason: string_of_range(&s, q, e),
                },
            );
        }
    }
    if let Some((a, b)) = first_user_command_exec(&s, &lits.black, &lits) {
        return Some(CreditCommand::Blacklist { username: string_of_range(&s, a, b) });
    }
    None
}

/// Every character of a run is of its class.
proof fn lemma_run_class(s: Seq<char>, i: int, k: CharClass, j: int)
    requires
        0 <= i <= j < run_end(s, i, k),
    ensures
        in_class(k, s[j]),
    decreases s.len() - i,
{
    if i < j {
        lemma_run_class(s, i + 1, k, j);
    }
}

} // verus!
