//! Line and text scraping used around the external tools: substring
//! search, the noisy-stderr filter, the `"[NN%] ..."` progress prefix
//! of the build tool's compile step, and the in-place rewrite of the
//! build-configuration file's dependency-discovery directive.

use vstd::prelude::*;

verus! {

/// `pat` stands in `s` at position `i`.
pub open spec fn spec_match_at(s: Seq<char>, pat: Seq<char>, i: int) -> bool {
    &&& 0 <= i
    &&& i + pat.len() <= s.len()
    &&& s.subrange(i, i + pat.len() as int) == pat
}

/// `pat` stands somewhere in `s`.
pub open spec fn spec_contains(s: Seq<char>, pat: Seq<char>) -> bool {
    exists|i: int| spec_match_at(s, pat, i)
}

/// First position of `pat` in `s`, if any.
pub open spec fn spec_find_sub(s: Seq<char>, pat: Seq<char>) -> Option<int>
    decreases s.len(),
{
    if s.len() < pat.len() {
        None
    } else if s.take(pat.len() as int) == pat {
        Some(0)
    } else if s.len() == 0 {
        None
    } else {
        match spec_find_sub(s.skip(1), pat) {
            Some(k) => Some(k + 1),
            None => None,
        }
    }
}

/// `spec_find_sub` finds the first match and misses none.
pub proof fn lemma_find_sub(s: Seq<char>, pat: Seq<char>)
    ensures
        match spec_find_sub(s, pat) {
            Some(k) => spec_match_at(s, pat, k) && forall|m: int|
                0 <= m < k ==> !spec_match_at(s, pat, m),
            None => forall|m: int| !spec_match_at(s, pat, m),
        },
    decreases s.len(),
{
    if s.len() < pat.len() {
        assert forall|m: int| !spec_match_at(s, pat, m) by {}
    } else if s.take(pat.len() as int) == pat {
        assert(s.subrange(0, pat.len() as int) =~= s.take(pat.len() as int));
        assert(spec_match_at(s, pat, 0));
    } else if s.len() == 0 {
        assert(s.take(pat.len() as int) =~= pat);
    } else {
        lemma_find_sub(s.skip(1), pat);
        assert(!spec_match_at(s, pat, 0)) by {
            if spec_match_at(s, pat, 0) {
                assert(s.take(pat.len() as int) =~= s.subrange(0, pat.len() as int));
            }
        }
        assert forall|m: int| 1 <= m && spec_match_at(s, pat, m) implies spec_match_at(
            s.skip(1),
            pat,
            m - 1,
        ) by {
            assert(s.skip(1).subrange(m - 1, m - 1 + pat.len() as int) =~= s.subrange(
                m,
                m + pat.len() as int,
            ));
        }
        assert forall|m: int| spec_match_at(s.skip(1), pat, m) implies spec_match_at(
            s,
            pat,
            m + 1,
        ) by {
            let l = pat.len() as int;
            assert forall|t: int| 0 <= t < l implies s.subrange(m + 1, m + 1 + l)[t] == pat[t] by {
                assert(s.skip(1).subrange(m, m + l)[t] == pat[t]);
                assert(s.skip(1)[m + t] == s[1 + m + t]);
            }
            assert(s.subrange(m + 1, m + 1 + l) =~= pat);
        }
    }
}

/// Tests whether `pat` stands in `s` at position `i`.
fn match_at(s: &str, n: usize, i: usize, pat: &str, m: usize) -> (r: bool)
    requires
        n == s@.len(),
        m == pat@.len(),
        i <= n,
    ensures
        r == spec_match_at(s@, pat@, i as int),
{
    if m > n - i {
        return false;
    }
    let mut j: usize = 0;
    while j < m
        invariant
            n == s@.len(),
            m == pat@.len(),
            i + m <= n,
            j <= m,
            forall|k: int| 0 <= k < j ==> s@[i + k] == pat@[k],
        decreases m - j,
    {
        if s.get_char(i + j) != pat.get_char(j) {
            proof {
                assert(s@.subrange(i as int, i as int + m as int)[j as int] == s@[i + j]);
            }
            return false;
        }
        j += 1;
    }
    proof {
        assert(s@.subrange(i as int, i as int + m as int) =~= pat@);
    }
    true
}

/// First position of `pat` in `s`, by a left-to-right scan.
pub fn find_sub(s: &str, pat: &str) -> (r: Option<usize>)
    ensures
        match r {
            Some(i) => spec_find_sub(s@, pat@) == Some(i as int),
            None => spec_find_sub(s@, pat@) is None,
        },
{
    proof {
        lemma_find_sub(s@, pat@);
    }
    let n = s.unicode_len();
    let m = pat.unicode_len();
    if m > n {
        return None;
    }
    if m == 0 {
        proof {
            assert(s@.take(0) =~= pat@);
        }
        return Some(0);
    }
    let mut i: usize = 0;
    while i <= n - m
        invariant
            n == s@.len(),
            m == pat@.len(),
            0 < m <= n,
            i <= n - m + 1,
            forall|k: int| 0 <= k < i ==> !spec_match_at(s@, pat@, k),
        decreases n - i,
    {
        if match_at(s, n, i, pat, m) {
            proof {
                lemma_find_sub(s@, pat@);
                match spec_find_sub(s@, pat@) {
                    Some(k) => {
                        if k < i {
                            assert(!spec_match_at(s@, pat@, k));
                        }
                        if i < k {
                            assert(!spec_match_at(s@, pat@, i as int));
                        }
                    },
                    None => {
                        assert(!spec_match_at(s@, pat@, i as int));
                    },
                }
            }
            return Some(i);
        }
        i += 1;
    }
    proof {
        lemma_find_sub(s@, pat@);
        assert forall|k: int| !spec_match_at(s@, pat@, k) by {
            if 0 <= k < n - m + 1 {
                assert(!spec_match_at(s@, pat@, k));
            }
        }
        match spec_find_sub(s@, pat@) {
            Some(k) => {
                assert(!spec_match_at(s@, pat@, k));
            },
            None => {},
        }
    }
    None
}

/// Tests whether `pat` stands somewhere in `s`.
pub fn contains_sub(s: &str, pat: &str) -> (r: bool)
    ensures
        r == spec_contains(s@, pat@),
{
    proof {
        lemma_find_sub(s@, pat@);
    }
    match find_sub(s, pat) {
        Some(i) => true,
        None => {
            proof {
                assert(!spec_contains(s@, pat@)) by {
                    if spec_contains(s@, pat@) {
                        let w = choose|i: int| spec_match_at(s@, pat@, i);
                    }
                }
            }
            false
        },
    }
}

/// Character-for-character string equality.
pub fn str_eq(a: &str, b: &str) -> (r: bool)
    ensures
        r == (a@ == b@),
{
    let n = a.unicode_len();
    let m = b.unicode_len();
    if n != m {
        return false;
    }
    let r = match_at(a, n, 0, b, m);
    proof {
        if r {
            assert(a@.subrange(0, m as int) =~= a@);
        } else {
            if a@ == b@ {
                assert(a@.subrange(0, m as int) =~= b@);
            }
        }
    }
    r
}

/// The process runner drops standard-error lines matching the
/// version-control tool's noisy informational pattern; every other
/// line goes to the log.
pub fn keep_stderr_line(line: &str) -> (r: bool)
    ensures
        r == !spec_contains(line@, "Cloning into"@),
{
    !contains_sub(line, "Cloning into")
}

/// Replaces the first occurrence of `pat` in `s` by `repl`; without
/// an occurrence the text comes back unchanged.
pub fn replace_first(s: &str, pat: &str, repl: &str) -> (r: String)
    ensures
        match spec_find_sub(s@, pat@) {
            Some(i) => r@ == s@.take(i) + repl@ + s@.skip(i + pat@.len()),
            None => r@ == s@,
        },
{
    let n = s.unicode_len();
    let m = pat.unicode_len();
    match find_sub(s, pat) {
        Some(i) => {
            proof {
                lemma_find_sub(s@, pat@);
            }
            let mut r = s.substring_char(0, i).to_owned();
            r.append(repl);
            r.append(s.substring_char(i + m, n));
            proof {
                assert(s@.subrange(0, i as int) =~= s@.take(i as int));
                assert(s@.subrange(i as int + m as int, n as int) =~= s@.skip(i + pat@.len()));
            }
            r
        },
        None => s.to_owned(),
    }
}

/// Whitespace as trimmed around the percentage of a progress line.
pub open spec fn is_space(c: char) -> bool {
    c == ' ' || c == '\t' || c == '\r' || c == '\n'
}

pub open spec fn spec_trim_start(s: Seq<char>) -> Seq<char>
    decreases s.len(),
{
    if s.len() > 0 && is_space(s[0]) {
        spec_trim_start(s.skip(1))
    } else {
        s
    }
}

pub open spec fn spec_trim_end(s: Seq<char>) -> Seq<char>
    decreases s.len(),
{
    if s.len() > 0 && is_space(s.last()) {
        spec_trim_end(s.drop_last())
    } else {
        s
    }
}

pub open spec fn spec_trim(s: Seq<char>) -> Seq<char> {
    spec_trim_end(spec_trim_start(s))
}

pub open spec fn is_digit(c: char) -> bool {
    48 <= c as int && c as int <= 57
}

pub open spec fn all_digits(s: Seq<char>) -> bool {
    forall|i: int| 0 <= i < s.len() ==> is_digit(s[i])
}

/// Value of a decimal digit string.
pub open spec fn digits_val(s: Seq<char>) -> int
    decreases s.len(),
{
    if s.len() == 0 {
        0
    } else {
        digits_val(s.drop_last()) * 10 + (s.last() as int - 48)
    }
}

/// First position of `c` in `s`, if any.
pub open spec fn spec_find(s: Seq<char>, c: char) -> Option<int>
    decreases s.len(),
{
    if s.len() == 0 {
        None
    } else if s[0] == c {
        Some(0)
    } else {
        match spec_find(s.skip(1), c) {
            Some(k) => Some(k + 1),
            None => None,
        }
    }
}

/// The percentage carried by a `"[NN%] ..."`-shaped compile-step
/// output line: the text between the leading `[` and the first `]`,
/// trimmed, must end in `%`, and what stands before the `%`, trimmed
/// again, must be a decimal number.  Any other line carries none.
pub open spec fn spec_progress(line: Seq<char>) -> Option<u32> {
    if line.len() == 0 || line[0] != '[' {
        None
    } else {
        match spec_find(line.skip(1), ']') {
            None => None,
            Some(k) => {
                let t = spec_trim(line.subrange(1, 1 + k));
                if t.len() == 0 || t.last() != '%' {
                    None
                } else {
                    let u = spec_trim(t.drop_last());
                    if u.len() > 0 && all_digits(u) && digits_val(u) <= 0x7fff_ffff {
                        Some(digits_val(u) as u32)
                    } else {
                        None
                    }
                }
            },
        }
    }
}

proof fn lemma_find(s: Seq<char>, c: char)
    ensures
        match spec_find(s, c) {
            Some(k) => 0 <= k < s.len() && s[k] == c && forall|m: int| 0 <= m < k ==> s[m] != c,
            None => forall|m: int| 0 <= m < s.len() ==> s[m] != c,
        },
    decreases s.len(),
{
    if s.len() == 0 {
    } else if s[0] == c {
    } else {
        lemma_find(s.skip(1), c);
        match spec_find(s.skip(1), c) {
            Some(k) => {
                assert(s.skip(1)[k] == s[k + 1]);
                assert forall|m: int| 0 <= m < k + 1 implies s[m] != c by {
                    if m > 0 {
                        assert(s.skip(1)[m - 1] == s[m]);
                    }
                }
            },
            None => {
                assert forall|m: int| 0 <= m < s.len() implies s[m] != c by {
                    if m > 0 {
                        assert(s.skip(1)[m - 1] == s[m]);
                    }
                }
            },
        }
    }
}

proof fn lemma_trim_start_skip(s: Seq<char>, j: int)
    requires
        0 <= j <= s.len(),
        forall|m: int| 0 <= m < j ==> is_space(s[m]),
        j == s.len() || !is_space(s[j]),
    ensures
        spec_trim_start(s) == s.skip(j),
    decreases j,
{
    if j == 0 {
        assert(s.skip(0) =~= s);
    } else {
        assert(is_space(s[0]));
        lemma_trim_start_skip(s.skip(1), j - 1);
        assert(forall|m: int| 0 <= m < j - 1 ==> s.skip(1)[m] == s[m + 1]);
        if j - 1 < s.skip(1).len() {
            assert(s.skip(1)[j - 1] == s[j]);
        }
        assert(s.skip(1).skip(j - 1) =~= s.skip(j));
    }
}

proof fn lemma_trim_end_take(s: Seq<char>, j: int)
    requires
        0 <= j <= s.len(),
        forall|m: int| j <= m < s.len() ==> is_space(s[m]),
        j == 0 || !is_space(s[j - 1]),
    ensures
        spec_trim_end(s) == s.take(j),
    decreases s.len() - j,
{
    if j == s.len() {
        assert(s.take(j) =~= s);
    } else {
        assert(is_space(s.last()));
        lemma_trim_end_take(s.drop_last(), j);
        assert(s.drop_last().take(j) =~= s.take(j));
    }
}

fn space_char(c: char) -> (r: bool)
    ensures
        r == is_space(c),
{
    c == ' ' || c == '\t' || c == '\r' || c == '\n'
}

/// Trims whitespace off both ends of the range `[a, b)` of `s`,
/// returning the trimmed range.
fn trim_range(s: &str, n: usize, a: usize, b: usize) -> (r: (usize, usize))
    requires
        n == s@.len(),
        a <= b <= n,
    ensures
        ({
            let (x, y) = r;
            &&& a <= x <= y <= b
            &&& spec_trim(s@.subrange(a as int, b as int)) == s@.subrange(x as int, y as int)
        }),
{
    let mut x = a;
    while x < b && space_char(s.get_char(x))
        invariant
            n == s@.len(),
            a <= x <= b <= n,
            forall|m: int| a <= m < x ==> is_space(s@[m]),
        decreases b - x,
    {
        x += 1;
    }
    let mut y = b;
    while y > x && space_char(s.get_char(y - 1))
        invariant
            n == s@.len(),
            a <= x <= y <= b <= n,
            forall|m: int| a <= m < x ==> is_space(s@[m]),
            x == b || !is_space(s@[x as int]),
            forall|m: int| y <= m < b ==> is_space(s@[m]),
        decreases y,
    {
        y -= 1;
    }
    proof {
        let seg = s@.subrange(a as int, b as int);
        assert(forall|m: int| 0 <= m < seg.len() ==> seg[m] == s@[a + m]);
        lemma_trim_start_skip(seg, x - a);
        assert(seg.skip(x - a) =~= s@.subrange(x as int, b as int));
        let mid = s@.subrange(x as int, b as int);
        assert(forall|m: int| 0 <= m < mid.len() ==> mid[m] == s@[x + m]);
        lemma_trim_end_take(mid, y - x);
        assert(mid.take(y - x) =~= s@.subrange(x as int, y as int));
    }
    (x, y)
}

proof fn lemma_digits_prefix(s: Seq<char>, i: int)
    requires
        all_digits(s),
        0 <= i <= s.len(),
    ensures
        digits_val(s) >= digits_val(s.take(i)) >= 0,
    decreases s.len(),
{
    if s.len() == 0 {
        assert(s.take(i) =~= s);
    } else {
        assert(all_digits(s.drop_last())) by {
            assert(forall|m: int| 0 <= m < s.len() - 1 ==> s.drop_last()[m] == s[m]);
        }
        lemma_digits_prefix(s.drop_last(), if i <= s.len() - 1 {
            i
        } else {
            s.len() - 1
        });
        if i <= s.len() - 1 {
            assert(s.drop_last().take(i) =~= s.take(i));
            assert(digits_val(s) >= digits_val(s.drop_last()));
        } else {
            assert(s.take(i) =~= s);
        }
    }
}

/// Reads the progress percentage off one compile-step output line;
/// lines of any other shape carry none and are never an error.
pub fn parse_progress_line(line: &str) -> (r: Option<u32>)
    ensures
        r == spec_progress(line@),
{
    let n = line.unicode_len();
    if n == 0 || line.get_char(0) != '[' {
        return None;
    }
    let mut j: usize = 1;
    while j < n && line.get_char(j) != ']'
        invariant
            n == line@.len(),
            1 <= j <= n,
            forall|m: int| 1 <= m < j ==> line@[m] != ']',
        decreases n - j,
    {
        j += 1;
    }
    proof {
        lemma_find(line@.skip(1), ']');
        assert(forall|m: int| 0 <= m < n - 1 ==> line@.skip(1)[m] == line@[m + 1]);
    }
    if j == n {
        proof {
            match spec_find(line@.skip(1), ']') {
                Some(k) => {
                    assert(line@.skip(1)[k] == line@[k + 1]);
                },
                None => {},
            }
        }
        return None;
    }
    proof {
        assert(line@.skip(1)[j - 1] == line@[j as int]);
        match spec_find(line@.skip(1), ']') {
            Some(k) => {
                if k < j - 1 {
                    assert(line@[k + 1] != ']');
                }
                if k > j - 1 {
                    assert(line@.skip(1)[j - 1] != ']');
                }
            },
            None => {
                assert(false);
            },
        }
    }
    let (x, y) = trim_range(line, n, 1, j);
    if y == x {
        return None;
    }
    if line.get_char(y - 1) != '%' {
        proof {
            assert(line@.subrange(x as int, y as int).last() == line@[y - 1]);
        }
        return None;
    }
    proof {
        assert(line@.subrange(x as int, y as int).last() == line@[y - 1]);
        assert(line@.subrange(x as int, y as int).drop_last() =~= line@.subrange(
            x as int,
            y as int - 1,
        ));
    }
    let (x2, y2) = trim_range(line, n, x, y - 1);
    if y2 == x2 {
        return None;
    }
    let ghost u = line@.subrange(x2 as int, y2 as int);
    proof {
        assert(spec_progress(line@) == (if all_digits(u) && digits_val(u) <= 0x7fff_ffff {
            Some(digits_val(u) as u32)
        } else {
            Option::<u32>::None
        }));
    }
    let mut acc: u64 = 0;
    let mut idx = x2;
    while idx < y2
        invariant
            n == line@.len(),
            x2 <= idx <= y2 <= n,
            u == line@.subrange(x2 as int, y2 as int),
            u.len() > 0,
            spec_progress(line@) == (if all_digits(u) && digits_val(u) <= 0x7fff_ffff {
                Some(digits_val(u) as u32)
            } else {
                Option::<u32>::None
            }),
            acc <= 0x7fff_ffff,
            acc == digits_val(u.take(idx - x2)),
            forall|m: int| 0 <= m < idx - x2 ==> is_digit(u[m]),
        decreases y2 - idx,
    {
        let c = line.get_char(idx);
        let cv = c as u32;
        proof {
            assert(u[idx - x2] == line@[idx as int]);
        }
        if cv < 48 || cv > 57 {
            proof {
                assert(!is_digit(u[idx - x2]));
            }
            return None;
        }
        let d = (cv - 48) as u64;
        acc = acc * 10 + d;
        proof {
            assert(u.take(idx - x2 + 1).drop_last() =~= u.take(idx - x2));
            assert(u.take(idx - x2 + 1).last() == u[idx - x2]);
        }
        idx += 1;
        if acc > 0x7fff_ffff {
            proof {
                if all_digits(u) {
                    lemma_digits_prefix(u, idx - x2);
                    assert(digits_val(u) > 0x7fff_ffff);
                }
            }
            return None;
        }
    }
    proof {
        assert(u.take(y2 - x2) =~= u);
        assert(all_digits(u));
    }
    Some(acc as u32)
}

/// The text substituted for the interpreter dependency-discovery
/// directive, pointing the build at a freshly built interpreter
/// prefix.
pub open spec fn spec_lua_replacement(p: Seq<char>) -> Seq<char> {
    "include_directories(\""@ + p + "/include/luajit-2.1/\")\nset(LUA_LIBRARIES \""@ + p
        + "/lib/libluajit-5.1.a\")"@
}

pub fn lua_replacement(lua_path: &str) -> (r: String)
    ensures
        r@ == spec_lua_replacement(lua_path@),
{
    let mut r = "include_directories(\"".to_owned();
    r.append(lua_path);
    r.append("/include/luajit-2.1/\")\nset(LUA_LIBRARIES \"");
    r.append(lua_path);
    r.append("/lib/libluajit-5.1.a\")");
    proof {
        assert(r@ =~= spec_lua_replacement(lua_path@));
    }
    r
}

/// Rewrites the interpreter dependency-discovery directive of a
/// build-configuration text in place; a text without the directive
/// comes back unchanged, so the substitution is idempotent once it
/// has fired.
pub fn rewrite_build_config(cmake: &str, lua_path: &str) -> (r: String)
    ensures
        ({
            let pat = "find_package(Lua REQUIRED)"@;
            match spec_find_sub(cmake@, pat) {
                Some(i) => r@ == cmake@.take(i) + spec_lua_replacement(lua_path@) + cmake@.skip(
                    i + pat.len(),
                ),
                None => r@ == cmake@,
            }
        }),
{
    let repl = lua_replacement(lua_path);
    replace_first(cmake, "find_package(Lua REQUIRED)", repl.as_str())
}

} // verus!
