//! Pure helpers of the HTTP layer: static file paths and types, the bearer
//! token check, the discrete GPU pick and the update repository setting.
use vstd::prelude::*;
use vstd::string::StrSliceExecFns;
use crate::text::{contains_ci, contains_ci_x, matches_ci_at, rfind_char, rfind_char_x, str_eq};

verus! {

/// First index from `i` that is not `/`.
pub open spec fn skip_slashes(p: Seq<char>, i: int) -> int
    decreases p.len() - i,
{
    if 0 <= i < p.len() && p[i] == '/' { skip_slashes(p, i + 1) } else { i }
}

/// Whether `s` holds two dots in a row.
pub open spec fn has_dot_dot(s: Seq<char>) -> bool {
    exists|k: int| 0 <= k < s.len() - 1 && s[k] == '.' && #[trigger] s[k + 1] == '.'
}

/// The file a request path names: leading slashes dropped, `index.html` for an
/// empty path or a directory, and nothing for a path holding `..`.
pub open spec fn sanitized(p: Seq<char>) -> Option<Seq<char>> {
    let rest = p.subrange(skip_slashes(p, 0), p.len() as int);
    if rest.len() == 0 || rest.last() == '/' {
        Some("index.html"@)
    } else if has_dot_dot(rest) {
        None
    } else {
        Some(rest)
    }
}

/// The file that request path `p` names, if it may be served.
pub fn sanitize_path(p: &str) -> (r: Option<String>)
    ensures
        match r {
            Some(v) => sanitized(p@) == Some(v@),
            None => sanitized(p@) is None,
        },
{
    let n = p.unicode_len();
    let mut a: usize = 0;
    while a < n && p.get_char(a) == '/'
        invariant
            n == p@.len(),
            a <= n,
            skip_slashes(p@, 0) == skip_slashes(p@, a as int),
        decreases n - a,
    {
        a = a + 1;
    }
    assert(skip_slashes(p@, a as int) == a);
    let rest = p.substring_char(a, n);
    let m = rest.unicode_len();
    assert(rest@ == p@.subrange(skip_slashes(p@, 0), p@.len() as int));
    if m == 0 || rest.get_char(m - 1) == '/' {
        return Some(String::from_str("index.html"));
    }
    let mut k: usize = 0;
    while k + 1 < m
        invariant
            m == rest@.len(),
            m >= 1,
            k < m,
            rest@[m - 1] != '/',
            rest@ == p@.subrange(skip_slashes(p@, 0), p@.len() as int),
            forall|j: int| 0 <= j < k ==> !(rest@[j] == '.' && #[trigger] rest@[j + 1] == '.'),
        decreases m - k,
    {
        if rest.get_char(k) == '.' && rest.get_char(k + 1) == '.' {
            assert(rest@[k as int] == '.' && rest@[k + 1] == '.');
            assert(has_dot_dot(rest@));
            assert(rest@.last() == rest@[m - 1]);
            return None;
        }
        k = k + 1;
    }
    Some(String::from_str(rest))
}

/// Whether `s` ends with `pat`, ignoring ASCII case.
pub open spec fn ends_with_ci(s: Seq<char>, pat: Seq<char>) -> bool {
    s.len() >= pat.len() && matches_ci_at(s, pat, s.len() - pat.len())
}

/// The content type served for `path`, by its extension.
pub open spec fn mime_of(path: Seq<char>) -> Seq<char> {
    if ends_with_ci(path, ".html"@) || ends_with_ci(path, ".htm"@) {
        "text/html; charset=utf-8"@
    } else if ends_with_ci(path, ".js"@) || ends_with_ci(path, ".mjs"@) {
        "application/javascript"@
    } else if ends_with_ci(path, ".css"@) {
        "text/css"@
    } else if ends_with_ci(path, ".json"@) || ends_with_ci(path, ".map"@) {
        "application/json"@
    } else if ends_with_ci(path, ".svg"@) {
        "image/svg+xml"@
    } else if ends_with_ci(path, ".png"@) {
        "image/png"@
    } else if ends_with_ci(path, ".jpg"@) || ends_with_ci(path, ".jpeg"@) {
        "image/jpeg"@
    } else if ends_with_ci(path, ".woff2"@) {
        "font/woff2"@
    } else {
        "application/octet-stream"@
    }
}

fn ends_with_ci_x(s: &str, pat: &str) -> (r: bool)
    ensures
        r == ends_with_ci(s@, pat@),
{
    let n = s.unicode_len();
    let m = pat.unicode_len();
    if n < m {
        return false;
    }
    let mut j: usize = 0;
    while j < m
        invariant
            n == s@.len(),
            m == pat@.len(),
            m <= n,
            0 <= j <= m,
            forall|k: int| 0 <= k < j ==> crate::text::lower_code(#[trigger] s@[(n - m) + k]) == crate::text::lower_code(pat@[k]),
        decreases m - j,
    {
        let c = s.get_char(n - m + j);
        let d = pat.get_char(j);
        let lc: u32 = if 'A' <= c && c <= 'Z' { (c as u32) + 32 } else { c as u32 };
        let ld: u32 = if 'A' <= d && d <= 'Z' { (d as u32) + 32 } else { d as u32 };
        if lc != ld {
            return false;
        }
        j = j + 1;
    }
    true
}

/// The content type served for `path`.
pub fn guess_mime(path: &str) -> (r: &'static str)
    ensures
        r@ == mime_of(path@),
{
    if ends_with_ci_x(path, ".html") || ends_with_ci_x(path, ".htm") {
        "text/html; charset=utf-8"
    } else if ends_with_ci_x(path, ".js") || ends_with_ci_x(path, ".mjs") {
        "application/javascript"
    } else if ends_with_ci_x(path, ".css") {
        "text/css"
    } else if ends_with_ci_x(path, ".json") || ends_with_ci_x(path, ".map") {
        "application/json"
    } else if ends_with_ci_x(path, ".svg") {
        "image/svg+xml"
    } else if ends_with_ci_x(path, ".png") {
        "image/png"
    } else if ends_with_ci_x(path, ".jpg") || ends_with_ci_x(path, ".jpeg") {
        "image/jpeg"
    } else if ends_with_ci_x(path, ".woff2") {
        "font/woff2"
    } else {
        "application/octet-stream"
    }
}

/// Whether a request's `Authorization` header carries the expected token,
/// with or without the `Bearer ` prefix. With no token configured, or no
/// header, nothing is accepted.
pub open spec fn token_accepted(expected: Option<Seq<char>>, header: Option<Seq<char>>) -> bool {
    match (expected, header) {
        (Some(e), Some(h)) => {
            let b = "Bearer "@;
            if h.len() >= b.len() && h.subrange(0, b.len() as int) == b {
                h.subrange(b.len() as int, h.len() as int) == e
            } else {
                h == e
            }
        },
        _ => false,
    }
}

/// Check a request's `Authorization` header against the configured token.
pub fn is_valid_token(expected: Option<&str>, auth_header: Option<&str>) -> (r: bool)
    ensures
        r == token_accepted(
            match expected {
                Some(e) => Some(e@),
                None => None,
            },
            match auth_header {
                Some(h) => Some(h@),
                None => None,
            },
        ),
{
    let (e, h) = match (expected, auth_header) {
        (Some(e), Some(h)) => (e, h),
        _ => return false,
    };
    let prefix = "Bearer ";
    let n = h.unicode_len();
    let m = prefix.unicode_len();
    if n >= m && str_eq(h.substring_char(0, m), prefix) {
        str_eq(h.substring_char(m, n), e)
    } else {
        str_eq(h, e)
    }
}

/// Whether a GPU name looks like a discrete card.
pub open spec fn looks_discrete(n: Seq<char>) -> bool {
    let l = n.len() as int;
    ||| contains_ci(n, "rtx"@, 0, l)
    ||| contains_ci(n, "gtx"@, 0, l)
    ||| contains_ci(n, "rx "@, 0, l)
    ||| contains_ci(n, "arc "@, 0, l)
    ||| contains_ci(n, "radeon pro"@, 0, l)
    ||| contains_ci(n, "geforce"@, 0, l)
    ||| contains_ci(n, "quadro"@, 0, l)
    ||| contains_ci(n, "radeon rx"@, 0, l)
}

/// Whether a GPU name looks like an integrated one.
pub open spec fn looks_integrated(n: Seq<char>) -> bool {
    let l = n.len() as int;
    ||| contains_ci(n, "uhd"@, 0, l)
    ||| contains_ci(n, "iris"@, 0, l)
    ||| contains_ci(n, "vega"@, 0, l)
    ||| contains_ci(n, "780m"@, 0, l)
}

/// The first name from `i` on that looks discrete and not integrated.
pub open spec fn first_discrete(names: Seq<String>, i: int) -> Option<int>
    decreases names.len() - i,
{
    if i < 0 || i >= names.len() {
        None
    } else if looks_discrete(names[i]@) && !looks_integrated(names[i]@) {
        Some(i)
    } else {
        first_discrete(names, i + 1)
    }
}

/// The first name from `i` on that does not look integrated.
pub open spec fn first_not_integrated(names: Seq<String>, i: int) -> Option<int>
    decreases names.len() - i,
{
    if i < 0 || i >= names.len() {
        None
    } else if !looks_integrated(names[i]@) {
        Some(i)
    } else {
        first_not_integrated(names, i + 1)
    }
}

/// The GPU to report as the dedicated one: the first that looks discrete and
/// not integrated, else the first that does not look integrated.
pub open spec fn dedicated_gpu(names: Seq<String>) -> Option<Seq<char>> {
    match first_discrete(names, 0) {
        Some(i) => Some(names[i]@),
        None => match first_not_integrated(names, 0) {
            Some(i) => Some(names[i]@),
            None => None,
        },
    }
}

fn looks_discrete_x(n: &str) -> (r: bool)
    ensures
        r == looks_discrete(n@),
{
    let l = n.unicode_len();
    contains_ci_x(n, "rtx", 0, l) || contains_ci_x(n, "gtx", 0, l) || contains_ci_x(n, "rx ", 0, l) || contains_ci_x(
        n,
        "arc ",
        0,
        l,
    ) || contains_ci_x(n, "radeon pro", 0, l) || contains_ci_x(n, "geforce", 0, l) || contains_ci_x(n, "quadro", 0, l)
        || contains_ci_x(n, "radeon rx", 0, l)
}

fn looks_integrated_x(n: &str) -> (r: bool)
    ensures
        r == looks_integrated(n@),
{
    let l = n.unicode_len();
    contains_ci_x(n, "uhd", 0, l) || contains_ci_x(n, "iris", 0, l) || contains_ci_x(n, "vega", 0, l) || contains_ci_x(
        n,
        "780m",
        0,
        l,
    )
}

/// Pick the dedicated GPU among the adapter names.
pub fn pick_dedicated_gpu(names: &[String]) -> (r: Option<String>)
    ensures
        match r {
            Some(v) => dedicated_gpu(names@) == Some(v@),
            None => dedicated_gpu(names@) is None,
        },
{
    let mut best: Option<usize> = None;
    let mut i: usize = 0;
    while i < names.len()
        invariant
            0 <= i <= names@.len(),
            first_discrete(names@, 0) == first_discrete(names@, i as int),
            match best {
                Some(b) => first_not_integrated(names@, 0) == Some(b as int) && b < names@.len(),
                None => first_not_integrated(names@, 0) == first_not_integrated(names@, i as int),
            },
        decreases names@.len() - i,
    {
        let n = names[i].as_str();
        let integrated = looks_integrated_x(n);
        if looks_discrete_x(n) && !integrated {
            return Some(names[i].clone());
        }
        if best.is_none() && !integrated {
            best = Some(i);
        }
        i = i + 1;
    }
    match best {
        Some(b) => Some(names[b].clone()),
        None => None,
    }
}

/// The `(owner, name)` of the update repository setting: `owner/name`, or
/// the last two path pieces of a URL naming github.com (or of a value without a
/// slash, whose one piece serves as both). Empty pieces are refused in the
/// second form only.
pub open spec fn repo_of(r: Seq<char>) -> Option<(Seq<char>, Seq<char>)> {
    let len = r.len() as int;
    match rfind_char(r, '/', 0, len) {
        Some(last) => if !contains_exact(r, "github.com"@) {
            let first = crate::text::find_char(r, '/', 0, len);
            Some((r.subrange(0, first), r.subrange(first + 1, len)))
        } else {
            let start = match rfind_char(r, '/', 0, last) {
                Some(p) => p + 1,
                None => 0,
            };
            let owner = r.subrange(start, last);
            let name = r.subrange(last + 1, len);
            if owner.len() == 0 || name.len() == 0 { None } else { Some((owner, name)) }
        },
        None => if len == 0 { None } else { Some((r, r)) },
    }
}

/// Whether `pat` occurs in `s`, case included.
pub open spec fn contains_exact(s: Seq<char>, pat: Seq<char>) -> bool {
    crate::text::find_str(s, pat, 0, s.len() as int) is Some
}

/// Read the update repository setting.
pub fn parse_github_repo(repo: &str) -> (r: Option<(String, String)>)
    ensures
        match r {
            Some((o, n)) => repo_of(repo@) == Some((o@, n@)),
            None => repo_of(repo@) is None,
        },
{
    let len = repo.unicode_len();
    match rfind_char_x(repo, '/', 0, len) {
        Some(last) => {
            proof {
                crate::text::lemma_rfind_char_bounds(repo@, '/', 0, len as int);
                crate::text::lemma_find_char_reaches(repo@, '/', 0, len as int, last as int);
            }
            if crate::text::find_str_x(repo, "github.com", 0, len).is_none() {
                let first = crate::text::find_char_x(repo, '/', 0, len);
                if first >= len {
                    return None;
                }
                Some((String::from_str(repo.substring_char(0, first)), String::from_str(repo.substring_char(first + 1, len))))
            } else {
                let start = match rfind_char_x(repo, '/', 0, last) {
                    Some(p) => {
                        proof {
                            crate::text::lemma_rfind_char_bounds(repo@, '/', 0, last as int);
                        }
                        p + 1
                    },
                    None => 0,
                };
                if start == last || last + 1 == len {
                    return None;
                }
                Some((String::from_str(repo.substring_char(start, last)), String::from_str(repo.substring_char(last + 1, len))))
            }
        },
        None => {
            if len == 0 {
                None
            } else {
                Some((String::from_str(repo), String::from_str(repo)))
            }
        },
    }
}

} // verus!
