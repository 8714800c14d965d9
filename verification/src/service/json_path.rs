use vstd::prelude::*;
use crate::text::{chars_of, is_digit};

verus! {

/// Whether `c` is a character that JSONPath texts may hold between tokens.
pub open spec fn is_path_space(c: char) -> bool {
    c == ' ' || c == '\t' || c == '\r' || c == '\n'
}

/// The first position at or after `k` that holds no path space.
pub open spec fn skip_spaces(p: Seq<char>, k: int) -> int
    decreases p.len() - k,
{
    if 0 <= k < p.len() && is_path_space(p[k]) {
        skip_spaces(p, k + 1)
    } else {
        k
    }
}

/// Whether position `i` of `p` opens a numeric index, a slice or a union of numbers: a `[`
/// whose first character after spaces is a digit, a `-` or a `:`.
pub open spec fn opens_index(p: Seq<char>, i: int) -> bool {
    &&& 0 <= i < p.len()
    &&& p[i] == '['
    &&& skip_spaces(p, i + 1) < p.len()
    &&& (is_digit(p[skip_spaces(p, i + 1)]) || p[skip_spaces(p, i + 1)] == '-' || p[skip_spaces(
        p,
        i + 1,
    )] == ':')
}

/// Whether position `j` lies inside the index that position `i` opens, before its `]`.
pub open spec fn in_index(p: Seq<char>, i: int, j: int) -> bool {
    &&& opens_index(p, i)
    &&& i < j < p.len()
    &&& forall|m: int| i < m <= j ==> #[trigger] p[m] != ']'
}

/// Whether `c` may stand in a union of indexes without making it name a negative or a
/// fractional number.
pub open spec fn union_char(c: char) -> bool {
    is_digit(c) || is_path_space(c) || c == ',' || c == '-'
}

/// Whether a negative number other than `-0` starts at `m`.
pub open spec fn negative_number_at(p: Seq<char>, m: int) -> bool {
    p[m] == '-' && m + 1 < p.len() && '1' <= p[m + 1] && p[m + 1] <= '9'
}

/// Whether position `k` holds a `0`.
pub open spec fn zero_at(p: Seq<char>, k: int) -> bool {
    0 <= k < p.len() && p[k] == '0'
}

/// Whether the index that position `i` opens is one the JSONPath evaluation of the
/// jsonpath-rust crate can take: a union of numbers (it holds a `,`) names no negative or
/// fractional number, and a slice with a step (two `:`) has no step `0`.
pub open spec fn index_ok(p: Seq<char>, i: int) -> bool {
    &&& (exists|j: int| in_index(p, i, j) && #[trigger] p[j] == ',') ==> (forall|m: int|
        #![trigger p[m]]
        in_index(p, i, m) ==> union_char(p[m]) && !negative_number_at(p, m))
    &&& forall|j1: int, j2: int|
        #![trigger p[j1], p[j2]]
        in_index(p, i, j1) && in_index(p, i, j2) && j1 < j2 && p[j1] == ':' && p[j2] == ':'
            ==> !zero_at(p, skip_spaces(p, j2 + 1))
}

/// Whether nineteen digits in a row start at `i`.
pub open spec fn long_digit_run_at(p: Seq<char>, i: int) -> bool {
    &&& 0 <= i
    &&& i + 19 <= p.len()
    &&& forall|k: int| i <= k < i + 19 ==> is_digit(#[trigger] p[k])
}

/// Whether the JSONPath evaluation of the jsonpath-rust crate can take the path `p` without
/// panicking: no number of nineteen or more digits (an index must fit in `i64`), no union of
/// indexes with a negative or fractional number, and no slice step `0`. The test reads the
/// text without regard to quotes, so it also refuses such forms inside quoted keys.
pub open spec fn safe_json_path(p: Seq<char>) -> bool {
    &&& forall|i: int| !#[trigger] long_digit_run_at(p, i)
    &&& forall|i: int| #[trigger] opens_index(p, i) ==> index_ok(p, i)
}

fn skip_spaces_from(p: &Vec<char>, k: usize) -> (r: usize)
    requires
        k <= p@.len(),
    ensures
        r as int == skip_spaces(p@, k as int),
        k <= r <= p@.len(),
        forall|m: int| k <= m < r ==> is_path_space(#[trigger] p@[m]),
{
    let mut j = k;
    while j < p.len() && (p[j] == ' ' || p[j] == '\t' || p[j] == '\r' || p[j] == '\n')
        invariant
            k <= j <= p@.len(),
            skip_spaces(p@, j as int) == skip_spaces(p@, k as int),
            forall|m: int| k <= m < j ==> is_path_space(#[trigger] p@[m]),
        decreases p@.len() - j,
    {
        j = j + 1;
    }
    j
}

fn index_check(p: &Vec<char>, i: usize) -> (r: bool)
    requires
        opens_index(p@, i as int),
    ensures
        r == index_ok(p@, i as int),
{
    let n = p.len();
    let mut j = i + 1;
    let mut has_comma = false;
    let mut all_union = true;
    let mut colon_seen = false;
    let mut step_zero = false;
    let ghost mut comma_at: int = 0;
    let ghost mut bad_at: int = 0;
    let ghost mut colon_at: int = 0;
    let ghost mut step_at: (int, int) = (0, 0);
    while j < n && p[j] != ']'
        invariant
            n == p@.len(),
            opens_index(p@, i as int),
            i < j <= n,
            forall|m: int| i < m < j ==> #[trigger] p@[m] != ']',
            has_comma ==> i < comma_at < j && p@[comma_at] == ',',
            !has_comma ==> forall|m: int| i < m < j ==> #[trigger] p@[m] != ',',
            !all_union ==> i < bad_at < j && !(union_char(p@[bad_at]) && !negative_number_at(
                p@,
                bad_at,
            )),
            all_union ==> forall|m: int|
                i < m < j ==> union_char(#[trigger] p@[m]) && !negative_number_at(p@, m),
            colon_seen ==> i < colon_at < j && p@[colon_at] == ':',
            !colon_seen ==> forall|m: int| i < m < j ==> #[trigger] p@[m] != ':',
            step_zero ==> i < step_at.0 < step_at.1 < j && p@[step_at.0] == ':' && p@[step_at.1]
                == ':' && zero_at(p@, skip_spaces(p@, step_at.1 + 1)),
            !step_zero ==> forall|j1: int, j2: int|
                #![trigger p@[j1], p@[j2]]
                i < j1 < j2 < j && p@[j1] == ':' && p@[j2] == ':' ==> !zero_at(
                    p@,
                    skip_spaces(p@, j2 + 1),
                ),
        decreases n - j,
    {
        let c = p[j];
        if c == ',' {
            if !has_comma {
                proof {
                    comma_at = j as int;
                }
            }
            has_comma = true;
        }
        let is_union = (('0' <= c && c <= '9') || c == ' ' || c == '\t' || c == '\r' || c == '\n'
            || c == ',' || c == '-') && !(c == '-' && j + 1 < n && '1' <= p[j + 1] && p[j + 1]
            <= '9');
        if !is_union {
            if all_union {
                proof {
                    bad_at = j as int;
                }
            }
            all_union = false;
        }
        if c == ':' {
            if colon_seen && !step_zero {
                let k = skip_spaces_from(p, j + 1);
                if k < n && p[k] == '0' {
                    proof {
                        step_at = (colon_at, j as int);
                    }
                    step_zero = true;
                }
            }
            if !colon_seen {
                proof {
                    colon_at = j as int;
                }
            }
            colon_seen = true;
        }
        j = j + 1;
    }
    proof {
        assert forall|m: int| #![trigger p@[m]] in_index(p@, i as int, m) implies i < m < j by {
            if m >= j {
                assert(j < n ==> p@[j as int] == ']');
            }
        }
        assert forall|m: int| #![trigger p@[m]] i < m < j implies in_index(p@, i as int, m) by {
            assert forall|q: int| i < q <= m implies #[trigger] p@[q] != ']' by {}
        }
        if has_comma {
            assert(in_index(p@, i as int, comma_at));
        }
        if !all_union {
            assert(in_index(p@, i as int, bad_at));
        }
        if step_zero {
            assert(in_index(p@, i as int, step_at.0));
            assert(in_index(p@, i as int, step_at.1));
        }
    }
    !(has_comma && !all_union) && !step_zero
}

/// The JSON text of the first value that the JSONPath `path` selects in the JSON document
/// `json`, as `JsonPathFinder::from_str(json, path)` and `find` give it and serde_json
/// writes it; nothing when the document or the path does not parse or nothing is selected.
pub uninterp spec fn json_path_first(json: Seq<char>, path: Seq<char>) -> Option<Seq<char>>;

/// `jsonpath_rust::JsonPathFinder::from_str`, `find`, and the first element of what was
/// found, written as JSON text. Claimed: the result is `json_path_first` of the two texts.
/// The lookup panics on some index forms (`as_u64().unwrap()` on union and single indexes,
/// `step_by(0)` on slices), which `safe_json_path` rules out.
#[verifier::external_body]
pub(crate) fn find_first(json: &str, path: &str) -> (r: Option<String>)
    requires
        safe_json_path(path@),
    ensures
        r.deep_view() == json_path_first(json@, path@),
{
    match jsonpath_rust::JsonPathFinder::from_str(json, path) {
        Ok(finder) => match finder.find().get(0) {
            Some(value) => Some(value.to_string()),
            None => None,
        },
        Err(_) => None,
    }
}

/// Whether jsonpath-rust can evaluate the path text `path` without panicking, as
/// `safe_json_path` states it.
pub fn json_path_is_safe(path: &str) -> (r: bool)
    ensures
        r == safe_json_path(path@),
{
    let p = chars_of(path);
    let n = p.len();
    let mut run: usize = 0;
    let mut j: usize = 0;
    while j < n
        invariant
            n == p@.len(),
            p@ == path@,
            j <= n,
            run <= j,
            run < 19,
            forall|k: int| j - run <= k < j ==> is_digit(#[trigger] p@[k]),
            run < j ==> !is_digit(p@[j - run - 1]),
            forall|i: int| i + 19 <= j ==> !#[trigger] long_digit_run_at(p@, i),
        decreases n - j,
    {
        let c = p[j];
        if '0' <= c && c <= '9' {
            if run == 18 {
                assert(long_digit_run_at(p@, j - 18));
                return false;
            }
            run = run + 1;
        } else {
            run = 0;
        }
        proof {
            assert forall|i: int| i + 19 <= j + 1 implies !#[trigger] long_digit_run_at(p@, i) by {
                if i + 19 == j + 1 && long_digit_run_at(p@, i) {
                    if !is_digit(c) {
                        assert(is_digit(p@[j as int]));
                    } else {
                        assert(is_digit(p@[j - run]));
                    }
                }
            }
        }
        j = j + 1;
    }
    assert forall|i: int| !#[trigger] long_digit_run_at(p@, i) by {
        if i + 19 > n {
        }
    }
    let mut i: usize = 0;
    while i < n
        invariant
            n == p@.len(),
            p@ == path@,
            i <= n,
            forall|a: int| !#[trigger] long_digit_run_at(p@, a),
            forall|a: int| 0 <= a < i && #[trigger] opens_index(p@, a) ==> index_ok(p@, a),
        decreases n - i,
    {
        if p[i] == '[' {
            let k = skip_spaces_from(&p, i + 1);
            if k < n && (('0' <= p[k] && p[k] <= '9') || p[k] == '-' || p[k] == ':') {
                if !index_check(&p, i) {
                    return false;
                }
            }
        }
        i = i + 1;
    }
    true
}

} // verus!
