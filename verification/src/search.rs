//! Line search: the query matching of the file-search tool.
//!
//! [`search`] returns the lines of a text that contain a query, in order;
//! [`search_case_insensitive`] compares the lowercase forms instead.  The
//! reading of the file and the printing of the result stay with the caller.

use vstd::prelude::*;

verus! {

/// Whether `needle` occurs in `hay` starting at position `i`.
pub open spec fn contains_at(hay: Seq<char>, needle: Seq<char>, i: int) -> bool {
    &&& 0 <= i
    &&& i + needle.len() <= hay.len()
    &&& hay.subrange(i, i + needle.len()) == needle
}

/// Whether `needle` occurs somewhere in `hay`.
pub open spec fn contains_seq(hay: Seq<char>, needle: Seq<char>) -> bool {
    exists|i: int| contains_at(hay, needle, i)
}

/// The position of the first newline of `s`, or `s.len()` when `s` holds
/// none.
pub open spec fn first_newline(s: Seq<char>) -> int
    decreases s.len(),
{
    if s.len() == 0 {
        0
    } else if s[0] == '\n' {
        0
    } else {
        1 + first_newline(s.subrange(1, s.len() as int))
    }
}

/// A line terminated by a newline loses one carriage return before it.
pub open spec fn strip_cr(l: Seq<char>) -> Seq<char> {
    if l.len() > 0 && l.last() == '\r' {
        l.drop_last()
    } else {
        l
    }
}

/// The lines of `s`: split at each newline, a carriage return before a
/// newline dropped, and a final newline producing no empty line.
pub open spec fn spec_lines(s: Seq<char>) -> Seq<Seq<char>>
    decreases s.len(),
{
    if s.len() == 0 {
        Seq::empty()
    } else {
        let i = first_newline_clamped(s);
        if i == s.len() {
            seq![s]
        } else {
            seq![strip_cr(s.subrange(0, i))] + spec_lines(s.subrange(i + 1, s.len() as int))
        }
    }
}

/// `first_newline`, bounded into `0 ..= s.len()` so that `spec_lines`
/// decreases.
pub open spec fn first_newline_clamped(s: Seq<char>) -> int {
    let i = first_newline(s);
    if 0 <= i <= s.len() {
        i
    } else {
        s.len() as int
    }
}

/// The lines of `s` that contain `q`, in order.
pub open spec fn matching_lines(s: Seq<char>, q: Seq<char>) -> Seq<Seq<char>> {
    spec_lines(s).filter(|l: Seq<char>| contains_seq(l, q))
}

/// The lines of `s` whose lowercase form contains the lowercase form of
/// `q`, in order.
pub open spec fn matching_lines_nocase(s: Seq<char>, q: Seq<char>) -> Seq<Seq<char>> {
    spec_lines(s).filter(|l: Seq<char>| contains_seq(lower_of(l), lower_of(q)))
}

/// The lowercase form of a character sequence, as `str::to_lowercase`
/// computes it.
pub uninterp spec fn lower_of(s: Seq<char>) -> Seq<char>;

/// Relies on `str::to_lowercase`: its result depends on the characters of
/// `s` alone, and `lower_of` names that result.
#[verifier::external_body]
fn to_lower(s: &str) -> (r: String)
    ensures
        r@ == lower_of(s@),
{
    s.to_lowercase()
}

/// `first_newline(s)` is the position of the first newline: no newline
/// stands before it, and it is `s.len()` exactly when `s` holds none.
proof fn lemma_first_newline_at(s: Seq<char>, m: int)
    requires
        0 <= m <= s.len(),
        forall|k: int| 0 <= k < m ==> s[k] != '\n',
        m < s.len() ==> s[m] == '\n',
    ensures
        first_newline(s) == m,
    decreases m,
{
    if s.len() == 0 {
    } else if s[0] == '\n' {
        assert(m == 0);
    } else {
        let t = s.subrange(1, s.len() as int);
        assert(m >= 1);
        assert forall|k: int| 0 <= k < m - 1 implies t[k] != '\n' by {
            assert(t[k] == s[k + 1]);
        }
        assert(m - 1 < t.len() ==> t[m - 1] == s[m]);
        lemma_first_newline_at(t, m - 1);
    }
}

/// Whether `needle` occurs in `hay`, scanning every start position.
pub fn str_contains(hay: &str, needle: &str) -> (r: bool)
    ensures
        r == contains_seq(hay@, needle@),
{
    let n = hay.unicode_len();
    let m = needle.unicode_len();
    if m > n {
        proof {
            assert forall|i: int| !contains_at(hay@, needle@, i) by {}
        }
        return false;
    }
    if m == 0 {
        proof {
            assert(hay@.subrange(0, 0) =~= needle@);
            assert(contains_at(hay@, needle@, 0));
        }
        return true;
    }
    let mut i: usize = 0;
    while i <= n - m
        invariant
            n == hay@.len(),
            m == needle@.len(),
            m <= n,
            1 <= m,
            i <= n - m + 1,
            forall|p: int| 0 <= p < i ==> !contains_at(hay@, needle@, p),
        decreases n - i,
    {
        let mut j: usize = 0;
        let mut hit = true;
        while j < m && hit
            invariant
                n == hay@.len(),
                m == needle@.len(),
                m <= n,
                i <= n - m,
                j <= m,
                hit ==> forall|q: int| 0 <= q < j ==> hay@[i + q] == needle@[q],
                !hit ==> !contains_at(hay@, needle@, i as int),
            decreases m - j + (if hit {
                1int
            } else {
                0int
            }),
        {
            if hay.get_char(i + j) != needle.get_char(j) {
                hit = false;
                proof {
                    assert(hay@.subrange(i as int, i + m) != needle@) by {
                        assert(hay@.subrange(i as int, i + m)[j as int] == hay@[i + j]);
                    }
                }
            } else {
                j = j + 1;
            }
        }
        if hit {
            proof {
                assert(hay@.subrange(i as int, i + m) =~= needle@);
                assert(contains_at(hay@, needle@, i as int));
            }
            return true;
        }
        i = i + 1;
    }
    proof {
        assert forall|p: int| !contains_at(hay@, needle@, p) by {
            if 0 <= p && p + needle@.len() <= hay@.len() {
                assert(p < i);
            }
        }
    }
    false
}

/// The position of the first newline of `s` at or after `from`.
fn find_newline(s: &str, from: usize, n: usize) -> (j: usize)
    requires
        n == s@.len(),
        from <= n,
    ensures
        from <= j <= n,
        forall|k: int| from <= k < j ==> s@[k] != '\n',
        j < n ==> s@[j as int] == '\n',
{
    let mut j = from;
    while j < n
        invariant
            n == s@.len(),
            from <= j <= n,
            forall|k: int| from <= k < j ==> s@[k] != '\n',
        decreases n - j,
    {
        if s.get_char(j) == '\n' {
            return j;
        }
        j = j + 1;
    }
    j
}

/// Splitting at the first newline of a nonempty suffix peels off one line.
proof fn lemma_lines_step(s: Seq<char>, start: int, j: int)
    requires
        0 <= start <= j <= s.len(),
        start < s.len(),
        forall|k: int| start <= k < j ==> s[k] != '\n',
        j < s.len() ==> s[j] == '\n',
    ensures
        j == s.len() ==> spec_lines(s.subrange(start, s.len() as int)) == seq![
            s.subrange(start, s.len() as int),
        ],
        j < s.len() ==> spec_lines(s.subrange(start, s.len() as int)) == seq![
            strip_cr(s.subrange(start, j)),
        ] + spec_lines(s.subrange(j + 1, s.len() as int)),
{
    let t = s.subrange(start, s.len() as int);
    assert forall|k: int| 0 <= k < j - start implies t[k] != '\n' by {
        assert(t[k] == s[k + start]);
    }
    assert(j - start < t.len() ==> t[j - start] == s[j]);
    lemma_first_newline_at(t, j - start);
    if j < s.len() {
        assert(t.subrange(0, j - start) =~= s.subrange(start, j));
        assert(t.subrange(j - start + 1, t.len() as int) =~= s.subrange(j + 1, s.len() as int));
    }
}

/// Appending one line keeps the filtered view of the result in step.
proof fn lemma_collect_push(done: Seq<Seq<char>>, l: Seq<char>, p: spec_fn(Seq<char>) -> bool)
    ensures
        p(l) ==> done.push(l).filter(p) == done.filter(p).push(l),
        !p(l) ==> done.push(l).filter(p) == done.filter(p),
{
    reveal(Seq::filter);
    assert(done.push(l).drop_last() =~= done);
}

/// Searches `contents` line by line for lines that contain `query`.
pub fn search<'a>(query: &str, contents: &'a str) -> (r: Vec<&'a str>)
    ensures
        r.deep_view() == matching_lines(contents@, query@),
{
    let ghost p = |l: Seq<char>| contains_seq(l, query@);
    let n = contents.unicode_len();
    let mut r: Vec<&'a str> = Vec::new();
    let mut start: usize = 0;
    let ghost mut done: Seq<Seq<char>> = Seq::empty();
    proof {
        reveal(Seq::filter);
        assert(r.deep_view() =~= done.filter(p));
        assert(contents@.subrange(0, n as int) =~= contents@);
        assert(done + spec_lines(contents@.subrange(0, n as int)) =~= spec_lines(contents@));
    }
    while start < n
        invariant
            n == contents@.len(),
            start <= n,
            spec_lines(contents@) == done + spec_lines(contents@.subrange(start as int, n as int)),
            r.deep_view() == done.filter(p),
            p == (|l: Seq<char>| contains_seq(l, query@)),
        decreases n - start,
    {
        let j = find_newline(contents, start, n);
        proof {
            lemma_lines_step(contents@, start as int, j as int);
        }
        let line_end = if j < n && j > start && contents.get_char(j - 1) == '\r' {
            j - 1
        } else {
            j
        };
        let line = contents.substring_char(start, line_end);
        proof {
            if j < n {
                if line_end < j {
                    assert(contents@.subrange(start as int, j as int).last() == '\r');
                    assert(contents@.subrange(start as int, j as int).drop_last() =~= contents@
                        .subrange(start as int, line_end as int));
                } else {
                    assert(strip_cr(contents@.subrange(start as int, j as int)) == contents@
                        .subrange(start as int, j as int));
                }
                assert(line@ == strip_cr(contents@.subrange(start as int, j as int)));
            } else {
                assert(line@ == contents@.subrange(start as int, n as int));
            }
        }
        let ghost done_pre = done;
        let ghost r_pre = r.deep_view();
        if str_contains(line, query) {
            r.push(line);
            proof {
                assert(r.deep_view() =~= r_pre.push(line@));
            }
        }
        proof {
            done = done.push(line@);
            lemma_collect_push(done_pre, line@, p);
            assert(done_pre + spec_lines(contents@.subrange(start as int, n as int)) =~= done
                + spec_lines(
                contents@.subrange(
                    if j < n {
                        j + 1
                    } else {
                        n as int
                    },
                    n as int,
                ),
            ));
            if j == n {
                assert(spec_lines(contents@.subrange(n as int, n as int)) =~= Seq::<
                    Seq<char>,
                >::empty());
            }
        }
        start = if j < n {
            j + 1
        } else {
            n
        };
    }
    proof {
        assert(spec_lines(contents@.subrange(n as int, n as int)) =~= Seq::<Seq<char>>::empty());
        assert(done + spec_lines(contents@.subrange(start as int, n as int)) =~= done);
        assert(r.deep_view() == matching_lines(contents@, query@));
    }
    r
}

/// Searches `contents` line by line, comparing the lowercase form of each
/// line with the lowercase form of `query`.
pub fn search_case_insensitive<'a>(query: &str, contents: &'a str) -> (r: Vec<&'a str>)
    ensures
        r.deep_view() == matching_lines_nocase(contents@, query@),
{
    let ghost p = |l: Seq<char>| contains_seq(lower_of(l), lower_of(query@));
    let lowered_query = to_lower(query);
    let n = contents.unicode_len();
    let mut r: Vec<&'a str> = Vec::new();
    let mut start: usize = 0;
    let ghost mut done: Seq<Seq<char>> = Seq::empty();
    proof {
        reveal(Seq::filter);
        assert(r.deep_view() =~= done.filter(p));
        assert(contents@.subrange(0, n as int) =~= contents@);
        assert(done + spec_lines(contents@.subrange(0, n as int)) =~= spec_lines(contents@));
    }
    while start < n
        invariant
            n == contents@.len(),
            start <= n,
            spec_lines(contents@) == done + spec_lines(contents@.subrange(start as int, n as int)),
            r.deep_view() == done.filter(p),
            p == (|l: Seq<char>| contains_seq(lower_of(l), lower_of(query@))),
            lowered_query@ == lower_of(query@),
        decreases n - start,
    {
        let j = find_newline(contents, start, n);
        proof {
            lemma_lines_step(contents@, start as int, j as int);
        }
        let line_end = if j < n && j > start && contents.get_char(j - 1) == '\r' {
            j - 1
        } else {
            j
        };
        let line = contents.substring_char(start, line_end);
        proof {
            if j < n {
                if line_end < j {
                    assert(contents@.subrange(start as int, j as int).last() == '\r');
                    assert(contents@.subrange(start as int, j as int).drop_last() =~= contents@
                        .subrange(start as int, line_end as int));
                } else {
                    assert(strip_cr(contents@.subrange(start as int, j as int)) == contents@
                        .subrange(start as int, j as int));
                }
                assert(line@ == strip_cr(contents@.subrange(start as int, j as int)));
            } else {
                assert(line@ == contents@.subrange(start as int, n as int));
            }
        }
        let ghost done_pre = done;
        let ghost r_pre = r.deep_view();
        let lowered_line = to_lower(line);
        if str_contains(lowered_line.as_str(), lowered_query.as_str()) {
            r.push(line);
            proof {
                assert(r.deep_view() =~= r_pre.push(line@));
            }
        }
        proof {
            done = done.push(line@);
            lemma_collect_push(done_pre, line@, p);
            assert(done_pre + spec_lines(contents@.subrange(start as int, n as int)) =~= done
                + spec_lines(
                contents@.subrange(
                    if j < n {
                        j + 1
                    } else {
                        n as int
                    },
                    n as int,
                ),
            ));
            if j == n {
                assert(spec_lines(contents@.subrange(n as int, n as int)) =~= Seq::<
                    Seq<char>,
                >::empty());
            }
        }
        start = if j < n {
            j + 1
        } else {
            n
        };
    }
    proof {
        assert(spec_lines(contents@.subrange(n as int, n as int)) =~= Seq::<Seq<char>>::empty());
        assert(done + spec_lines(contents@.subrange(start as int, n as int)) =~= done);
        assert(r.deep_view() == matching_lines_nocase(contents@, query@));
    }
    r
}

/// The search configuration: what to look for, where, and how to compare.
pub struct Config {
    /// The string looked for.
    pub query: String,
    /// The path of the file searched.
    pub file_path: String,
    /// Whether lines are compared by their lowercase form.
    pub ignore_case: bool,
}

impl Config {
    /// Builds a configuration from the argument list: the first argument
    /// after the program name is the query, the second the file path.
    /// Fails exactly when fewer than two follow the program name.  Whether
    /// case is ignored comes from the caller, who reads it from the
    /// environment.
    pub fn build(args: &Vec<String>, ignore_case: bool) -> (r: Result<Config, &'static str>)
        ensures
            match r {
                Ok(c) => args@.len() >= 3 && c.query@ == args@[1]@ && c.file_path@ == args@[2]@
                    && c.ignore_case == ignore_case,
                Err(_) => args@.len() < 3,
            },
    {
        if args.len() < 3 {
            return Err("Not enough arguments");
        }
        let query = clone_string(&args[1]);
        let file_path = clone_string(&args[2]);
        Ok(Config { query, file_path, ignore_case })
    }
}

/// Copies a `String`.
fn clone_string(s: &String) -> (r: String)
    ensures
        r@ == s@,
{
    String::from_str(s.as_str())
}

} // verus!
