//! Header-block parsing shared by the text and binary frame shapes.
//!
//! A header block is a sequence of `Name:Value` lines separated by `"\r\n"`.
//! Empty lines are skipped; a line without a colon becomes a pair whose value
//! is empty.

use vstd::prelude::*;

verus! {

/// True when `pat` occurs in `s` starting at index `i`.
pub open spec fn occurs_at(s: Seq<char>, pat: Seq<char>, i: int) -> bool {
    &&& 0 <= i
    &&& i + pat.len() <= s.len()
    &&& s.subrange(i, i + pat.len() as int) == pat
}

/// Index of the leftmost occurrence of `pat` in `s` at or after `i`, if any.
pub open spec fn find_at(s: Seq<char>, pat: Seq<char>, i: int) -> Option<int>
    decreases s.len() + 1 - i,
{
    if i < 0 || i + pat.len() > s.len() {
        None
    } else if occurs_at(s, pat, i) {
        Some(i)
    } else {
        find_at(s, pat, i + 1)
    }
}

pub proof fn lemma_find_at_bounds(s: Seq<char>, pat: Seq<char>, i: int, j: int)
    requires
        find_at(s, pat, i) == Some(j),
    ensures
        i <= j,
        occurs_at(s, pat, j),
    decreases s.len() + 1 - i,
{
    if !(i < 0 || i + pat.len() > s.len()) && !occurs_at(s, pat, i) {
        lemma_find_at_bounds(s, pat, i + 1, j);
    }
}

pub proof fn lemma_find_at_is_first(s: Seq<char>, pat: Seq<char>, i: int, j: int)
    requires
        0 <= i <= j,
        occurs_at(s, pat, j),
        forall|k: int| i <= k < j ==> !occurs_at(s, pat, k),
    ensures
        find_at(s, pat, i) == Some(j),
    decreases j - i,
{
    if i < j {
        lemma_find_at_is_first(s, pat, i + 1, j);
    }
}

pub proof fn lemma_find_at_none(s: Seq<char>, pat: Seq<char>, i: int)
    requires
        0 <= i,
        forall|k: int| k >= i ==> !occurs_at(s, pat, k),
    ensures
        find_at(s, pat, i) is None,
    decreases s.len() + 1 - i,
{
    if !(i + pat.len() > s.len()) {
        lemma_find_at_none(s, pat, i + 1);
    }
}

/// Finds the leftmost occurrence of `pat` in `s`.
pub fn find_str(s: &str, pat: &str) -> (r: Option<usize>)
    ensures
        match r {
            Some(i) => find_at(s@, pat@, 0) == Some(i as int),
            None => find_at(s@, pat@, 0) is None,
        },
{
    let n = s.unicode_len();
    let m = pat.unicode_len();
    if m > n {
        proof {
            assert(forall|k: int| k >= 0 ==> !occurs_at(s@, pat@, k));
            lemma_find_at_none(s@, pat@, 0);
        }
        return None;
    }
    let mut i: usize = 0;
    while i <= n - m
        invariant
            m <= n,
            n == s@.len(),
            m == pat@.len(),
            i <= n - m + 1,
            forall|k: int| 0 <= k < i ==> !occurs_at(s@, pat@, k),
        decreases n - m + 1 - i,
    {
        let mut j: usize = 0;
        let mut matches = true;
        while j < m
            invariant
                m <= n,
                n == s@.len(),
                m == pat@.len(),
                i <= n - m,
                j <= m,
                matches <==> (forall|l: int| 0 <= l < j ==> s@[i + l] == pat@[l]),
            decreases m - j,
        {
            if s.get_char(i + j) != pat.get_char(j) {
                matches = false;
                j = m;
            } else {
                j = j + 1;
            }
        }
        if matches {
            proof {
                assert(s@.subrange(i as int, i + pat@.len() as int) =~= pat@);
                lemma_find_at_is_first(s@, pat@, 0, i as int);
            }
            return Some(i);
        }
        proof {
            assert(!occurs_at(s@, pat@, i as int)) by {
                if occurs_at(s@, pat@, i as int) {
                    assert(forall|l: int|
                        0 <= l < pat@.len() ==> #[trigger] s@.subrange(
                            i as int,
                            i + pat@.len() as int,
                        )[l] == s@[i + l]);
                }
            }
        }
        i = i + 1;
    }
    proof {
        assert(forall|k: int| k >= 0 ==> !occurs_at(s@, pat@, k)) by {
            assert(forall|k: int| k > n - m ==> !occurs_at(s@, pat@, k));
        }
        lemma_find_at_none(s@, pat@, 0);
    }
    None
}

/// The two-character line separator of the wire protocol.
pub open spec fn crlf() -> Seq<char> {
    seq!['\r', '\n']
}

/// The blank-line boundary between a header block and a body.
pub open spec fn crlf_crlf() -> Seq<char> {
    seq!['\r', '\n', '\r', '\n']
}

/// One header line: the name before the first `':'`, the value after it;
/// a line without a colon yields an empty value.
pub open spec fn parse_header_line(line: Seq<char>) -> (Seq<char>, Seq<char>) {
    match find_at(line, seq![':'], 0) {
        Some(j) => (line.subrange(0, j), line.subrange(j + 1, line.len() as int)),
        None => (line, Seq::empty()),
    }
}

/// The ordered name/value pairs of a header block, first-seen order kept.
pub open spec fn parse_headers_chars(s: Seq<char>) -> Seq<(Seq<char>, Seq<char>)>
    decreases s.len(),
    via parse_headers_chars_decreases
{
    if s.len() == 0 {
        Seq::empty()
    } else {
        match find_at(s, crlf(), 0) {
            Some(j) => {
                let line = s.subrange(0, j);
                let rest = parse_headers_chars(s.subrange(j + 2, s.len() as int));
                if line.len() == 0 {
                    rest
                } else {
                    seq![parse_header_line(line)] + rest
                }
            },
            None => seq![parse_header_line(s)],
        }
    }
}

#[via_fn]
proof fn parse_headers_chars_decreases(s: Seq<char>) {
    if s.len() != 0 {
        match find_at(s, crlf(), 0) {
            Some(j) => {
                lemma_find_at_bounds(s, crlf(), 0, j);
            },
            None => {},
        }
    }
}

/// The view of a parsed header list as pairs of character sequences.
pub open spec fn headers_view(hs: Seq<(String, String)>) -> Seq<(Seq<char>, Seq<char>)> {
    Seq::new(hs.len(), |i: int| (hs[i].0@, hs[i].1@))
}

/// Parses a header block into its name/value pairs, in first-seen order.
pub fn parse_headers(s: &str) -> (r: Vec<(String, String)>)
    ensures
        headers_view(r@) == parse_headers_chars(s@),
{
    let mut acc: Vec<(String, String)> = Vec::new();
    let mut rest: &str = s;
    proof {
        reveal_strlit("\r\n");
        reveal_strlit(":");
        assert(headers_view(acc@) =~= Seq::<(Seq<char>, Seq<char>)>::empty());
    }
    loop
        invariant
            headers_view(acc@) + parse_headers_chars(rest@) =~= parse_headers_chars(s@),
            "\r\n"@ =~= crlf(),
            ":"@ =~= seq![':'],
        ensures
            headers_view(acc@) =~= parse_headers_chars(s@),
        decreases rest@.len(),
    {
        let n = rest.unicode_len();
        if n == 0 {
            proof {
                assert(parse_headers_chars(rest@) =~= Seq::<(Seq<char>, Seq<char>)>::empty());
                assert(headers_view(acc@) =~= parse_headers_chars(s@));
            }
            break;
        }
        match find_str(rest, "\r\n") {
            Some(j) => {
                proof {
                    lemma_find_at_bounds(rest@, crlf(), 0, j as int);
                }
                let line: &str = rest.substring_char(0, j);
                if j > 0 {
                    let pair = parse_line(line);
                    let ghost prev = acc@;
                    acc.push(pair);
                    proof {
                        assert(headers_view(acc@) =~= headers_view(prev) + seq![
                            parse_header_line(line@),
                        ]);
                    }
                }
                let next: &str = rest.substring_char(j + 2, n);
                proof {
                    assert(parse_headers_chars(rest@) == (if j == 0 {
                        parse_headers_chars(next@)
                    } else {
                        seq![parse_header_line(line@)] + parse_headers_chars(next@)
                    }));
                }
                rest = next;
            },
            None => {
                let pair = parse_line(rest);
                let ghost prev = acc@;
                acc.push(pair);
                proof {
                    assert(headers_view(acc@) =~= headers_view(prev) + seq![
                        parse_header_line(rest@),
                    ]);
                }
                rest = rest.substring_char(n, n);
                proof {
                    assert(rest@ =~= Seq::<char>::empty());
                    assert(parse_headers_chars(rest@) =~= Seq::<(Seq<char>, Seq<char>)>::empty());
                    assert(headers_view(acc@) + parse_headers_chars(rest@) =~= parse_headers_chars(
                        s@,
                    ));
                    assert(headers_view(acc@) =~= parse_headers_chars(s@));
                }
                break;
            },
        }
    }
    acc
}

/// Splits one header line at its first colon.
fn parse_line(line: &str) -> (r: (String, String))
    ensures
        (r.0@, r.1@) == parse_header_line(line@),
{
    proof {
        reveal_strlit(":");
        assert(":"@ =~= seq![':']);
    }
    let n = line.unicode_len();
    match find_str(line, ":") {
        Some(j) => {
            proof {
                lemma_find_at_bounds(line@, seq![':'], 0, j as int);
            }
            let k = line.substring_char(0, j).to_owned();
            let v = line.substring_char(j + 1, n).to_owned();
            (k, v)
        },
        None => {
            let k = line.to_owned();
            let v = String::new();
            proof {
                assert(v@ =~= Seq::<char>::empty());
            }
            (k, v)
        },
    }
}

/// True when the list holds a pair whose name is `k` and whose value is `v`.
pub open spec fn has_header(hs: Seq<(Seq<char>, Seq<char>)>, k: Seq<char>, v: Seq<char>) -> bool {
    exists|i: int| 0 <= i < hs.len() && hs[i].0 == k && hs[i].1 == v
}

/// Compares two string slices character by character.
pub fn str_eq(a: &str, b: &str) -> (r: bool)
    ensures
        r == (a@ == b@),
{
    let n = a.unicode_len();
    if n != b.unicode_len() {
        return false;
    }
    let mut i: usize = 0;
    while i < n
        invariant
            n == a@.len(),
            n == b@.len(),
            i <= n,
            forall|j: int| 0 <= j < i ==> a@[j] == b@[j],
        decreases n - i,
    {
        if a.get_char(i) != b.get_char(i) {
            return false;
        }
        i = i + 1;
    }
    proof {
        assert(a@ =~= b@);
    }
    true
}

/// Looks for a `k: v` pair among parsed headers.
pub fn headers_contain(hs: &Vec<(String, String)>, k: &str, v: &str) -> (r: bool)
    ensures
        r == has_header(headers_view(hs@), k@, v@),
{
    let n = hs.len();
    let mut i: usize = 0;
    while i < n
        invariant
            n == hs@.len(),
            i <= n,
            forall|j: int| 0 <= j < i ==> !(hs@[j].0@ == k@ && hs@[j].1@ == v@),
        decreases n - i,
    {
        let pair = &hs[i];
        if str_eq(pair.0.as_str(), k) && str_eq(pair.1.as_str(), v) {
            proof {
                assert(headers_view(hs@)[i as int].0 == k@ && headers_view(hs@)[i as int].1 == v@);
            }
            return true;
        }
        i = i + 1;
    }
    proof {
        assert(forall|j: int| 0 <= j < hs@.len() ==> headers_view(hs@)[j] == (hs@[j].0@, hs@[j].1@));
    }
    false
}

} // verus!
