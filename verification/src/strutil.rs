//! Verified string utilities: trimming, searching, splitting, replacing
//! and joining over `Seq<char>` views, with executable counterparts.

use vstd::prelude::*;
use vstd::string::StrSliceExecFns;
use vstd::string::StringExecFns;

verus! {

/// The whitespace characters recognized by trimming (the ASCII ones).
pub open spec fn is_space(c: char) -> bool {
    c == ' ' || c == '\t' || c == '\n' || c == '\r' || c == '\u{b}' || c == '\u{c}'
}

/// Executable test for `is_space`.
pub fn space_char(c: char) -> (r: bool)
    ensures
        r == is_space(c),
{
    c == ' ' || c == '\t' || c == '\n' || c == '\r' || c == '\u{b}' || c == '\u{c}'
}

/// `s` without its leading whitespace.
pub open spec fn spec_trim_start(s: Seq<char>) -> Seq<char>
    decreases s.len(),
{
    if s.len() > 0 && is_space(s[0]) {
        spec_trim_start(s.subrange(1, s.len() as int))
    } else {
        s
    }
}

/// `s` without its trailing whitespace.
pub open spec fn spec_trim_end(s: Seq<char>) -> Seq<char>
    decreases s.len(),
{
    if s.len() > 0 && is_space(s[s.len() - 1]) {
        spec_trim_end(s.subrange(0, s.len() - 1))
    } else {
        s
    }
}

/// `s` without leading and trailing whitespace.
pub open spec fn spec_trim(s: Seq<char>) -> Seq<char> {
    spec_trim_end(spec_trim_start(s))
}

/// Strip leading whitespace.
pub fn trim_start(s: &str) -> (r: String)
    ensures
        r@ == spec_trim_start(s@),
    decreases s@.len(),
{
    let n = s.unicode_len();
    if n > 0 && space_char(s.get_char(0)) {
        trim_start(s.substring_char(1, n))
    } else {
        String::from_str(s)
    }
}

/// Strip trailing whitespace.
pub fn trim_end(s: &str) -> (r: String)
    ensures
        r@ == spec_trim_end(s@),
    decreases s@.len(),
{
    let n = s.unicode_len();
    if n > 0 && space_char(s.get_char(n - 1)) {
        trim_end(s.substring_char(0, n - 1))
    } else {
        String::from_str(s)
    }
}

/// Strip leading and trailing whitespace.
pub fn trim(s: &str) -> (r: String)
    ensures
        r@ == spec_trim(s@),
{
    let t = trim_start(s);
    trim_end(t.as_str())
}

/// The views of a sequence of strings.
pub open spec fn string_views(items: Seq<String>) -> Seq<Seq<char>> {
    items.map_values(|p: String| p@)
}

/// Whether `pat` occurs in `s` starting at index `i`.
pub open spec fn occurs_at(s: Seq<char>, pat: Seq<char>, i: int) -> bool {
    0 <= i && i + pat.len() <= s.len() && s.subrange(i, i + pat.len() as int) == pat
}

/// Index of the first occurrence of `pat` in `s`, or -1 when there is none.
pub open spec fn spec_find(s: Seq<char>, pat: Seq<char>) -> int
    decreases s.len(),
{
    if pat.len() == 0 {
        0
    } else if s.len() < pat.len() {
        -1
    } else if s.subrange(0, pat.len() as int) == pat {
        0
    } else {
        let r = spec_find(s.subrange(1, s.len() as int), pat);
        if r == -1 {
            -1
        } else {
            r + 1
        }
    }
}

/// In a sequence that does not contain `c`, no position holds `c`.
pub proof fn lemma_not_contains_at(s: Seq<char>, c: char, j: int)
    requires
        !s.contains(c),
        0 <= j < s.len(),
    ensures
        s[j] != c,
{
    if s[j] == c {
        assert(s.contains(c));
    }
}

/// A concatenation holds a character only where one of its parts does.
pub proof fn lemma_concat_not_contains(a: Seq<char>, b: Seq<char>, c: char)
    requires
        !a.contains(c),
        !b.contains(c),
    ensures
        !(a + b).contains(c),
{
    if (a + b).contains(c) {
        let k = choose|k: int| 0 <= k < (a + b).len() && (a + b)[k] == c;
        if k < a.len() {
            assert(a[k] == c);
        } else {
            assert(b[k - a.len()] == c);
        }
    }
}

/// A subrange holds no character that the whole sequence lacks.
pub proof fn lemma_subrange_not_contains(s: Seq<char>, c: char, i: int, j: int)
    requires
        !s.contains(c),
        0 <= i <= j <= s.len(),
    ensures
        !s.subrange(i, j).contains(c),
{
    if s.subrange(i, j).contains(c) {
        let k = choose|k: int| 0 <= k < j - i && s.subrange(i, j)[k] == c;
        assert(s[i + k] == c);
    }
}

/// Trimming keeps no character that the input lacks.
pub proof fn lemma_trim_start_not_contains(s: Seq<char>, c: char)
    requires
        !s.contains(c),
    ensures
        !spec_trim_start(s).contains(c),
    decreases s.len(),
{
    if s.len() > 0 && is_space(s[0]) {
        lemma_subrange_not_contains(s, c, 1, s.len() as int);
        lemma_trim_start_not_contains(s.subrange(1, s.len() as int), c);
    }
}

/// Replacement introduces no character that neither the input nor the
/// replacement text holds.
pub proof fn lemma_replace_not_contains(s: Seq<char>, pat: Seq<char>, repl: Seq<char>, c: char)
    requires
        !s.contains(c),
        !repl.contains(c),
    ensures
        !spec_replace(s, pat, repl).contains(c),
    decreases s.len(),
{
    let f = spec_find(s, pat);
    if pat.len() == 0 || f < 0 || f + pat.len() > s.len() {
    } else {
        lemma_subrange_not_contains(s, c, 0, f);
        lemma_subrange_not_contains(s, c, f + pat.len() as int, s.len() as int);
        lemma_replace_not_contains(s.subrange(f + pat.len(), s.len() as int), pat, repl, c);
        lemma_concat_not_contains(s.subrange(0, f), repl, c);
        lemma_concat_not_contains(
            s.subrange(0, f) + repl,
            spec_replace(s.subrange(f + pat.len(), s.len() as int), pat, repl),
            c,
        );
    }
}

/// `spec_find` returns the first occurrence: a hit is an occurrence with
/// none before it, and -1 means no occurrence at all.
pub proof fn lemma_find_first(s: Seq<char>, pat: Seq<char>)
    requires
        pat.len() >= 1,
    ensures
        spec_find(s, pat) >= -1,
        spec_find(s, pat) == -1 ==> forall|i: int| !occurs_at(s, pat, i),
        spec_find(s, pat) >= 0 ==> occurs_at(s, pat, spec_find(s, pat)),
        spec_find(s, pat) >= 0 ==> forall|i: int|
            0 <= i < spec_find(s, pat) ==> !occurs_at(s, pat, i),
    decreases s.len(),
{
    let f = spec_find(s, pat);
    if s.len() < pat.len() {
        assert forall|i: int| !occurs_at(s, pat, i) by {}
    } else if s.subrange(0, pat.len() as int) == pat {
    } else {
        let tail = s.subrange(1, s.len() as int);
        lemma_find_first(tail, pat);
        assert forall|i: int| 1 <= i && i + pat.len() <= s.len() implies (occurs_at(s, pat, i)
            <==> occurs_at(tail, pat, i - 1)) by {
            assert(s.subrange(i, i + pat.len() as int) =~= tail.subrange(
                i - 1,
                i - 1 + pat.len() as int,
            ));
        }
        assert(!occurs_at(s, pat, 0));
        if f == -1 {
            assert forall|i: int| !occurs_at(s, pat, i) by {
                if 1 <= i && i + pat.len() <= s.len() {
                    assert(!occurs_at(tail, pat, i - 1));
                }
            }
        }
    }
}

/// Whether `s` begins with `pat`.
pub fn starts_with(s: &str, pat: &str) -> (r: bool)
    ensures
        r == (s@.len() >= pat@.len() && s@.subrange(0, pat@.len() as int) == pat@),
{
    let n = s.unicode_len();
    let m = pat.unicode_len();
    if n < m {
        false
    } else {
        let head = String::from_str(s.substring_char(0, m));
        let p = String::from_str(pat);
        let r = head == p;
        proof {
            if head@ == p@ {
                assert(s@.subrange(0, pat@.len() as int) == pat@);
            }
        }
        r
    }
}

/// Find the first occurrence of `pat` in `s`.
pub fn find(s: &str, pat: &str) -> (r: Option<usize>)
    requires
        pat@.len() >= 1,
    ensures
        match r {
            Some(i) => i == spec_find(s@, pat@) && occurs_at(s@, pat@, i as int),
            None => spec_find(s@, pat@) == -1,
        },
    decreases s@.len(),
{
    let n = s.unicode_len();
    let m = pat.unicode_len();
    if n < m {
        None
    } else if starts_with(s, pat) {
        proof {
            lemma_find_first(s@, pat@);
        }
        Some(0)
    } else {
        let tail = s.substring_char(1, n);
        match find(tail, pat) {
            Some(i) => {
                proof {
                    lemma_find_first(s@, pat@);
                    lemma_find_first(tail@, pat@);
                    assert(s@.subrange(1, s@.len() as int) == tail@);
                }
                Some(i + 1)
            },
            None => None,
        }
    }
}

/// `s` with every (non-overlapping, leftmost-first) occurrence of `pat`
/// replaced by `repl`.
pub open spec fn spec_replace(s: Seq<char>, pat: Seq<char>, repl: Seq<char>) -> Seq<char>
    recommends
        pat.len() >= 1,
    decreases s.len(),
{
    let f = spec_find(s, pat);
    if pat.len() == 0 || f < 0 || f + pat.len() > s.len() {
        s
    } else {
        s.subrange(0, f) + repl + spec_replace(
            s.subrange(f + pat.len(), s.len() as int),
            pat,
            repl,
        )
    }
}

/// Replace every occurrence of `pat` in `s` by `repl`.
pub fn replace(s: &str, pat: &str, repl: &str) -> (r: String)
    requires
        pat@.len() >= 1,
    ensures
        r@ == spec_replace(s@, pat@, repl@),
    decreases s@.len(),
{
    match find(s, pat) {
        None => String::from_str(s),
        Some(i) => {
            let n = s.unicode_len();
            let m = pat.unicode_len();
            let mut out = String::from_str(s.substring_char(0, i));
            out.append(repl);
            let rest = replace(s.substring_char(i + m, n), pat, repl);
            out.append(rest.as_str());
            proof {
                assert(out@ =~= spec_replace(s@, pat@, repl@));
            }
            out
        },
    }
}

/// The pieces of `s` between occurrences of the separator character.
pub open spec fn spec_split(s: Seq<char>, sep: char) -> Seq<Seq<char>>
    decreases s.len(),
{
    let f = spec_find(s, seq![sep]);
    if f < 0 || f + 1 > s.len() {
        seq![s]
    } else {
        seq![s.subrange(0, f)] + spec_split(s.subrange(f + 1, s.len() as int), sep)
    }
}

/// Splitting yields at least one piece, and no piece contains the separator.
pub proof fn lemma_split_pieces(s: Seq<char>, sep: char)
    ensures
        spec_split(s, sep).len() >= 1,
        forall|i: int|
            0 <= i < spec_split(s, sep).len() ==> !#[trigger] spec_split(s, sep)[i].contains(sep),
    decreases s.len(),
{
    let pat = seq![sep];
    let f = spec_find(s, pat);
    lemma_find_first(s, pat);
    if f < 0 {
        assert forall|j: int| 0 <= j < s.len() implies s[j] != sep by {
            if s[j] == sep {
                assert(s.subrange(j, j + 1) =~= pat);
                assert(occurs_at(s, pat, j));
            }
        }
        assert(!s.contains(sep));
    } else {
        assert(occurs_at(s, pat, f));
        let head = s.subrange(0, f);
        assert forall|j: int| 0 <= j < head.len() implies head[j] != sep by {
            if head[j] == sep {
                assert(s.subrange(j, j + 1) =~= pat);
                assert(occurs_at(s, pat, j));
            }
        }
        assert(!head.contains(sep));
        lemma_split_pieces(s.subrange(f + 1, s.len() as int), sep);
    }
}

/// Split `s` on a separator character, like the split of the standard
/// library: the result always has at least one piece.
pub fn split_char(s: &str, sep: char, sep_str: &str) -> (r: Vec<String>)
    requires
        sep_str@ == seq![sep],
    ensures
        r@.map_values(|p: String| p@) == spec_split(s@, sep),
    decreases s@.len(),
{
    match find(s, sep_str) {
        None => {
            let mut out: Vec<String> = Vec::new();
            out.push(String::from_str(s));
            proof {
                assert(out@.map_values(|p: String| p@) =~= spec_split(s@, sep));
            }
            out
        },
        Some(i) => {
            let n = s.unicode_len();
            let head = String::from_str(s.substring_char(0, i));
            let rest = split_char(s.substring_char(i + 1, n), sep, sep_str);
            let mut out: Vec<String> = Vec::new();
            out.push(head);
            let mut k: usize = 0;
            while k < rest.len()
                invariant
                    0 <= k <= rest.len(),
                    out@.len() == 1 + k,
                    out@[0]@ == s@.subrange(0, i as int),
                    forall|j: int| 0 <= j < k ==> out@[j + 1]@ == #[trigger] rest@[j]@,
                decreases rest.len() - k,
            {
                let piece = rest[k].clone();
                out.push(piece);
                k = k + 1;
            }
            proof {
                let views = out@.map_values(|p: String| p@);
                let restviews = rest@.map_values(|p: String| p@);
                assert forall|j: int| 0 <= j < restviews.len() implies views[j + 1]
                    == restviews[j] by {}
                assert(out@.map_values(|p: String| p@) =~= spec_split(s@, sep));
            }
            out
        },
    }
}

/// The pieces joined with the separator character between them.
pub open spec fn spec_join(pieces: Seq<Seq<char>>, sep: char) -> Seq<char>
    decreases pieces.len(),
{
    if pieces.len() == 0 {
        Seq::empty()
    } else if pieces.len() == 1 {
        pieces[0]
    } else {
        pieces[0] + seq![sep] + spec_join(pieces.subrange(1, pieces.len() as int), sep)
    }
}

/// Join the pieces with the separator between them.
pub fn join(pieces: &Vec<String>, sep_str: &str, sep: char) -> (r: String)
    requires
        sep_str@ == seq![sep],
    ensures
        r@ == spec_join(pieces@.map_values(|p: String| p@), sep),
    decreases pieces@.len(),
{
    let ghost views = pieces@.map_values(|p: String| p@);
    if pieces.len() == 0 {
        let out = String::new();
        proof {
            assert(out@ =~= spec_join(views, sep));
        }
        out
    } else if pieces.len() == 1 {
        pieces[0].clone()
    } else {
        let mut out = pieces[0].clone();
        out.append(sep_str);
        let mut tail: Vec<String> = Vec::new();
        let mut k: usize = 1;
        while k < pieces.len()
            invariant
                1 <= k <= pieces@.len(),
                tail@.len() == k - 1,
                forall|j: int| 0 <= j < k - 1 ==> tail@[j]@ == #[trigger] pieces@[j + 1]@,
            decreases pieces@.len() - k,
        {
            let piece = pieces[k].clone();
            tail.push(piece);
            k = k + 1;
        }
        let joined_tail = join(&tail, sep_str, sep);
        out.append(joined_tail.as_str());
        proof {
            let tailviews = tail@.map_values(|p: String| p@);
            assert(tailviews =~= views.subrange(1, views.len() as int));
            assert(out@ =~= spec_join(views, sep));
        }
        out
    }
}

/// Splitting a join recovers the pieces, provided no piece contains the
/// separator.
pub proof fn lemma_split_join(pieces: Seq<Seq<char>>, sep: char)
    requires
        pieces.len() >= 1,
        forall|i: int| 0 <= i < pieces.len() ==> !#[trigger] pieces[i].contains(sep),
    ensures
        spec_split(spec_join(pieces, sep), sep) == pieces,
    decreases pieces.len(),
{
    let joined = spec_join(pieces, sep);
    let pat = seq![sep];
    lemma_find_first(joined, pat);
    if pieces.len() == 1 {
        assert(joined == pieces[0]);
        assert forall|j: int| !occurs_at(joined, pat, j) by {
            if 0 <= j && j + 1 <= joined.len() {
                lemma_not_contains_at(pieces[0], sep, j);
                if occurs_at(joined, pat, j) {
                    assert(joined.subrange(j, j + 1)[0] == joined[j]);
                    assert(pat[0] == sep);
                    assert(joined[j] == sep);
                }
            }
        }
        assert(spec_find(joined, pat) == -1) by {
            if spec_find(joined, pat) >= 0 {
                assert(occurs_at(joined, pat, spec_find(joined, pat)));
            }
        }
        assert(spec_split(joined, sep) =~= pieces);
    } else {
        let head = pieces[0];
        let tail = pieces.subrange(1, pieces.len() as int);
        let rest = spec_join(tail, sep);
        assert(joined == head + pat + rest);
        let h = head.len() as int;
        assert(occurs_at(joined, pat, h)) by {
            assert(joined.subrange(h, h + 1) =~= pat);
        }
        assert forall|j: int| 0 <= j < h implies !occurs_at(joined, pat, j) by {
            lemma_not_contains_at(head, sep, j);
            if occurs_at(joined, pat, j) {
                assert(joined.subrange(j, j + 1)[0] == joined[j]);
                assert(pat[0] == sep);
                assert(joined[j] == head[j]);
                assert(head[j] == sep);
            }
        }
        let f = spec_find(joined, pat);
        assert(f == h) by {
            if f == -1 {
                assert(!occurs_at(joined, pat, h));
            } else if f < h {
                assert(occurs_at(joined, pat, f));
            } else if f > h {
                assert(!occurs_at(joined, pat, h));
            }
        }
        assert(joined.subrange(0, h) =~= head);
        assert(joined.subrange(h + 1, joined.len() as int) =~= rest);
        lemma_split_join(tail, sep);
        assert(spec_split(joined, sep) =~= pieces);
    }
}

} // verus!
