//! Character-level string helpers, each stated over the `Seq<char>` view.
//!
//! Strings are read into a `Vec<char>` once and cut back out of the input
//! `&str` with `substring_char`, so every result is an exact subsequence of
//! its input or a concatenation of such pieces and literals.

use vstd::prelude::*;

verus! {

broadcast use vstd::string::group_string_axioms;

// ------------------------------------------------------------ reading --

/// The characters of `s`, in order.
pub fn chars_of(s: &str) -> (v: Vec<char>)
    ensures
        v@ == s@,
{
    let mut v: Vec<char> = Vec::new();
    for c in it: s.chars()
        invariant
            v@ == it.seq().take(it.index()),
            it.seq() == s@,
    {
        v.push(c);
    }
    assert(v@ =~= s@);
    v
}

/// An owned copy of the characters `lo..hi` of `s`.
pub fn slice_string(s: &str, lo: usize, hi: usize) -> (res: String)
    requires
        lo <= hi <= s@.len(),
    ensures
        res@ == s@.subrange(lo as int, hi as int),
{
    String::from_str(s.substring_char(lo, hi))
}

/// Whether two strings hold the same characters.
pub fn str_eq(a: &str, b: &str) -> (res: bool)
    ensures
        res == (a@ == b@),
{
    let x = chars_of(a);
    let y = chars_of(b);
    if x.len() != y.len() {
        return false;
    }
    let mut i: usize = 0;
    while i < x.len()
        invariant
            x@ == a@,
            y@ == b@,
            x.len() == y.len(),
            i <= x.len(),
            forall|j: int| 0 <= j < i ==> x@[j] == y@[j],
        decreases x.len() - i,
    {
        if x[i] != y[i] {
            return false;
        }
        i += 1;
    }
    assert(x@ =~= y@);
    true
}

/// Whether `v` holds `p` at position `at`.
pub fn occurs_at(v: &Vec<char>, at: usize, p: &Vec<char>) -> (res: bool)
    requires
        at <= v.len(),
    ensures
        res == (at + p.len() <= v.len() && v@.subrange(at as int, at + p.len()) == p@),
{
    if p.len() > v.len() - at {
        return false;
    }
    let mut i: usize = 0;
    while i < p.len()
        invariant
            at + p.len() <= v.len(),
            i <= p.len(),
            forall|j: int| 0 <= j < i ==> v@[at + j] == p@[j],
        decreases p.len() - i,
    {
        if v[at + i] != p[i] {
            assert(v@.subrange(at as int, at + p.len())[i as int] != p@[i as int]);
            return false;
        }
        i += 1;
    }
    assert(v@.subrange(at as int, at + p.len()) =~= p@);
    true
}

/// Whether `s` begins with `p`.
pub open spec fn begins_with(s: Seq<char>, p: Seq<char>) -> bool {
    p.len() <= s.len() && s.take(p.len() as int) == p
}

/// Whether `s` begins with `p`.
pub fn starts_with(s: &str, p: &str) -> (res: bool)
    ensures
        res == begins_with(s@, p@),
{
    let v = chars_of(s);
    let w = chars_of(p);
    let r = occurs_at(&v, 0, &w);
    proof {
        if w.len() <= v.len() {
            assert(v@.subrange(0, w@.len() as int) =~= v@.take(w@.len() as int));
        }
    }
    r
}

// ------------------------------------------------------------ trimming --

/// Which characters a trim removes.
pub enum CharClass {
    /// Unicode `White_Space`, as `char::is_whitespace` and `str::trim` use it.
    WhiteSpace,
    /// This one character.
    Only(char),
}

/// Unicode's `White_Space` property.
pub open spec fn is_white_space(c: char) -> bool {
    let u = c as u32;
    ||| 0x09 <= u <= 0x0D
    ||| u == 0x20
    ||| u == 0x85
    ||| u == 0xA0
    ||| u == 0x1680
    ||| 0x2000 <= u <= 0x200A
    ||| u == 0x2028
    ||| u == 0x2029
    ||| u == 0x202F
    ||| u == 0x205F
    ||| u == 0x3000
}

pub open spec fn in_class(k: CharClass, c: char) -> bool {
    match k {
        CharClass::WhiteSpace => is_white_space(c),
        CharClass::Only(x) => c == x,
    }
}

/// `s` without the characters of class `k` at its front.
pub open spec fn drop_front(s: Seq<char>, k: CharClass) -> Seq<char>
    decreases s.len(),
{
    if s.len() > 0 && in_class(k, s[0]) {
        drop_front(s.drop_first(), k)
    } else {
        s
    }
}

/// `s` without the characters of class `k` at its back.
pub open spec fn drop_back(s: Seq<char>, k: CharClass) -> Seq<char>
    decreases s.len(),
{
    if s.len() > 0 && in_class(k, s.last()) {
        drop_back(s.drop_last(), k)
    } else {
        s
    }
}

/// `s` without the characters of class `k` at either end.
pub open spec fn trim_class(s: Seq<char>, k: CharClass) -> Seq<char> {
    drop_back(drop_front(s, k), k)
}

/// `str::trim`.
pub open spec fn trimmed(s: Seq<char>) -> Seq<char> {
    trim_class(s, CharClass::WhiteSpace)
}

pub proof fn lemma_drop_front(s: Seq<char>, k: CharClass, n: int)
    requires
        0 <= n <= s.len(),
        forall|j: int| 0 <= j < n ==> in_class(k, #[trigger] s[j]),
        n == s.len() || !in_class(k, s[n]),
    ensures
        drop_front(s, k) == s.skip(n),
    decreases n,
{
    if n == 0 {
        assert(s.skip(0) =~= s);
    } else {
        assert(in_class(k, s[0]));
        let t = s.drop_first();
        assert forall|j: int| 0 <= j < n - 1 implies in_class(k, #[trigger] t[j]) by {
            assert(t[j] == s[j + 1]);
        }
        lemma_drop_front(t, k, n - 1);
        assert(t.skip(n - 1) =~= s.skip(n));
    }
}

pub proof fn lemma_drop_back(s: Seq<char>, k: CharClass, n: int)
    requires
        0 <= n <= s.len(),
        forall|j: int| n <= j < s.len() ==> in_class(k, #[trigger] s[j]),
        n == 0 || !in_class(k, s[n - 1]),
    ensures
        drop_back(s, k) == s.take(n),
    decreases s.len() - n,
{
    if n == s.len() {
        assert(s.take(n) =~= s);
    } else {
        assert(in_class(k, s.last()));
        let t = s.drop_last();
        assert forall|j: int| n <= j < t.len() implies in_class(k, #[trigger] t[j]) by {
            assert(t[j] == s[j]);
        }
        lemma_drop_back(t, k, n);
        assert(t.take(n) =~= s.take(n));
    }
}

/// What `drop_front` leaves starts with a character outside the class.
pub proof fn lemma_drop_front_shape(s: Seq<char>, k: CharClass)
    ensures
        exists|n: int|
            0 <= n <= s.len() && drop_front(s, k) == s.skip(n) && (n == s.len() || !in_class(
                k,
                s[n],
            )),
    decreases s.len(),
{
    if s.len() > 0 && in_class(k, s[0]) {
        lemma_drop_front_shape(s.drop_first(), k);
        let n = choose|n: int|
            0 <= n <= s.drop_first().len() && drop_front(s.drop_first(), k) == s.drop_first().skip(
                n,
            ) && (n == s.drop_first().len() || !in_class(k, s.drop_first()[n]));
        assert(s.drop_first().skip(n) =~= s.skip(n + 1));
        assert(n == s.drop_first().len() || s.drop_first()[n] == s[n + 1]);
    } else {
        assert(s.skip(0) =~= s);
    }
}

/// What `drop_back` leaves ends with a character outside the class.
pub proof fn lemma_drop_back_shape(s: Seq<char>, k: CharClass)
    ensures
        exists|n: int|
            0 <= n <= s.len() && drop_back(s, k) == s.take(n) && (n == 0 || !in_class(
                k,
                s[n - 1],
            )),
    decreases s.len(),
{
    if s.len() > 0 && in_class(k, s.last()) {
        lemma_drop_back_shape(s.drop_last(), k);
        let n = choose|n: int|
            0 <= n <= s.drop_last().len() && drop_back(s.drop_last(), k) == s.drop_last().take(n)
                && (n == 0 || !in_class(k, s.drop_last()[n - 1]));
        assert(s.drop_last().take(n) =~= s.take(n));
    } else {
        assert(s.take(s.len() as int) =~= s);
    }
}

/// Dropping the class from a side that does not show it changes nothing.
pub proof fn lemma_drop_nothing(s: Seq<char>, k: CharClass)
    ensures
        (s.len() == 0 || !in_class(k, s[0])) ==> drop_front(s, k) == s,
        (s.len() == 0 || !in_class(k, s.last())) ==> drop_back(s, k) == s,
{
}

/// Trimming a class twice is trimming it once.
pub proof fn lemma_trim_class_idempotent(s: Seq<char>, k: CharClass)
    ensures
        trim_class(trim_class(s, k), k) == trim_class(s, k),
{
    let f = drop_front(s, k);
    lemma_drop_front_shape(s, k);
    lemma_drop_back_shape(f, k);
    let t = drop_back(f, k);
    let m = choose|m: int|
        0 <= m <= f.len() && drop_back(f, k) == f.take(m) && (m == 0 || !in_class(k, f[m - 1]));
    if t.len() > 0 {
        assert(t[0] == f[0]);
        assert(t.last() == f[m - 1]);
    }
    lemma_drop_nothing(t, k);
}

/// Whether `c` is in class `k`.
pub fn class_holds(k: &CharClass, c: char) -> (res: bool)
    ensures
        res == in_class(*k, c),
{
    match k {
        CharClass::WhiteSpace => {
            let u = c as u32;
            (0x09 <= u && u <= 0x0D) || u == 0x20 || u == 0x85 || u == 0xA0 || u == 0x1680 || (
            0x2000 <= u && u <= 0x200A) || u == 0x2028 || u == 0x2029 || u == 0x202F || u
                == 0x205F || u == 0x3000
        },
        CharClass::Only(x) => c == *x,
    }
}

/// Start and end of the part of `v` that a trim by class `k` keeps.
pub fn trim_bounds(v: &Vec<char>, k: &CharClass) -> (res: (usize, usize))
    ensures
        res.0 <= res.1 <= v.len(),
        trim_class(v@, *k) == v@.subrange(res.0 as int, res.1 as int),
{
    let mut lo: usize = 0;
    while lo < v.len() && class_holds(k, v[lo])
        invariant
            lo <= v.len(),
            forall|j: int| 0 <= j < lo ==> in_class(*k, #[trigger] v@[j]),
        decreases v.len() - lo,
    {
        lo += 1;
    }
    let mut hi: usize = v.len();
    while hi > lo && class_holds(k, v[hi - 1])
        invariant
            lo <= hi <= v.len(),
            forall|j: int| hi <= j < v.len() ==> in_class(*k, #[trigger] v@[j]),
        decreases hi - lo,
    {
        hi -= 1;
    }
    proof {
        lemma_drop_front(v@, *k, lo as int);
        let t = v@.skip(lo as int);
        assert forall|j: int| hi - lo <= j < t.len() implies in_class(*k, #[trigger] t[j]) by {
            assert(t[j] == v@[j + lo]);
        }
        lemma_drop_back(t, *k, hi - lo);
        assert(t.take(hi - lo) =~= v@.subrange(lo as int, hi as int));
    }
    (lo, hi)
}

/// `s` without the characters of class `k` at either end.
pub fn trim_by(s: &str, k: CharClass) -> (res: String)
    ensures
        res@ == trim_class(s@, k),
{
    let v = chars_of(s);
    let (lo, hi) = trim_bounds(&v, &k);
    slice_string(s, lo, hi)
}

/// `str::trim`: `s` without white space at either end.
pub fn trim(s: &str) -> (res: String)
    ensures
        res@ == trimmed(s@),
{
    trim_by(s, CharClass::WhiteSpace)
}

/// `str::trim_end_matches(c)`: `s` without copies of `c` at its back.
pub fn trim_end_char(s: &str, c: char) -> (res: String)
    ensures
        res@ == drop_back(s@, CharClass::Only(c)),
{
    let v = chars_of(s);
    let mut hi: usize = v.len();
    while hi > 0 && v[hi - 1] == c
        invariant
            hi <= v.len(),
            forall|j: int| hi <= j < v.len() ==> in_class(CharClass::Only(c), #[trigger] v@[j]),
        decreases hi,
    {
        hi -= 1;
    }
    proof {
        lemma_drop_back(v@, CharClass::Only(c), hi as int);
        assert(v@.take(hi as int) =~= v@.subrange(0, hi as int));
    }
    slice_string(s, 0, hi)
}

// ------------------------------------------------------------ prefixes --

/// `str::trim_start_matches(p)`: `s` with every leading copy of `p` removed.
pub open spec fn strip_prefixes(s: Seq<char>, p: Seq<char>) -> Seq<char>
    decreases s.len(),
{
    if p.len() > 0 && begins_with(s, p) {
        strip_prefixes(s.skip(p.len() as int), p)
    } else {
        s
    }
}

/// `str::trim_start_matches(p)`: `s` with every leading copy of `p` removed.
pub fn strip_prefixes_of(s: &str, p: &str) -> (res: String)
    ensures
        res@ == strip_prefixes(s@, p@),
{
    let v = chars_of(s);
    let w = chars_of(p);
    let mut pos: usize = 0;
    assert(s@.skip(0) =~= s@);
    if w.len() > 0 {
        while occurs_at(&v, pos, &w)
            invariant
                w.len() > 0,
                pos <= v.len(),
                v@ == s@,
                w@ == p@,
                strip_prefixes(s@, p@) == strip_prefixes(s@.skip(pos as int), p@),
            decreases v.len() - pos,
        {
            proof {
                let t = s@.skip(pos as int);
                assert(t.take(p@.len() as int) =~= v@.subrange(pos as int, pos + w.len()));
                assert(t.skip(p@.len() as int) =~= s@.skip(pos + w.len()));
            }
            pos = pos + w.len();
        }
        proof {
            let t = s@.skip(pos as int);
            if begins_with(t, p@) {
                assert(t.take(p@.len() as int) =~= v@.subrange(pos as int, pos + w.len()));
            }
        }
    } else {
        assert(s@.skip(0) =~= s@);
    }
    let r = slice_string(s, pos, v.len());
    assert(s@.subrange(pos as int, s@.len() as int) =~= s@.skip(pos as int));
    r
}

// ------------------------------------------------------------ searching --

/// Position of the first `c` in `s`, or `s.len()` when there is none.
pub open spec fn find_char(s: Seq<char>, c: char) -> int
    decreases s.len(),
{
    if s.len() == 0 {
        0
    } else if s[0] == c {
        0
    } else {
        1 + find_char(s.drop_first(), c)
    }
}

pub proof fn lemma_find_char(s: Seq<char>, c: char, n: int)
    requires
        0 <= n <= s.len(),
        forall|j: int| 0 <= j < n ==> #[trigger] s[j] != c,
        n == s.len() || s[n] == c,
    ensures
        find_char(s, c) == n,
    decreases n,
{
    if n > 0 {
        let t = s.drop_first();
        assert(s[0] != c);
        assert forall|j: int| 0 <= j < n - 1 implies #[trigger] t[j] != c by {
            assert(t[j] == s[j + 1]);
        }
        lemma_find_char(t, c, n - 1);
    }
}

/// Position of the first `c` in `v` at or after `from`, or `v.len()`.
pub fn index_of_from(v: &Vec<char>, from: usize, c: char) -> (k: usize)
    requires
        from <= v.len(),
    ensures
        from <= k <= v.len(),
        k - from == find_char(v@.skip(from as int), c),
        forall|j: int| from <= j < k ==> #[trigger] v@[j] != c,
        k == v.len() || v@[k as int] == c,
{
    let mut k: usize = from;
    while k < v.len() && v[k] != c
        invariant
            from <= k <= v.len(),
            forall|j: int| from <= j < k ==> #[trigger] v@[j] != c,
        decreases v.len() - k,
    {
        k += 1;
    }
    proof {
        let t = v@.skip(from as int);
        assert forall|j: int| 0 <= j < k - from implies #[trigger] t[j] != c by {
            assert(t[j] == v@[j + from]);
        }
        lemma_find_char(t, c, k - from);
    }
    k
}

pub proof fn lemma_find_char_bound(s: Seq<char>, c: char)
    ensures
        0 <= find_char(s, c) <= s.len(),
        find_char(s, c) < s.len() ==> s[find_char(s, c)] == c,
    decreases s.len(),
{
    if s.len() > 0 && s[0] != c {
        lemma_find_char_bound(s.drop_first(), c);
    }
}

// ------------------------------------------------------------ lines --

/// A line without the carriage return of a `\r\n` ending.
pub open spec fn strip_cr(s: Seq<char>) -> Seq<char> {
    if s.len() > 0 && s.last() == '\r' {
        s.drop_last()
    } else {
        s
    }
}

/// `str::lines`: split at `\n` (a `\r` right before it goes too); a final
/// line ending does not start another line.
pub open spec fn text_lines(s: Seq<char>) -> Seq<Seq<char>>
    decreases s.len(),
{
    if s.len() == 0 {
        Seq::empty()
    } else {
        let k = find_char(s, '\n');
        proof {
            lemma_find_char_bound(s, '\n');
        }
        if k >= s.len() {
            seq![s]
        } else {
            seq![strip_cr(s.take(k))] + text_lines(s.skip(k + 1))
        }
    }
}

/// The lines joined with `\n` between them.
pub open spec fn join_lines(ls: Seq<Seq<char>>) -> Seq<char>
    decreases ls.len(),
{
    if ls.len() == 0 {
        Seq::empty()
    } else if ls.len() == 1 {
        ls[0]
    } else {
        join_lines(ls.drop_last()) + "\n"@ + ls.last()
    }
}

pub open spec fn cut_lines(s: Seq<char>, bounds: Seq<(usize, usize)>) -> Seq<Seq<char>> {
    bounds.map_values(|b: (usize, usize)| s.subrange(b.0 as int, b.1 as int))
}

/// Where each of the lines of `v` starts and ends.
#[verifier::spinoff_prover]
pub fn line_bounds(v: &Vec<char>) -> (res: Vec<(usize, usize)>)
    ensures
        text_lines(v@) == cut_lines(v@, res@),
        forall|i: int| 0 <= i < res@.len() ==> #[trigger] res@[i].0 <= res@[i].1 <= v@.len(),
{
    let mut res: Vec<(usize, usize)> = Vec::new();
    let mut pos: usize = 0;
    assert(v@.skip(0) =~= v@);
    while pos < v.len()
        invariant
            pos <= v.len(),
            text_lines(v@) == cut_lines(v@, res@) + text_lines(v@.skip(pos as int)),
            forall|i: int| 0 <= i < res@.len() ==> #[trigger] res@[i].0 <= res@[i].1 <= v@.len(),
        decreases v.len() - pos,
    {
        let k = index_of_from(v, pos, '\n');
        let ghost rest = v@.skip(pos as int);
        let ghost old_res = res@;
        if k == v.len() {
            proof {
                assert(text_lines(rest) == seq![rest]);
                assert(rest =~= v@.subrange(pos as int, v@.len() as int));
                assert(v@.skip(v@.len() as int) =~= Seq::<char>::empty());
            }
            res.push((pos, v.len()));
            proof {
                assert forall|i: int| 0 <= i < res@.len() implies #[trigger] res@[i].0 <= res@[i].1 <= v@.len() by {
                    if i < old_res.len() {
                        assert(res@[i] == old_res[i]);
                    }
                }
                assert(cut_lines(v@, res@) =~= cut_lines(v@, old_res).push(
                    v@.subrange(pos as int, v@.len() as int),
                ));
            }
            pos = v.len();
        } else {
            let end: usize = if k > pos && v[k - 1] == '\r' { k - 1 } else { k };
            proof {
                let line = rest.take(k - pos);
                assert(line =~= v@.subrange(pos as int, k as int));
                assert(strip_cr(line) =~= v@.subrange(pos as int, end as int));
                assert(rest.skip(k - pos + 1) =~= v@.skip(k + 1));
                assert(text_lines(rest) == seq![strip_cr(line)] + text_lines(v@.skip(k + 1)));
            }
            res.push((pos, end));
            proof {
                assert forall|i: int| 0 <= i < res@.len() implies #[trigger] res@[i].0 <= res@[i].1 <= v@.len() by {
                    if i < old_res.len() {
                        assert(res@[i] == old_res[i]);
                    }
                }
                assert(cut_lines(v@, res@) =~= cut_lines(v@, old_res).push(
                    v@.subrange(pos as int, end as int),
                ));
                assert(cut_lines(v@, old_res) + (seq![v@.subrange(pos as int, end as int)]
                    + text_lines(v@.skip(k + 1))) =~= cut_lines(v@, res@) + text_lines(
                    v@.skip(k + 1),
                ));
            }
            pos = k + 1;
        }
    }
    assert(text_lines(v@.skip(pos as int)) =~= Seq::<Seq<char>>::empty());
    assert(cut_lines(v@, res@) + Seq::<Seq<char>>::empty() =~= cut_lines(v@, res@));
    res
}

/// The lines `lo..hi` of `s`, cut at `bounds`, joined with `\n`.
pub fn join_line_range(s: &str, bounds: &Vec<(usize, usize)>, lo: usize, hi: usize) -> (res:
    String)
    requires
        lo < hi <= bounds@.len(),
        forall|i: int| 0 <= i < bounds@.len() ==> #[trigger] bounds@[i].0 <= bounds@[i].1 <= s@.len(),
    ensures
        res@ == join_lines(cut_lines(s@, bounds@).subrange(lo as int, hi as int)),
{
    let ghost ls = cut_lines(s@, bounds@);
    let (a, b) = bounds[lo];
    let mut out = slice_string(s, a, b);
    assert(ls.subrange(lo as int, lo + 1).len() == 1);
    assert(ls.subrange(lo as int, lo + 1)[0] == s@.subrange(a as int, b as int));
    let mut i: usize = lo + 1;
    while i < hi
        invariant
            lo < i <= hi <= bounds@.len(),
            ls == cut_lines(s@, bounds@),
            forall|j: int| 0 <= j < bounds@.len() ==> #[trigger] bounds@[j].0 <= bounds@[j].1 <= s@.len(),
            out@ == join_lines(ls.subrange(lo as int, i as int)),
        decreases hi - i,
    {
        let (a, b) = bounds[i];
        out.append("\n");
        let piece = s.substring_char(a, b);
        out.append(piece);
        proof {
            let t = ls.subrange(lo as int, i + 1);
            assert(t.drop_last() =~= ls.subrange(lo as int, i as int));
            assert(t.last() == s@.subrange(a as int, b as int));
        }
        i += 1;
    }
    out
}

// ------------------------------------------------------------ numbers --

pub open spec fn digit_char(d: nat) -> char {
    if d == 0 { '0' }
    else if d == 1 { '1' }
    else if d == 2 { '2' }
    else if d == 3 { '3' }
    else if d == 4 { '4' }
    else if d == 5 { '5' }
    else if d == 6 { '6' }
    else if d == 7 { '7' }
    else if d == 8 { '8' }
    else { '9' }
}

/// The decimal digits of `n`, most significant first, without leading zeros.
pub open spec fn decimal(n: nat) -> Seq<char>
    decreases n,
{
    if n < 10 {
        seq![digit_char(n)]
    } else {
        decimal(n / 10).push(digit_char(n % 10))
    }
}

fn digit_str(d: u64) -> (s: &'static str)
    requires
        d < 10,
    ensures
        s@ == seq![digit_char(d as nat)],
{
    proof {
        reveal_strlit("0");
        reveal_strlit("1");
        reveal_strlit("2");
        reveal_strlit("3");
        reveal_strlit("4");
        reveal_strlit("5");
        reveal_strlit("6");
        reveal_strlit("7");
        reveal_strlit("8");
        reveal_strlit("9");
    }
    let s = if d == 0 { "0" }
    else if d == 1 { "1" }
    else if d == 2 { "2" }
    else if d == 3 { "3" }
    else if d == 4 { "4" }
    else if d == 5 { "5" }
    else if d == 6 { "6" }
    else if d == 7 { "7" }
    else if d == 8 { "8" }
    else { "9" };
    assert(s@ =~= seq![digit_char(d as nat)]);
    s
}

/// `n` written in decimal, as `u64::to_string` writes it.
pub fn decimal_string(n: u64) -> (s: String)
    ensures
        s@ == decimal(n as nat),
    decreases n,
{
    if n < 10 {
        String::from_str(digit_str(n))
    } else {
        let mut s = decimal_string(n / 10);
        s.append(digit_str(n % 10));
        assert(s@ =~= decimal(n as nat));
        s
    }
}

pub open spec fn is_digit(c: char) -> bool {
    '0' <= c <= '9'
}

pub open spec fn digit_value(c: char) -> nat {
    (c as u32 - '0' as u32) as nat
}

/// The number written by the decimal digits `s`.
pub open spec fn digits_value(s: Seq<char>) -> nat
    decreases s.len(),
{
    if s.len() == 0 {
        0
    } else {
        digits_value(s.drop_last()) * 10 + digit_value(s.last())
    }
}

/// What follows the optional leading `+` that `u64::from_str` accepts.
pub open spec fn unsigned_part(s: Seq<char>) -> Seq<char> {
    if s.len() > 0 && s[0] == '+' {
        s.drop_first()
    } else {
        s
    }
}

pub open spec fn all_digits(d: Seq<char>) -> bool {
    forall|i: int| 0 <= i < d.len() ==> is_digit(#[trigger] d[i])
}

/// `u64::from_str`: an optional `+`, then one or more decimal digits whose
/// value fits in a `u64`.
pub open spec fn parse_u64_spec(s: Seq<char>) -> Option<u64> {
    if unsigned_part(s).len() > 0 && all_digits(unsigned_part(s)) && digits_value(
        unsigned_part(s),
    ) <= u64::MAX {
        Some(digits_value(unsigned_part(s)) as u64)
    } else {
        None
    }
}

pub proof fn lemma_digits_value_grows(s: Seq<char>, k: int)
    requires
        0 <= k <= s.len(),
    ensures
        digits_value(s.take(k)) <= digits_value(s),
    decreases s.len() - k,
{
    if k < s.len() {
        lemma_digits_value_grows(s.drop_last(), k);
        assert(s.drop_last().take(k) =~= s.take(k));
        assert(digits_value(s.drop_last()) <= digits_value(s.drop_last()) * 10) by (nonlinear_arith);
    } else {
        assert(s.take(k) =~= s);
    }
}

/// `str::parse::<u64>`.
pub fn parse_u64(s: &str) -> (res: Option<u64>)
    ensures
        res == parse_u64_spec(s@),
{
    let v = chars_of(s);
    let ghost d = unsigned_part(s@);
    let start: usize = if v.len() > 0 && v[0] == '+' { 1 } else { 0 };
    assert(d =~= v@.skip(start as int));
    if start == v.len() {
        return None;
    }
    let mut value: u64 = 0;
    let mut i: usize = start;
    while i < v.len()
        invariant
            start <= i <= v.len(),
            v@ == s@,
            d == v@.skip(start as int),
            d == unsigned_part(s@),
            start < v.len(),
            value as nat == digits_value(d.take(i - start)),
            forall|j: int| 0 <= j < i - start ==> is_digit(#[trigger] d[j]),
        decreases v.len() - i,
    {
        let c = v[i];
        assert(d[i - start] == c);
        if !('0' <= c && c <= '9') {
            assert(!is_digit(d[i - start]));
            assert(!all_digits(d));
            return None;
        }
        let dv: u64 = (c as u32 - '0' as u32) as u64;
        proof {
            let t = d.take(i - start + 1);
            assert(t.drop_last() =~= d.take(i - start));
            assert(t.last() == c);
            assert(digit_value(c) == dv);
            assert(digits_value(t) == digits_value(t.drop_last()) * 10 + digit_value(t.last()));
            assert(digits_value(t) == value * 10 + dv);
        }
        if value > (u64::MAX - dv) / 10 {
            proof {
                assert(value * 10 + dv > u64::MAX) by (nonlinear_arith)
                    requires
                        value > (u64::MAX - dv) / 10,
                        dv <= 9,
                ;
                lemma_digits_value_grows(d, i - start + 1);
            }
            return None;
        }
        assert(value * 10 + dv <= u64::MAX) by (nonlinear_arith)
            requires
                value <= (u64::MAX - dv) / 10,
                dv <= 9,
        ;
        value = value * 10 + dv;
        i += 1;
    }
    assert(d.take(i - start) =~= d);
    Some(value)
}

} // verus!
