//! Verified string helpers: equality, splitting, prefix handling and
//! decimal rendering, each specified against a `Seq<char>` model.

use vstd::prelude::*;
use vstd::string::StrSliceExecFns;
use vstd::string::StringExecFns;

verus! {

/// View of a vector of strings as a sequence of character sequences.
pub open spec fn strs_view(v: Seq<String>) -> Seq<Seq<char>> {
    v.map_values(|s: String| s@)
}

/// The view of a push is the push of the views.
pub proof fn lemma_strs_view_push(s: Seq<String>, x: String)
    ensures
        strs_view(s.push(x)) == strs_view(s).push(x@),
{
    assert forall|j: int| 0 <= j < s.len() + 1 implies strs_view(s.push(x))[j] == strs_view(
        s,
    ).push(x@)[j] by {
        if j < s.len() {
            assert(s.push(x)[j] == s[j]);
        } else {
            assert(s.push(x)[j] == x);
        }
    }
    assert(strs_view(s.push(x)) =~= strs_view(s).push(x@));
}

/// True when `hay` holds `needle` as a contiguous run of characters.
pub open spec fn contains_seq(hay: Seq<char>, needle: Seq<char>) -> bool {
    exists|k: int|
        0 <= k && k + needle.len() <= hay.len() && #[trigger] hay.subrange(
            k,
            k + needle.len(),
        ) == needle
}

/// Mapping over a push is the push of the mapped element.
pub proof fn lemma_mapped_push<A, B>(s: Seq<A>, x: A, f: spec_fn(A) -> B)
    ensures
        (s.push(x)).map_values(f) == s.map_values(f).push(f(x)),
{
    assert forall|j: int| 0 <= j < s.len() + 1 implies #[trigger] (s.push(x)).map_values(f)[j]
        == s.map_values(f).push(f(x))[j] by {
        if j < s.len() {
            assert(s.push(x)[j] == s[j]);
        } else {
            assert(s.push(x)[j] == x);
        }
    }
    assert((s.push(x)).map_values(f) =~= s.map_values(f).push(f(x)));
}

/// The view of a concatenation is the concatenation of the views.
pub proof fn lemma_strs_view_concat(a: Seq<String>, b: Seq<String>)
    ensures
        strs_view(a + b) == strs_view(a) + strs_view(b),
{
    assert forall|j: int| 0 <= j < a.len() + b.len() implies strs_view(a + b)[j] == (strs_view(a)
        + strs_view(b))[j] by {
        if j < a.len() {
            assert((a + b)[j] == a[j]);
        } else {
            assert((a + b)[j] == b[j - a.len()]);
        }
    }
    assert(strs_view(a + b) =~= strs_view(a) + strs_view(b));
}

/// A run inside `a` is still a run inside `a + b`.
pub proof fn lemma_contains_seq_left(a: Seq<char>, b: Seq<char>, x: Seq<char>)
    requires
        contains_seq(a, x),
    ensures
        contains_seq(a + b, x),
{
    let k = choose|k: int|
        0 <= k && k + x.len() <= a.len() && #[trigger] a.subrange(k, k + x.len() as int) == x;
    assert((a + b).subrange(k, k + x.len() as int) =~= a.subrange(k, k + x.len() as int));
}

/// A run inside `b` is still a run inside `a + b`.
pub proof fn lemma_contains_seq_right(a: Seq<char>, b: Seq<char>, x: Seq<char>)
    requires
        contains_seq(b, x),
    ensures
        contains_seq(a + b, x),
{
    let k = choose|k: int|
        0 <= k && k + x.len() <= b.len() && #[trigger] b.subrange(k, k + x.len() as int) == x;
    let j = a.len() as int + k;
    assert((a + b).subrange(j, j + x.len() as int) =~= b.subrange(k, k + x.len() as int));
}

/// A sequence holds itself as a run.
pub proof fn lemma_contains_seq_self(x: Seq<char>)
    ensures
        contains_seq(x, x),
{
    assert(x.subrange(0, 0 + x.len() as int) =~= x);
}

/// Character-for-character string equality.
pub fn str_eq(a: &str, b: &str) -> (r: bool)
    ensures
        r == (a@ == b@),
{
    let na = a.unicode_len();
    let nb = b.unicode_len();
    if na != nb {
        proof {
            assert(a@ != b@) by {
                if a@ == b@ {
                    assert(a@.len() == b@.len());
                }
            }
        }
        return false;
    }
    let mut i: usize = 0;
    while i < na
        invariant
            na == a@.len(),
            na == b@.len(),
            i <= na,
            forall|j: int| 0 <= j < i ==> a@[j] == b@[j],
        decreases na - i,
    {
        if a.get_char(i) != b.get_char(i) {
            proof {
                assert(a@ != b@) by {
                    if a@ == b@ {
                        assert(a@[i as int] == b@[i as int]);
                    }
                }
            }
            return false;
        }
        i += 1;
    }
    proof {
        assert(a@ =~= b@);
    }
    true
}

/// Whether the character `c` occurs in `s`.
pub fn str_contains_char(s: &str, c: char) -> (r: bool)
    ensures
        r == s@.contains(c),
{
    let n = s.unicode_len();
    let mut i: usize = 0;
    while i < n
        invariant
            n == s@.len(),
            i <= n,
            forall|j: int| 0 <= j < i ==> a_ne(s@[j], c),
        decreases n - i,
    {
        if s.get_char(i) == c {
            proof {
                assert(s@.contains(c)) by {
                    assert(s@[i as int] == c);
                }
            }
            return true;
        }
        i += 1;
    }
    proof {
        assert(!s@.contains(c)) by {
            if s@.contains(c) {
                let j = choose|j: int| 0 <= j < s@.len() && s@[j] == c;
                assert(a_ne(s@[j], c));
            }
        }
    }
    false
}

/// Helper used as a stable trigger for "character differs" facts.
pub open spec fn a_ne(a: char, b: char) -> bool {
    a != b
}

/// Whether some string in `v` equals `s`.
pub fn strings_contain(v: &Vec<String>, s: &str) -> (r: bool)
    ensures
        r == strs_view(v@).contains(s@),
{
    let n = v.len();
    let mut i: usize = 0;
    while i < n
        invariant
            n == v@.len(),
            i <= n,
            forall|j: int| 0 <= j < i ==> strs_view(v@)[j] != s@,
        decreases n - i,
    {
        if str_eq(v[i].as_str(), s) {
            proof {
                assert(strs_view(v@)[i as int] == s@);
            }
            return true;
        }
        i += 1;
    }
    proof {
        assert(!strs_view(v@).contains(s@)) by {
            if strs_view(v@).contains(s@) {
                let j = choose|j: int|
                    0 <= j < strs_view(v@).len() && strs_view(v@)[j] == s@;
                assert(strs_view(v@)[j] != s@);
            }
        }
    }
    false
}

/// Element-wise equality of two string vectors.
pub fn string_vecs_eq(a: &Vec<String>, b: &Vec<String>) -> (r: bool)
    ensures
        r == (strs_view(a@) == strs_view(b@)),
{
    if a.len() != b.len() {
        proof {
            assert(strs_view(a@) != strs_view(b@)) by {
                if strs_view(a@) == strs_view(b@) {
                    assert(strs_view(a@).len() == strs_view(b@).len());
                }
            }
        }
        return false;
    }
    let n = a.len();
    let mut i: usize = 0;
    while i < n
        invariant
            n == a@.len(),
            n == b@.len(),
            i <= n,
            forall|j: int| 0 <= j < i ==> strs_view(a@)[j] == strs_view(b@)[j],
        decreases n - i,
    {
        if !str_eq(a[i].as_str(), b[i].as_str()) {
            proof {
                assert(strs_view(a@)[i as int] != strs_view(b@)[i as int]);
            }
            return false;
        }
        i += 1;
    }
    proof {
        assert(strs_view(a@) =~= strs_view(b@));
    }
    true
}

/// Whether `p` is a prefix of `s`.
pub open spec fn starts_with(s: Seq<char>, p: Seq<char>) -> bool {
    p.len() <= s.len() && s.subrange(0, p.len() as int) == p
}

/// Prefix test over characters.
pub fn str_starts_with(s: &str, p: &str) -> (r: bool)
    ensures
        r == starts_with(s@, p@),
{
    let ns = s.unicode_len();
    let np = p.unicode_len();
    if np > ns {
        return false;
    }
    let mut i: usize = 0;
    while i < np
        invariant
            ns == s@.len(),
            np == p@.len(),
            np <= ns,
            i <= np,
            forall|j: int| 0 <= j < i ==> s@[j] == p@[j],
        decreases np - i,
    {
        if s.get_char(i) != p.get_char(i) {
            proof {
                assert(!starts_with(s@, p@)) by {
                    if starts_with(s@, p@) {
                        assert(s@.subrange(0, p@.len() as int)[i as int] == p@[i as int]);
                    }
                }
            }
            return false;
        }
        i += 1;
    }
    proof {
        assert(s@.subrange(0, p@.len() as int) =~= p@);
    }
    true
}

/// The result of repeatedly removing the (non-empty) prefix `p` from `s`.
pub open spec fn trim_prefix_all(s: Seq<char>, p: Seq<char>) -> Seq<char>
    decreases s.len(),
{
    if p.len() > 0 && starts_with(s, p) {
        trim_prefix_all(s.subrange(p.len() as int, s.len() as int), p)
    } else {
        s
    }
}

/// Removes every leading repetition of `p` from `s`.
pub fn trim_prefix_repeated<'a>(s: &'a str, p: &str) -> (r: &'a str)
    ensures
        r@ == trim_prefix_all(s@, p@),
{
    let np = p.unicode_len();
    if np == 0 {
        return s;
    }
    let mut cur: &str = s;
    loop
        invariant
            np == p@.len(),
            np > 0,
            trim_prefix_all(s@, p@) == trim_prefix_all(cur@, p@),
        decreases cur@.len(),
    {
        if !str_starts_with(cur, p) {
            return cur;
        }
        let nc = cur.unicode_len();
        cur = cur.substring_char(np, nc);
    }
}

/// Splitting a character sequence at every occurrence of `sep`; the result
/// always holds at least one (possibly empty) piece.
pub open spec fn split_seq(s: Seq<char>, sep: char) -> Seq<Seq<char>>
    decreases s.len(),
{
    if s.len() == 0 {
        seq![Seq::<char>::empty()]
    } else {
        let prev = split_seq(s.drop_last(), sep);
        if s.last() == sep {
            prev.push(Seq::<char>::empty())
        } else {
            prev.update(prev.len() - 1, prev.last().push(s.last()))
        }
    }
}

pub proof fn lemma_split_seq_len(s: Seq<char>, sep: char)
    ensures
        split_seq(s, sep).len() >= 1,
    decreases s.len(),
{
    if s.len() > 0 {
        lemma_split_seq_len(s.drop_last(), sep);
    }
}

/// Splits `s` at every occurrence of `sep`.
pub fn split_char(s: &str, sep: char) -> (r: Vec<String>)
    ensures
        strs_view(r@) == split_seq(s@, sep),
{
    let n = s.unicode_len();
    let mut r: Vec<String> = Vec::new();
    let mut start: usize = 0;
    let mut i: usize = 0;
    proof {
        assert(s@.subrange(0, 0) =~= Seq::<char>::empty());
        assert(strs_view(r@).push(s@.subrange(0, 0)) =~= seq![Seq::<char>::empty()]);
    }
    while i < n
        invariant
            n == s@.len(),
            start <= i <= n,
            split_seq(s@.subrange(0, i as int), sep) == strs_view(r@).push(
                s@.subrange(start as int, i as int),
            ),
        decreases n - i,
    {
        let ghost pre = s@.subrange(0, i as int);
        let ghost seg = s@.subrange(start as int, i as int);
        let c = s.get_char(i);
        proof {
            assert(s@.subrange(0, i + 1).drop_last() =~= pre);
            assert(s@.subrange(0, i + 1).last() == s@[i as int]);
        }
        if c == sep {
            let piece = s.substring_char(start, i).to_owned();
            r.push(piece);
            start = i + 1;
            proof {
                assert(split_seq(s@.subrange(0, i + 1), sep) =~= strs_view(r@).push(
                    s@.subrange(start as int, i + 1),
                )) by {
                    assert(s@.subrange(start as int, i + 1) =~= Seq::<char>::empty());
                    assert(strs_view(r@) =~= strs_view(r@).push(
                        s@.subrange(start as int, i + 1),
                    ).drop_last());
                }
            }
        } else {
            proof {
                let old_split = strs_view(r@).push(seg);
                let new_split = old_split.update(old_split.len() - 1, seg.push(s@[i as int]));
                assert(split_seq(s@.subrange(0, i + 1), sep) == new_split);
                assert(new_split =~= strs_view(r@).push(s@.subrange(start as int, i + 1))) by {
                    assert(seg.push(s@[i as int]) =~= s@.subrange(start as int, i + 1));
                }
            }
        }
        i += 1;
    }
    let lastpiece = s.substring_char(start, n).to_owned();
    r.push(lastpiece);
    proof {
        assert(s@.subrange(0, n as int) =~= s@);
        assert(strs_view(r@) =~= strs_view(r@.drop_last()).push(s@.subrange(start as int, n as int)));
    }
    r
}

/// The non-empty pieces of `s` split at `sep`: path components.
pub open spec fn components_of(s: Seq<char>, sep: char) -> Seq<Seq<char>> {
    split_seq(s, sep).filter(|p: Seq<char>| p.len() > 0)
}

/// Splits `s` at `sep` and keeps only the non-empty pieces.
pub fn split_components(s: &str, sep: char) -> (r: Vec<String>)
    ensures
        strs_view(r@) == components_of(s@, sep),
{
    let parts = split_char(s, sep);
    let n = parts.len();
    let mut r: Vec<String> = Vec::new();
    let mut i: usize = 0;
    proof {
        assert(strs_view(parts@).subrange(0, 0) =~= Seq::<Seq<char>>::empty());
        assert(Seq::<Seq<char>>::empty().filter(|p: Seq<char>| p.len() > 0) =~= Seq::<
            Seq<char>,
        >::empty());
    }
    while i < n
        invariant
            n == parts@.len(),
            i <= n,
            strs_view(r@) == strs_view(parts@).subrange(0, i as int).filter(
                |p: Seq<char>| p.len() > 0,
            ),
        decreases n - i,
    {
        let ghost pre = strs_view(parts@).subrange(0, i as int);
        proof {
            assert(strs_view(parts@).subrange(0, i + 1).drop_last() =~= pre);
            assert(strs_view(parts@).subrange(0, i + 1).last() == parts@[i as int]@);
            reveal_with_fuel(Seq::filter, 2);
            assert(strs_view(parts@).subrange(0, i + 1).filter(|p: Seq<char>| p.len() > 0)
                == if parts@[i as int]@.len() > 0 {
                    pre.filter(|p: Seq<char>| p.len() > 0).push(parts@[i as int]@)
                } else {
                    pre.filter(|p: Seq<char>| p.len() > 0)
                });
        }
        if parts[i].as_str().unicode_len() > 0 {
            let piece = parts[i].clone();
            r.push(piece);
        }
        i += 1;
    }
    proof {
        assert(strs_view(parts@).subrange(0, n as int) =~= strs_view(parts@));
    }
    r
}

/// Index of the last occurrence of `c` in `s`, or `-1` when absent.
pub open spec fn last_index_of(s: Seq<char>, c: char) -> int
    decreases s.len(),
{
    if s.len() == 0 {
        -1
    } else if s.last() == c {
        s.len() - 1
    } else {
        last_index_of(s.drop_last(), c)
    }
}

pub proof fn lemma_last_index_of_bounds(s: Seq<char>, c: char)
    ensures
        -1 <= last_index_of(s, c) < s.len(),
        last_index_of(s, c) >= 0 ==> s[last_index_of(s, c)] == c,
        forall|j: int| last_index_of(s, c) < j < s.len() ==> s[j] != c,
    decreases s.len(),
{
    if s.len() > 0 {
        lemma_last_index_of_bounds(s.drop_last(), c);
        if s.last() != c {
            assert forall|j: int| last_index_of(s, c) < j < s.len() implies s[j] != c by {
                if j < s.len() - 1 {
                    assert(s.drop_last()[j] == s[j]);
                }
            }
        }
    }
}

/// Finds the last occurrence of `c` in `s`.
pub fn rfind_char(s: &str, c: char) -> (r: Option<usize>)
    ensures
        match r {
            Some(i) => last_index_of(s@, c) == i as int,
            None => last_index_of(s@, c) == -1,
        },
{
    let n = s.unicode_len();
    let mut i: usize = n;
    proof {
        assert(s@.subrange(0, n as int) =~= s@);
    }
    while i > 0
        invariant
            n == s@.len(),
            i <= n,
            last_index_of(s@, c) == last_index_of(s@.subrange(0, i as int), c),
        decreases i,
    {
        let ghost pre = s@.subrange(0, i as int);
        proof {
            assert(pre.drop_last() =~= s@.subrange(0, i - 1));
            assert(pre.last() == s@[i - 1]);
        }
        if s.get_char(i - 1) == c {
            proof {
                lemma_last_index_of_bounds(pre, c);
            }
            return Some(i - 1);
        }
        i -= 1;
    }
    proof {
        assert(s@.subrange(0, 0) =~= Seq::<char>::empty());
    }
    None
}

/// The decimal digit character for `n` (valid for `n < 10`).
pub open spec fn dec_digit_char(n: nat) -> char {
    if n == 0 {
        '0'
    } else if n == 1 {
        '1'
    } else if n == 2 {
        '2'
    } else if n == 3 {
        '3'
    } else if n == 4 {
        '4'
    } else if n == 5 {
        '5'
    } else if n == 6 {
        '6'
    } else if n == 7 {
        '7'
    } else if n == 8 {
        '8'
    } else {
        '9'
    }
}

/// Decimal rendering of a natural number, most significant digit first.
pub open spec fn dec_str(n: nat) -> Seq<char>
    decreases n,
{
    if n < 10 {
        seq![dec_digit_char(n)]
    } else {
        dec_str(n / 10).push(dec_digit_char(n % 10))
    }
}

/// The digit characters of `ds` (least significant first) rendered most
/// significant first.
pub open spec fn chars_rev(ds: Seq<u64>) -> Seq<char>
    decreases ds.len(),
{
    if ds.len() == 0 {
        Seq::<char>::empty()
    } else {
        seq![dec_digit_char((ds.last() % 10) as nat)] + chars_rev(ds.drop_last())
    }
}

/// A one-character string for the decimal digit `d`.
fn digit_str(d: u64) -> (r: &'static str)
    requires
        d < 10,
    ensures
        r@ =~= seq![dec_digit_char(d as nat)],
{
    if d == 0 {
        proof {
            reveal_strlit("0");
        }
        "0"
    } else if d == 1 {
        proof {
            reveal_strlit("1");
        }
        "1"
    } else if d == 2 {
        proof {
            reveal_strlit("2");
        }
        "2"
    } else if d == 3 {
        proof {
            reveal_strlit("3");
        }
        "3"
    } else if d == 4 {
        proof {
            reveal_strlit("4");
        }
        "4"
    } else if d == 5 {
        proof {
            reveal_strlit("5");
        }
        "5"
    } else if d == 6 {
        proof {
            reveal_strlit("6");
        }
        "6"
    } else if d == 7 {
        proof {
            reveal_strlit("7");
        }
        "7"
    } else if d == 8 {
        proof {
            reveal_strlit("8");
        }
        "8"
    } else {
        proof {
            reveal_strlit("9");
        }
        "9"
    }
}

/// Renders `n` in decimal.
#[verifier::loop_isolation(true)]
pub fn u64_to_string(n: u64) -> (r: String)
    ensures
        r@ == dec_str(n as nat),
{
    let mut digs: Vec<u64> = Vec::new();
    let mut m: u64 = n;
    loop
        invariant_except_break
            forall|j: int| 0 <= j < digs@.len() ==> digs@[j] < 10,
            if digs@.len() == 0 {
                m == n
            } else {
                m > 0 && dec_str(n as nat) == dec_str(m as nat) + chars_rev(digs@)
            },
        ensures
            digs@.len() > 0,
            forall|j: int| 0 <= j < digs@.len() ==> digs@[j] < 10,
            dec_str(n as nat) == chars_rev(digs@),
        decreases m,
    {
        let d = m % 10;
        let ghost olddigs = digs@;
        let ghost oldm = m;
        digs.push(d);
        m = m / 10;
        proof {
            assert(digs@.drop_last() =~= olddigs);
            assert(chars_rev(digs@) == seq![dec_digit_char((d % 10) as nat)] + chars_rev(olddigs));
            assert(d % 10 == d);
            if olddigs.len() == 0 {
                assert(oldm == n);
                if m == 0 {
                    assert(dec_str(n as nat) =~= chars_rev(digs@));
                } else {
                    assert(dec_str(n as nat) =~= dec_str(m as nat) + chars_rev(digs@));
                }
            } else {
                if oldm < 10 {
                    assert(dec_str(oldm as nat) == seq![dec_digit_char(oldm as nat)]);
                    assert(dec_str(n as nat) =~= chars_rev(digs@));
                } else {
                    assert(dec_str(oldm as nat) == dec_str((oldm / 10) as nat).push(
                        dec_digit_char((oldm % 10) as nat),
                    ));
                    assert(dec_str(n as nat) =~= dec_str(m as nat) + chars_rev(digs@));
                }
            }
        }
        if m == 0 {
            break;
        }
    }
    let mut out = String::new();
    let mut i: usize = digs.len();
    proof {
        assert(digs@.subrange(0, i as int) =~= digs@);
        assert(out@ + chars_rev(digs@) =~= chars_rev(digs@));
    }
    while i > 0
        invariant
            i <= digs@.len(),
            forall|j: int| 0 <= j < digs@.len() ==> digs@[j] < 10,
            chars_rev(digs@) == out@ + chars_rev(digs@.subrange(0, i as int)),
        decreases i,
    {
        let ghost pre = digs@.subrange(0, i as int);
        proof {
            assert(pre.drop_last() =~= digs@.subrange(0, i - 1));
            assert(pre.last() == digs@[i - 1]);
        }
        let ds = digit_str(digs[i - 1]);
        out.append(ds);
        i -= 1;
        proof {
            assert(chars_rev(digs@) =~= out@ + chars_rev(digs@.subrange(0, i as int)));
        }
    }
    proof {
        assert(digs@.subrange(0, 0) =~= Seq::<u64>::empty());
        assert(out@ =~= chars_rev(digs@));
    }
    out
}

/// The pieces of `parts` joined with `sep` between consecutive pieces.
pub open spec fn join_with(parts: Seq<Seq<char>>, sep: Seq<char>) -> Seq<char>
    decreases parts.len(),
{
    if parts.len() == 0 {
        Seq::<char>::empty()
    } else if parts.len() == 1 {
        parts[0]
    } else {
        join_with(parts.drop_last(), sep) + sep + parts.last()
    }
}

/// Joins the strings in `parts` with `sep`.
pub fn join_strings(parts: &Vec<String>, sep: &str) -> (r: String)
    ensures
        r@ == join_with(strs_view(parts@), sep@),
{
    let mut out = String::new();
    let n = parts.len();
    let mut i: usize = 0;
    while i < n
        invariant
            n == parts@.len(),
            i <= n,
            out@ == join_with(strs_view(parts@).subrange(0, i as int), sep@),
        decreases n - i,
    {
        if i > 0 {
            out.append(sep);
        }
        out.append(parts[i].as_str());
        i += 1;
        proof {
            let pre = strs_view(parts@).subrange(0, i as int);
            assert(pre.drop_last() =~= strs_view(parts@).subrange(0, i - 1));
            assert(pre.last() == parts@[i - 1]@);
            if i == 1 {
                assert(out@ =~= join_with(pre, sep@));
            }
        }
    }
    proof {
        assert(strs_view(parts@).subrange(0, n as int) =~= strs_view(parts@));
    }
    out
}

} // verus!
