//! Character-level helpers on strings, stated over their `Seq<char>` views.

use vstd::prelude::*;
use vstd::string::*;

verus! {

broadcast use vstd::string::group_string_axioms;

/// The characters of an optional string slice.
pub open spec fn opt_chars(o: Option<&str>) -> Option<Seq<char>> {
    match o {
        Some(s) => Some(s@),
        None => None,
    }
}

/// Appends one character to a string (std's `String::push`).
#[verifier::external_body]
pub fn push_char(s: &mut String, c: char)
    ensures
        final(s)@ == old(s)@.push(c),
{
    s.push(c);
}

/// A copy of an optional string.
pub fn clone_opt(o: &Option<String>) -> (r: Option<String>)
    ensures
        r == *o,
        r.deep_view() == o.deep_view(),
{
    match o {
        Some(s) => Some(s.clone()),
        None => None,
    }
}

/// A copy of a list of strings.
pub fn clone_strings(v: &Vec<String>) -> (r: Vec<String>)
    ensures
        r.deep_view() == v.deep_view(),
{
    let mut r: Vec<String> = Vec::new();
    let mut i: usize = 0;
    while i < v.len()
        invariant
            i <= v.len(),
            r@.len() == i,
            forall|k: int| 0 <= k < i ==> #[trigger] r@[k]@ == v@[k]@,
        decreases v.len() - i,
    {
        let c = v[i].clone();
        r.push(c);
        i = i + 1;
    }
    assert(r.deep_view() =~= v.deep_view());
    r
}

/// A fresh string with the characters of `s`.
pub fn owned(s: &str) -> (r: String)
    ensures
        r@ == s@,
{
    s.to_owned()
}

/// The characters of `s`, in order.
pub fn chars_of(s: &str) -> (v: Vec<char>)
    ensures
        v@ == s@,
{
    let n = s.unicode_len();
    let mut v: Vec<char> = Vec::new();
    let mut i: usize = 0;
    while i < n
        invariant
            n == s@.len(),
            i <= n,
            v@ == s@.take(i as int),
        decreases n - i,
    {
        let c = s.get_char(i);
        v.push(c);
        i = i + 1;
        assert(v@ =~= s@.take(i as int));
    }
    assert(s@.take(n as int) =~= s@);
    v
}

/// A string holding exactly the characters `v[from..to]`.
pub fn string_of_range(v: &Vec<char>, from: usize, to: usize) -> (s: String)
    requires
        from <= to <= v.len(),
    ensures
        s@ == v@.subrange(from as int, to as int),
{
    let mut s = String::new();
    let mut i: usize = from;
    while i < to
        invariant
            from <= i <= to <= v.len(),
            s@ == v@.subrange(from as int, i as int),
        decreases to - i,
    {
        push_char(&mut s, v[i]);
        i = i + 1;
        assert(s@ =~= v@.subrange(from as int, i as int));
    }
    s
}

/// A string holding exactly the characters of `v`.
pub fn string_of(v: &Vec<char>) -> (s: String)
    ensures
        s@ == v@,
{
    let s = string_of_range(v, 0, v.len());
    assert(v@.subrange(0, v@.len() as int) =~= v@);
    s
}

/// Whether two strings hold the same characters.
pub fn str_eq(a: &str, b: &str) -> (r: bool)
    ensures
        r == (a@ == b@),
{
    let n = a.unicode_len();
    if n != b.unicode_len() {
        return false;
    }
    let mut i: usize = 0;
    while i < n
        invariant
            n == a@.len(),
            n == b@.len(),
            i <= n,
            forall|j: int| 0 <= j < i ==> a@[j] == b@[j],
        decreases n - i,
    {
        if a.get_char(i) != b.get_char(i) {
            return false;
        }
        i = i + 1;
    }
    assert(a@ =~= b@);
    true
}

/// Whether `c` occurs in `s`.
pub fn has_char(s: &str, c: char) -> (r: bool)
    ensures
        r == s@.contains(c),
{
    let n = s.unicode_len();
    let mut i: usize = 0;
    while i < n
        invariant
            n == s@.len(),
            i <= n,
            forall|j: int| 0 <= j < i ==> s@[j] != c,
        decreases n - i,
    {
        if s.get_char(i) == c {
            assert(s@[i as int] == c);
            return true;
        }
        i = i + 1;
    }
    false
}

/// Unicode's `White_Space` property, which `char::is_whitespace` reports.
pub open spec fn is_white_space(c: char) -> bool {
    let u = c as u32;
    ||| 0x09 <= u <= 0x0d
    ||| u == 0x20
    ||| u == 0x85
    ||| u == 0xa0
    ||| u == 0x1680
    ||| 0x2000 <= u <= 0x200a
    ||| u == 0x2028
    ||| u == 0x2029
    ||| u == 0x202f
    ||| u == 0x205f
    ||| u == 0x3000
}

/// Executable form of [`is_white_space`].
pub fn white_space(c: char) -> (r: bool)
    ensures
        r == is_white_space(c),
{
    let u = c as u32;
    (0x09 <= u && u <= 0x0d) || u == 0x20 || u == 0x85 || u == 0xa0 || u == 0x1680 || (0x2000
        <= u && u <= 0x200a) || u == 0x2028 || u == 0x2029 || u == 0x202f || u == 0x205f || u
        == 0x3000
}

/// Number of leading white-space characters of `s`.
pub open spec fn leading_ws(s: Seq<char>) -> nat
    decreases s.len(),
{
    if s.len() > 0 && is_white_space(s[0]) {
        1 + leading_ws(s.drop_first())
    } else {
        0
    }
}

/// Number of trailing white-space characters of `s`.
pub open spec fn trailing_ws(s: Seq<char>) -> nat
    decreases s.len(),
{
    if s.len() > 0 && is_white_space(s.last()) {
        1 + trailing_ws(s.drop_last())
    } else {
        0
    }
}

/// `s` without leading and trailing white space (what `str::trim` gives).
pub open spec fn trim(s: Seq<char>) -> Seq<char> {
    let t = s.skip(leading_ws(s) as int);
    t.take(t.len() - trailing_ws(t))
}

proof fn lemma_leading_ws(s: Seq<char>, i: int)
    requires
        0 <= i <= s.len(),
        forall|j: int| 0 <= j < i ==> is_white_space(#[trigger] s[j]),
    ensures
        i < s.len() && !is_white_space(s[i]) ==> leading_ws(s) == i,
        i == s.len() ==> leading_ws(s) == i,
    decreases i,
{
    if i > 0 {
        lemma_leading_ws(s.drop_first(), i - 1);
        assert forall|j: int| 0 <= j < i - 1 implies is_white_space(#[trigger] s.drop_first()[j]) by {
            assert(s.drop_first()[j] == s[j + 1]);
        }
        if i < s.len() {
            assert(s.drop_first()[i - 1] == s[i]);
        }
    }
}

proof fn lemma_trailing_ws(s: Seq<char>, k: int)
    requires
        0 <= k <= s.len(),
        forall|j: int| s.len() - k <= j < s.len() ==> is_white_space(#[trigger] s[j]),
    ensures
        k < s.len() && !is_white_space(s[s.len() - k - 1]) ==> trailing_ws(s) == k,
        k == s.len() ==> trailing_ws(s) == k,
    decreases k,
{
    if k > 0 {
        let d = s.drop_last();
        assert forall|j: int| d.len() - (k - 1) <= j < d.len() implies is_white_space(#[trigger] d[j]) by {
            assert(d[j] == s[j]);
        }
        lemma_trailing_ws(d, k - 1);
        if k < s.len() {
            assert(d[d.len() - (k - 1) - 1] == s[s.len() - k - 1]);
        }
    }
}

/// `s` without leading and trailing white space, as characters.
pub fn trim_chars(s: &str) -> (v: Vec<char>)
    ensures
        v@ == trim(s@),
{
    let all = chars_of(s);
    let n = all.len();
    let mut lo: usize = 0;
    while lo < n && white_space(all[lo])
        invariant
            n == all@.len(),
            all@ == s@,
            lo <= n,
            forall|j: int| 0 <= j < lo ==> is_white_space(#[trigger] all@[j]),
        decreases n - lo,
    {
        lo = lo + 1;
    }
    proof {
        lemma_leading_ws(s@, lo as int);
    }
    let ghost t = s@.skip(lo as int);
    let mut hi: usize = n;
    while hi > lo && white_space(all[hi - 1])
        invariant
            n == all@.len(),
            all@ == s@,
            lo <= hi <= n,
            t == s@.skip(lo as int),
            forall|j: int| hi <= j < n ==> is_white_space(#[trigger] all@[j]),
        decreases hi,
    {
        hi = hi - 1;
    }
    proof {
        assert forall|j: int| t.len() - (n - hi) <= j < t.len() implies is_white_space(#[trigger] t[j]) by {
            assert(t[j] == all@[j + lo]);
        }
        lemma_trailing_ws(t, (n - hi) as int);
        if hi > lo {
            assert(t[t.len() - (n - hi) - 1] == all@[hi - 1]);
        }
    }
    let mut v: Vec<char> = Vec::new();
    let mut i: usize = lo;
    while i < hi
        invariant
            all@ == s@,
            lo <= i <= hi <= n == all@.len(),
            v@ == all@.subrange(lo as int, i as int),
        decreases hi - i,
    {
        v.push(all[i]);
        i = i + 1;
        assert(v@ =~= all@.subrange(lo as int, i as int));
    }
    assert(v@ =~= trim(s@));
    v
}

/// `s` without leading and trailing white space (`str::trim`).
pub fn trim_str(s: &str) -> (r: String)
    ensures
        r@ == trim(s@),
{
    let v = trim_chars(s);
    string_of(&v)
}


/// `s` without trailing white space (what `str::trim_end` gives).
pub open spec fn trim_end(s: Seq<char>) -> Seq<char> {
    s.take(s.len() - trailing_ws(s))
}

/// `s` without trailing white space (`str::trim_end`).
pub fn trim_end_str(s: &str) -> (r: String)
    ensures
        r@ == trim_end(s@),
{
    let all = chars_of(s);
    let n = all.len();
    let mut hi: usize = n;
    while hi > 0 && white_space(all[hi - 1])
        invariant
            n == all@.len(),
            all@ == s@,
            hi <= n,
            forall|j: int| hi <= j < n ==> is_white_space(#[trigger] all@[j]),
        decreases hi,
    {
        hi = hi - 1;
    }
    proof {
        lemma_trailing_ws(s@, (n - hi) as int);
    }
    let r = string_of_range(&all, 0, hi);
    assert(r@ =~= trim_end(s@));
    r
}


/// The pieces of `s` between the separators `sep`, in order (one empty piece for
/// empty text), as `str::split` gives them.
pub open spec fn split_on(s: Seq<char>, sep: char) -> Seq<Seq<char>>
    decreases s.len(),
{
    if s.len() == 0 {
        seq![Seq::empty()]
    } else {
        let p = split_on(s.drop_last(), sep);
        if s.last() == sep {
            p.push(Seq::empty())
        } else {
            p.update(p.len() - 1, p.last().push(s.last()))
        }
    }
}

proof fn lemma_split_on_nonempty(s: Seq<char>, sep: char)
    ensures
        split_on(s, sep).len() >= 1,
    decreases s.len(),
{
    if s.len() > 0 {
        lemma_split_on_nonempty(s.drop_last(), sep);
    }
}

/// Splits `s` at every `sep`.
pub fn split_str(s: &str, sep: char) -> (r: Vec<String>)
    ensures
        r.deep_view() == split_on(s@, sep),
{
    let v = chars_of(s);
    let mut pieces: Vec<String> = Vec::new();
    let mut current: Vec<char> = Vec::new();
    let mut i: usize = 0;
    assert(v@.take(0) =~= Seq::<char>::empty());
    while i < v.len()
        invariant
            i <= v.len(),
            v@ == s@,
            pieces.deep_view().push(current@) == split_on(v@.take(i as int), sep),
        decreases v.len() - i,
    {
        let ghost before = v@.take(i as int);
        assert(v@.take(i + 1).drop_last() =~= before);
        proof {
            lemma_split_on_nonempty(before, sep);
        }
        if v[i] == sep {
            let piece = string_of(&current);
            pieces.push(piece);
            current = Vec::new();
            assert(pieces.deep_view().push(current@) =~= split_on(v@.take(i + 1), sep));
        } else {
            current.push(v[i]);
            assert(pieces.deep_view().push(current@) =~= split_on(v@.take(i + 1), sep));
        }
        i = i + 1;
    }
    assert(v@.take(v@.len() as int) =~= v@);
    let last = string_of(&current);
    pieces.push(last);
    assert(pieces.deep_view() =~= split_on(s@, sep));
    pieces
}

/// The index of the first `c` in `s`, where there is one.
pub open spec fn first_index(s: Seq<char>, c: char) -> Option<int>
    decreases s.len(),
{
    if s.len() == 0 {
        None
    } else if s[0] == c {
        Some(0)
    } else {
        match first_index(s.drop_first(), c) {
            Some(i) => Some(i + 1),
            None => None,
        }
    }
}

/// The index of the first `c` in `v`.
pub fn find_char(v: &Vec<char>, c: char) -> (r: Option<usize>)
    ensures
        match r {
            Some(k) => k < v@.len() && first_index(v@, c) == Some(k as int),
            None => first_index(v@, c) is None,
        },
{
    let mut i: usize = 0;
    assert(v@.skip(0) =~= v@);
    while i < v.len()
        invariant
            i <= v@.len(),
            forall|j: int| 0 <= j < i ==> v@[j] != c,
            first_index(v@, c) == match first_index(v@.skip(i as int), c) {
                Some(k) => Some(k + i),
                None => None,
            },
        decreases v.len() - i,
    {
        assert(v@.skip(i as int)[0] == v@[i as int]);
        if v[i] == c {
            return Some(i);
        }
        assert(v@.skip(i as int).drop_first() =~= v@.skip(i + 1));
        i = i + 1;
    }
    assert(v@.skip(i as int) =~= Seq::<char>::empty());
    None
}

/// Whether `s` holds nothing but white space.
pub fn is_blank(s: &str) -> (r: bool)
    ensures
        r == (trim(s@).len() == 0),
{
    let v = trim_chars(s);
    v.len() == 0
}

/// `s` with every non-overlapping occurrence of `pat`, scanned from the left,
/// replaced by `rep` (what `str::replace` gives for a non-empty pattern).
pub open spec fn replace(s: Seq<char>, pat: Seq<char>, rep: Seq<char>) -> Seq<char>
    decreases s.len(),
{
    if pat.len() == 0 || s.len() < pat.len() {
        s
    } else if s.take(pat.len() as int) == pat {
        rep + replace(s.skip(pat.len() as int), pat, rep)
    } else {
        seq![s[0]] + replace(s.drop_first(), pat, rep)
    }
}

/// Whether `pat` occurs in `s` at position `at`.
fn matches_at(s: &Vec<char>, at: usize, pat: &Vec<char>) -> (r: bool)
    requires
        at <= s.len(),
    ensures
        r == (at + pat.len() <= s.len() && s@.subrange(at as int, at + pat.len()) == pat@),
{
    if pat.len() > s.len() - at {
        return false;
    }
    let mut k: usize = 0;
    while k < pat.len()
        invariant
            at + pat.len() <= s.len(),
            k <= pat.len(),
            forall|j: int| 0 <= j < k ==> s@[at + j] == pat@[j],
        decreases pat.len() - k,
    {
        if s[at + k] != pat[k] {
            assert(s@.subrange(at as int, at + pat.len())[k as int] != pat@[k as int]);
            return false;
        }
        k = k + 1;
    }
    assert(s@.subrange(at as int, at + pat.len()) =~= pat@);
    true
}

/// Replaces every non-overlapping occurrence of `pat` in `s` by `rep`.
pub fn replace_all(s: &str, pat: &str, rep: &str) -> (r: String)
    requires
        pat@.len() > 0,
    ensures
        r@ == replace(s@, pat@, rep@),
{
    let sv = chars_of(s);
    let pv = chars_of(pat);
    let rv = chars_of(rep);
    let mut out: Vec<char> = Vec::new();
    let mut i: usize = 0;
    assert(sv@.skip(0) =~= sv@);
    assert(out@ + replace(sv@, pv@, rv@) =~= replace(sv@, pv@, rv@));
    while i < sv.len()
        invariant
            sv@ == s@,
            pv@ == pat@,
            rv@ == rep@,
            pv@.len() > 0,
            i <= sv.len(),
            out@ + replace(sv@.skip(i as int), pv@, rv@) == replace(s@, pat@, rep@),
        decreases sv.len() - i,
    {
        let ghost rest = sv@.skip(i as int);
        if matches_at(&sv, i, &pv) {
            assert(rest.take(pv@.len() as int) =~= sv@.subrange(i as int, i + pv@.len()));
            assert(rest.skip(pv@.len() as int) =~= sv@.skip(i + pv@.len()));
            let mut k: usize = 0;
            let ghost before = out@;
            while k < rv.len()
                invariant
                    k <= rv.len(),
                    out@ == before + rv@.take(k as int),
                decreases rv.len() - k,
            {
                out.push(rv[k]);
                k = k + 1;
                assert(out@ =~= before + rv@.take(k as int));
            }
            assert(rv@.take(rv@.len() as int) =~= rv@);
            assert(out@ + replace(sv@.skip(i + pv@.len()), pv@, rv@) =~= before + replace(rest, pv@, rv@));
            i = i + pv.len();
        } else {
            proof {
                if rest.len() >= pv@.len() {
                    assert(rest.take(pv@.len() as int) =~= sv@.subrange(i as int, i + pv@.len()));
                }
            }
            assert(rest.drop_first() =~= sv@.skip(i + 1));
            assert(rest[0] == sv@[i as int]);
            let ghost before = out@;
            out.push(sv[i]);
            assert(out@ + replace(sv@.skip(i + 1), pv@, rv@) =~= before + replace(rest, pv@, rv@));
            i = i + 1;
        }
    }
    assert(sv@.skip(i as int) =~= Seq::<char>::empty());
    assert(out@ =~= replace(s@, pat@, rep@));
    string_of(&out)
}

/// The decimal digits of `n`, most significant first, without leading zeros.
pub open spec fn decimal(n: nat) -> Seq<char>
    decreases n,
{
    if n < 10 {
        seq![digit_char(n)]
    } else {
        decimal(n / 10).push(digit_char(n % 10))
    }
}

/// The ASCII digit for `d < 10`.
pub open spec fn digit_char(d: nat) -> char {
    (('0' as u32) + d) as char
}

fn digit(d: u64) -> (c: char)
    requires
        d < 10,
    ensures
        c == digit_char(d as nat),
{
    if d == 0 { '0' }
    else if d == 1 { '1' }
    else if d == 2 { '2' }
    else if d == 3 { '3' }
    else if d == 4 { '4' }
    else if d == 5 { '5' }
    else if d == 6 { '6' }
    else if d == 7 { '7' }
    else if d == 8 { '8' }
    else { '9' }
}

/// The decimal representation of `n` (what `n.to_string()` gives).
pub fn decimal_string(n: u64) -> (s: String)
    ensures
        s@ == decimal(n as nat),
    decreases n,
{
    if n < 10 {
        let mut s = String::new();
        push_char(&mut s, digit(n));
        assert(s@ =~= seq![digit_char(n as nat)]);
        s
    } else {
        let mut s = decimal_string(n / 10);
        push_char(&mut s, digit(n % 10));
        s
    }
}

/// Concatenation of two strings.
pub fn concat(a: &str, b: &str) -> (r: String)
    ensures
        r@ == a@ + b@,
{
    let mut r = owned(a);
    r.append(b);
    r
}

} // verus!
