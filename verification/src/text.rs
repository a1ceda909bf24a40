//! Character-sequence helpers shared by the header, cookie and form parsers.
//!
//! Every helper here works on `Vec<char>` (or `&str` turned into one) and is
//! specified over `Seq<char>`, so that the parsers above can be stated as
//! plain sequence functions.

use vstd::prelude::*;

verus! {

/// Unicode `White_Space`, the set that `char::is_whitespace` tests.
pub open spec fn is_ws(c: char) -> bool {
    let u = c as u32;
    ||| 0x09 <= u <= 0x0d
    ||| u == 0x20
    ||| u == 0x85
    ||| u == 0xa0
    ||| u == 0x1680
    ||| 0x2000 <= u <= 0x200a
    ||| u == 0x2028
    ||| u == 0x2029
    ||| u == 0x202f
    ||| u == 0x205f
    ||| u == 0x3000
}

/// Whether `c` is Unicode whitespace.
pub fn is_whitespace(c: char) -> (b: bool)
    ensures
        b == is_ws(c),
{
    let u: u32 = c as u32;
    (0x09 <= u && u <= 0x0d) || u == 0x20 || u == 0x85 || u == 0xa0 || u == 0x1680 || (0x2000
        <= u && u <= 0x200a) || u == 0x2028 || u == 0x2029 || u == 0x202f || u == 0x205f || u
        == 0x3000
}

/// The index of the first `x` in `s`, or `s.len()` when there is none.
pub open spec fn first_index<A>(s: Seq<A>, x: A) -> int
    decreases s.len(),
{
    if s.len() == 0 {
        0
    } else if s[0] == x {
        0
    } else {
        1 + first_index(s.drop_first(), x)
    }
}

/// What characterises `first_index`: it is in range, it points at `x` when
/// below the length, and nothing before it is `x`.
pub proof fn lemma_first_index<A>(s: Seq<A>, x: A)
    ensures
        0 <= first_index(s, x) <= s.len(),
        first_index(s, x) < s.len() ==> s[first_index(s, x)] == x,
        forall|j: int| 0 <= j < first_index(s, x) ==> s[j] != x,
    decreases s.len(),
{
    if s.len() > 0 && s[0] != x {
        lemma_first_index(s.drop_first(), x);
        assert forall|j: int| 0 <= j < first_index(s, x) implies s[j] != x by {
            if j > 0 {
                assert(s[j] == s.drop_first()[j - 1]);
            }
        }
    }
}

/// An index with the characterising properties is `first_index`.
pub proof fn lemma_first_index_unique<A>(s: Seq<A>, x: A, k: int)
    requires
        0 <= k <= s.len(),
        k < s.len() ==> s[k] == x,
        forall|j: int| 0 <= j < k ==> s[j] != x,
    ensures
        first_index(s, x) == k,
    decreases s.len(),
{
    if s.len() > 0 && s[0] != x {
        assert forall|j: int| 0 <= j < k - 1 implies s.drop_first()[j] != x by {
            assert(s.drop_first()[j] == s[j + 1]);
        }
        lemma_first_index_unique(s.drop_first(), x, k - 1);
    }
}

/// Whether `x` occurs in `s`.
pub open spec fn occurs<A>(s: Seq<A>, x: A) -> bool {
    exists|i: int| 0 <= i < s.len() && s[i] == x
}

/// `s` with leading whitespace removed.
pub open spec fn trim_start(s: Seq<char>) -> Seq<char>
    decreases s.len(),
{
    if s.len() > 0 && is_ws(s[0]) {
        trim_start(s.drop_first())
    } else {
        s
    }
}

/// `s` with trailing whitespace removed.
pub open spec fn trim_end(s: Seq<char>) -> Seq<char>
    decreases s.len(),
{
    if s.len() > 0 && is_ws(s.last()) {
        trim_end(s.drop_last())
    } else {
        s
    }
}

/// `s` with whitespace removed at both ends, as `str::trim` does.
pub open spec fn trim(s: Seq<char>) -> Seq<char> {
    trim_end(trim_start(s))
}

/// `s` with every leading and trailing `c` removed, as `str::trim_matches`
/// does for a single character.
pub open spec fn strip_char(s: Seq<char>, c: char) -> Seq<char> {
    strip_char_end(strip_char_start(s, c), c)
}

pub open spec fn strip_char_start(s: Seq<char>, c: char) -> Seq<char>
    decreases s.len(),
{
    if s.len() > 0 && s[0] == c {
        strip_char_start(s.drop_first(), c)
    } else {
        s
    }
}

pub open spec fn strip_char_end(s: Seq<char>, c: char) -> Seq<char>
    decreases s.len(),
{
    if s.len() > 0 && s.last() == c {
        strip_char_end(s.drop_last(), c)
    } else {
        s
    }
}

/// Whether `pat` occurs in `s` as a contiguous run.
pub open spec fn contains_seq(s: Seq<char>, pat: Seq<char>) -> bool {
    exists|i: int| 0 <= i && i + pat.len() <= s.len() && #[trigger] s.subrange(i, i + pat.len()) == pat
}

/// Whether `s` begins with `pat`.
pub open spec fn starts_with(s: Seq<char>, pat: Seq<char>) -> bool {
    pat.len() <= s.len() && s.subrange(0, pat.len() as int) == pat
}

/// Appends `c` to `s`.
#[verifier::external_body]
pub fn push_char(s: &mut String, c: char)
    ensures
        final(s)@ == old(s)@.push(c),
{
    s.push(c);
}

/// The characters of `s`.
pub fn chars_of(s: &str) -> (out: Vec<char>)
    ensures
        out@ == s@,
{
    let mut out: Vec<char> = Vec::new();
    for c in it: s.chars()
        invariant
            out@ == it.seq().take(it.index() as int),
            it.seq() == s@,
    {
        out.push(c);
    }
    out
}

/// The string made of `v[lo..hi]`.
pub fn string_of(v: &Vec<char>, lo: usize, hi: usize) -> (s: String)
    requires
        lo <= hi <= v.len(),
    ensures
        s@ == v@.subrange(lo as int, hi as int),
{
    let mut s = String::new();
    let mut i: usize = lo;
    while i < hi
        invariant
            lo <= i <= hi <= v.len(),
            s@ == v@.subrange(lo as int, i as int),
        decreases hi - i,
    {
        push_char(&mut s, v[i]);
        i = i + 1;
        assert(s@ =~= v@.subrange(lo as int, i as int));
    }
    s
}

/// `v[lo..hi]` as a vector.
pub fn sub_chars(v: &Vec<char>, lo: usize, hi: usize) -> (out: Vec<char>)
    requires
        lo <= hi <= v.len(),
    ensures
        out@ == v@.subrange(lo as int, hi as int),
{
    let mut out: Vec<char> = Vec::new();
    let mut i: usize = lo;
    while i < hi
        invariant
            lo <= i <= hi <= v.len(),
            out@ == v@.subrange(lo as int, i as int),
        decreases hi - i,
    {
        out.push(v[i]);
        i = i + 1;
        assert(out@ =~= v@.subrange(lo as int, i as int));
    }
    out
}

/// The index of the first `c` in `v[from..]`, counted from the start of `v`,
/// or `v.len()` when there is none.
pub fn find_char(v: &Vec<char>, c: char, from: usize) -> (k: usize)
    requires
        from <= v.len(),
    ensures
        k == from + first_index(v@.subrange(from as int, v.len() as int), c),
        from <= k <= v.len(),
        k < v.len() ==> v@[k as int] == c,
        forall|j: int| from <= j < k ==> v@[j] != c,
{
    let ghost s = v@.subrange(from as int, v.len() as int);
    let mut k: usize = from;
    while k < v.len() && v[k] != c
        invariant
            from <= k <= v.len(),
            s == v@.subrange(from as int, v.len() as int),
            forall|j: int| from <= j < k ==> v@[j] != c,
        decreases v.len() - k,
    {
        k = k + 1;
    }
    proof {
        assert forall|j: int| 0 <= j < k - from implies s[j] != c by {
            assert(s[j] == v@[j + from]);
        }
        lemma_first_index_unique(s, c, k - from);
    }
    k
}

/// Whether `c` occurs in `v`.
pub fn has_char(v: &Vec<char>, c: char) -> (b: bool)
    ensures
        b == occurs(v@, c),
{
    let k: usize = find_char(v, c, 0);
    assert(v@.subrange(0, v.len() as int) =~= v@);
    if k < v.len() {
        true
    } else {
        assert(!occurs(v@, c));
        false
    }
}

/// Whether `v` holds no whitespace.
pub fn no_whitespace(v: &Vec<char>) -> (b: bool)
    ensures
        b == (forall|i: int| 0 <= i < v.len() ==> !is_ws(#[trigger] v@[i])),
{
    let mut i: usize = 0;
    while i < v.len()
        invariant
            0 <= i <= v.len(),
            forall|j: int| 0 <= j < i ==> !is_ws(#[trigger] v@[j]),
        decreases v.len() - i,
    {
        if is_whitespace(v[i]) {
            return false;
        }
        i = i + 1;
    }
    true
}

/// `v` with whitespace removed at both ends.
pub fn trim_chars(v: &Vec<char>) -> (out: Vec<char>)
    ensures
        out@ == trim(v@),
{
    let n: usize = v.len();
    let mut a: usize = 0;
    assert(v@.subrange(0, n as int) =~= v@);
    while a < n && is_whitespace(v[a])
        invariant
            0 <= a <= n == v.len(),
            trim_start(v@) == trim_start(v@.subrange(a as int, n as int)),
        decreases n - a,
    {
        proof {
            let t = v@.subrange(a as int, n as int);
            assert(t.drop_first() =~= v@.subrange(a + 1, n as int));
        }
        a = a + 1;
    }
    let ghost t = v@.subrange(a as int, n as int);
    assert(trim_start(t) == t);
    let mut b: usize = n;
    while b > a && is_whitespace(v[b - 1])
        invariant
            a <= b <= n == v.len(),
            t == v@.subrange(a as int, n as int),
            trim_end(t) == trim_end(v@.subrange(a as int, b as int)),
        decreases b,
    {
        proof {
            let u = v@.subrange(a as int, b as int);
            assert(u.drop_last() =~= v@.subrange(a as int, b - 1));
        }
        b = b - 1;
    }
    sub_chars(v, a, b)
}

/// `v` with leading and trailing `c` removed.
pub fn strip_chars(v: &Vec<char>, c: char) -> (out: Vec<char>)
    ensures
        out@ == strip_char(v@, c),
{
    let n: usize = v.len();
    let mut a: usize = 0;
    assert(v@.subrange(0, n as int) =~= v@);
    while a < n && v[a] == c
        invariant
            0 <= a <= n == v.len(),
            strip_char_start(v@, c) == strip_char_start(v@.subrange(a as int, n as int), c),
        decreases n - a,
    {
        proof {
            let t = v@.subrange(a as int, n as int);
            assert(t.drop_first() =~= v@.subrange(a + 1, n as int));
        }
        a = a + 1;
    }
    let ghost t = v@.subrange(a as int, n as int);
    assert(strip_char_start(t, c) == t);
    let mut b: usize = n;
    while b > a && v[b - 1] == c
        invariant
            a <= b <= n == v.len(),
            t == v@.subrange(a as int, n as int),
            strip_char_end(t, c) == strip_char_end(v@.subrange(a as int, b as int), c),
        decreases b,
    {
        proof {
            let u = v@.subrange(a as int, b as int);
            assert(u.drop_last() =~= v@.subrange(a as int, b - 1));
        }
        b = b - 1;
    }
    sub_chars(v, a, b)
}

/// Whether `pat` occurs in `v`.
pub fn contains_chars(v: &Vec<char>, pat: &Vec<char>) -> (b: bool)
    ensures
        b == contains_seq(v@, pat@),
{
    if pat.len() > v.len() {
        return false;
    }
    let last: usize = v.len() - pat.len();
    let mut i: usize = 0;
    loop
        invariant
            last == v.len() - pat.len(),
            0 <= i <= last,
            forall|k: int|
                0 <= k < i ==> #[trigger] v@.subrange(k, k + pat.len()) != pat@,
        decreases last - i,
    {
        if starts_at(v, pat, i) {
            return true;
        }
        if i == last {
            return false;
        }
        i = i + 1;
    }
}

/// Whether `pat` occurs in `v` at index `i`.
pub fn starts_at(v: &Vec<char>, pat: &Vec<char>, i: usize) -> (b: bool)
    requires
        i + pat.len() <= v.len(),
    ensures
        b == (v@.subrange(i as int, i + pat.len()) == pat@),
{
    let mut j: usize = 0;
    while j < pat.len()
        invariant
            i + pat.len() <= v.len(),
            0 <= j <= pat.len(),
            forall|k: int| 0 <= k < j ==> v@[i + k] == pat@[k],
        decreases pat.len() - j,
    {
        if v[i + j] != pat[j] {
            assert(v@.subrange(i as int, i + pat.len())[j as int] != pat@[j as int]);
            return false;
        }
        j = j + 1;
    }
    assert(v@.subrange(i as int, i + pat.len()) =~= pat@);
    true
}

/// Whether `v` begins with `pat`.
pub fn starts_with_chars(v: &Vec<char>, pat: &Vec<char>) -> (b: bool)
    ensures
        b == starts_with(v@, pat@),
{
    if pat.len() > v.len() {
        false
    } else {
        starts_at(v, pat, 0)
    }
}

/// Whether `a` and `b` hold the same characters.
pub fn same_chars(a: &Vec<char>, b: &Vec<char>) -> (r: bool)
    ensures
        r == (a@ == b@),
{
    if a.len() != b.len() {
        return false;
    }
    let r = starts_at(a, b, 0);
    assert(a@.subrange(0, b.len() as int) =~= a@);
    r
}

/// Appends the characters of `v` to `s`.
pub fn push_all(s: &mut String, v: &Vec<char>)
    ensures
        final(s)@ == old(s)@ + v@,
{
    let mut i: usize = 0;
    while i < v.len()
        invariant
            0 <= i <= v.len(),
            s@ == old(s)@ + v@.subrange(0, i as int),
        decreases v.len() - i,
    {
        push_char(s, v[i]);
        i = i + 1;
        assert(s@ =~= old(s)@ + v@.subrange(0, i as int));
    }
    assert(v@.subrange(0, v.len() as int) =~= v@);
}

/// The decimal digits of `n`.
pub open spec fn decimal(n: nat) -> Seq<char>
    decreases n,
{
    if n < 10 {
        seq![digit_char(n)]
    } else {
        decimal(n / 10).push(digit_char(n % 10))
    }
}

pub open spec fn digit_char(d: nat) -> char {
    (('0' as u32) + d) as char
}

/// The decimal text of a signed integer, with a leading `-` when negative.
pub open spec fn signed_decimal(n: int) -> Seq<char> {
    if n < 0 {
        seq!['-'] + decimal((-n) as nat)
    } else {
        decimal(n as nat)
    }
}

fn digit(d: u64) -> (c: char)
    requires
        d < 10,
    ensures
        c == digit_char(d as nat),
{
    if d == 0 {
        '0'
    } else if d == 1 {
        '1'
    } else if d == 2 {
        '2'
    } else if d == 3 {
        '3'
    } else if d == 4 {
        '4'
    } else if d == 5 {
        '5'
    } else if d == 6 {
        '6'
    } else if d == 7 {
        '7'
    } else if d == 8 {
        '8'
    } else {
        '9'
    }
}

/// Appends the decimal digits of `n` to `s`.
pub fn push_decimal(s: &mut String, n: u64)
    ensures
        final(s)@ == old(s)@ + decimal(n as nat),
    decreases n,
{
    if n < 10 {
        push_char(s, digit(n));
        assert(decimal(n as nat) =~= seq![digit_char(n as nat)]);
    } else {
        push_decimal(s, n / 10);
        push_char(s, digit(n % 10));
        assert(s@ =~= old(s)@ + decimal(n as nat));
    }
}

/// Appends the decimal text of `n` to `s`.
pub fn push_signed_decimal(s: &mut String, n: i64)
    requires
        n > i64::MIN,
    ensures
        final(s)@ == old(s)@ + signed_decimal(n as int),
{
    if n < 0 {
        push_char(s, '-');
        push_decimal(s, (-n) as u64);
        assert(s@ =~= old(s)@ + signed_decimal(n as int));
    } else {
        push_decimal(s, n as u64);
    }
}

/// The elements of `list` joined with `sep` between neighbours.
pub open spec fn seq_join(list: Seq<Seq<char>>, sep: Seq<char>) -> Seq<char>
    decreases list.len(),
{
    if list.len() == 0 {
        seq![]
    } else if list.len() == 1 {
        list[0]
    } else {
        seq_join(list.drop_last(), sep) + sep + list.last()
    }
}

/// The texts of a list of string slices.
pub open spec fn str_views(list: Seq<&str>) -> Seq<Seq<char>> {
    list.map_values(|s: &str| s@)
}

/// The texts of a list of character vectors.
pub open spec fn vec_views(list: Seq<Vec<char>>) -> Seq<Seq<char>> {
    list.map_values(|v: Vec<char>| v@)
}

/// Joins `list` with `sep`, as `[&str]::join` does.
pub fn join_strs(list: &[&str], sep: &str) -> (s: String)
    ensures
        s@ == seq_join(str_views(list@), sep@),
{
    let mut s = String::new();
    let ghost views = str_views(list@);
    let mut i: usize = 0;
    while i < list.len()
        invariant
            0 <= i <= list@.len(),
            views == str_views(list@),
            s@ == seq_join(views.take(i as int), sep@),
        decreases list@.len() - i,
    {
        if i != 0 {
            s.append(sep);
        }
        s.append(list[i]);
        assert(views.take(i + 1).drop_last() =~= views.take(i as int));
        i = i + 1;
    }
    assert(views.take(list@.len() as int) =~= views);
    s
}

/// Joins the character vectors of `list` with `sep`.
pub fn join_vecs(list: &Vec<Vec<char>>, sep: &str) -> (s: String)
    ensures
        s@ == seq_join(vec_views(list@), sep@),
{
    let mut s = String::new();
    let ghost views = vec_views(list@);
    let mut i: usize = 0;
    while i < list.len()
        invariant
            0 <= i <= list@.len(),
            views == vec_views(list@),
            s@ == seq_join(views.take(i as int), sep@),
        decreases list@.len() - i,
    {
        if i != 0 {
            s.append(sep);
        }
        push_all(&mut s, &list[i]);
        assert(views.take(i + 1).drop_last() =~= views.take(i as int));
        i = i + 1;
    }
    assert(views.take(list@.len() as int) =~= views);
    s
}

} // verus!
