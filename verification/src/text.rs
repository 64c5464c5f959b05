//! Character-level helpers on strings: white space, trimming, lowercasing
//! and decimal rendering.

use vstd::prelude::*;

verus! {

/// The characters of an optional string.
pub open spec fn opt_view(o: Option<String>) -> Option<Seq<char>> {
    match o {
        Some(s) => Some(s@),
        None => None,
    }
}

/// The characters that carry the Unicode `White_Space` property
/// (PropList.txt), which is what `char::is_whitespace` and `str::trim` use.
pub open spec fn is_white_space(c: char) -> bool {
    let u = c as u32;
    ||| 0x9 <= u <= 0xD
    ||| u == 0x20
    ||| u == 0x85
    ||| u == 0xA0
    ||| u == 0x1680
    ||| 0x2000 <= u <= 0x200A
    ||| u == 0x2028
    ||| u == 0x2029
    ||| u == 0x202F
    ||| u == 0x205F
    ||| u == 0x3000
}

/// Whether `c` is a white-space character.
pub fn char_is_white_space(c: char) -> (b: bool)
    ensures
        b == is_white_space(c),
{
    let u = c as u32;
    (0x9 <= u && u <= 0xD) || u == 0x20 || u == 0x85 || u == 0xA0 || u == 0x1680 || (0x2000 <= u
        && u <= 0x200A) || u == 0x2028 || u == 0x2029 || u == 0x202F || u == 0x205F || u == 0x3000
}

/// `s` without its leading white space.
pub open spec fn trim_start(s: Seq<char>) -> Seq<char>
    decreases s.len(),
{
    if s.len() > 0 && is_white_space(s[0]) {
        trim_start(s.drop_first())
    } else {
        s
    }
}

/// `s` without its trailing white space.
pub open spec fn trim_end(s: Seq<char>) -> Seq<char>
    decreases s.len(),
{
    if s.len() > 0 && is_white_space(s.last()) {
        trim_end(s.drop_last())
    } else {
        s
    }
}

/// `s` without leading and trailing white space.
pub open spec fn trimmed(s: Seq<char>) -> Seq<char> {
    trim_end(trim_start(s))
}

/// `trim_start` drops a prefix of white space.
proof fn lemma_trim_start_prefix(s: Seq<char>) -> (k: int)
    ensures
        0 <= k <= s.len(),
        trim_start(s) == s.skip(k),
        forall|j: int| 0 <= j < k ==> is_white_space(#[trigger] s[j]),
        k < s.len() ==> !is_white_space(s[k]),
    decreases s.len(),
{
    if s.len() > 0 && is_white_space(s[0]) {
        let k = lemma_trim_start_prefix(s.drop_first());
        assert(s.drop_first().skip(k) =~= s.skip(k + 1));
        assert forall|j: int| 0 <= j < k + 1 implies is_white_space(#[trigger] s[j]) by {
            if j > 0 {
                assert(s[j] == s.drop_first()[j - 1]);
            }
        }
        assert(k + 1 < s.len() ==> s[k + 1] == s.drop_first()[k]);
        k + 1
    } else {
        assert(s.skip(0) =~= s);
        0
    }
}

/// `trim_end` drops a suffix of white space.
proof fn lemma_trim_end_suffix(s: Seq<char>) -> (m: int)
    ensures
        0 <= m <= s.len(),
        trim_end(s) == s.take(m),
        forall|j: int| m <= j < s.len() ==> is_white_space(#[trigger] s[j]),
        m > 0 ==> !is_white_space(s[m - 1]),
    decreases s.len(),
{
    if s.len() > 0 && is_white_space(s.last()) {
        let m = lemma_trim_end_suffix(s.drop_last());
        assert(s.drop_last().take(m) =~= s.take(m));
        assert forall|j: int| m <= j < s.len() implies is_white_space(#[trigger] s[j]) by {
            if j < s.len() - 1 {
                assert(s[j] == s.drop_last()[j]);
            }
        }
        assert(m > 0 ==> s[m - 1] == s.drop_last()[m - 1]);
        m
    } else {
        assert(s.take(s.len() as int) =~= s);
        s.len() as int
    }
}

/// `trimmed(s)` is a stretch of `s` with only white space around it, and
/// neither begins nor ends with white space.
pub proof fn lemma_trimmed(s: Seq<char>) -> (r: (int, int))
    ensures
        0 <= r.0 <= r.1 <= s.len(),
        trimmed(s) == s.subrange(r.0, r.1),
        forall|j: int| 0 <= j < r.0 ==> is_white_space(#[trigger] s[j]),
        forall|j: int| r.1 <= j < s.len() ==> is_white_space(#[trigger] s[j]),
        trimmed(s).len() > 0 ==> !is_white_space(trimmed(s)[0]) && !is_white_space(
            trimmed(s).last(),
        ),
{
    let k = lemma_trim_start_prefix(s);
    let t = s.skip(k);
    let m = lemma_trim_end_suffix(t);
    assert(t.take(m) =~= s.subrange(k, k + m));
    assert forall|j: int| k + m <= j < s.len() implies is_white_space(#[trigger] s[j]) by {
        assert(s[j] == t[j - k]);
    }
    if trimmed(s).len() > 0 {
        assert(trimmed(s)[0] == s[k]);
        assert(trimmed(s).last() == t[m - 1]);
    }
    (k, k + m)
}

/// A string that neither begins nor ends with white space is its own
/// trimming.
pub proof fn lemma_untrimmed(s: Seq<char>)
    requires
        s.len() > 0,
        !is_white_space(s[0]),
        !is_white_space(s.last()),
    ensures
        trimmed(s) == s,
{
    assert(trim_start(s) == s);
}

/// Appends `c` to `s`, by `String::push`.
#[verifier::external_body]
pub(crate) fn push_char(s: &mut String, c: char)
    ensures
        final(s)@ == old(s)@.push(c),
{
    s.push(c)
}

/// The decimal digit for `d`.
pub open spec fn digit_char(d: nat) -> char {
    if d == 0 { '0' }
    else if d == 1 { '1' }
    else if d == 2 { '2' }
    else if d == 3 { '3' }
    else if d == 4 { '4' }
    else if d == 5 { '5' }
    else if d == 6 { '6' }
    else if d == 7 { '7' }
    else if d == 8 { '8' }
    else { '9' }
}

/// The decimal representation of `n`, as `Display` writes an unsigned
/// integer: no sign, no leading zeros, `0` for zero.
pub open spec fn decimal(n: nat) -> Seq<char>
    decreases n,
{
    if n < 10 {
        seq![digit_char(n)]
    } else {
        decimal(n / 10).push(digit_char(n % 10))
    }
}

fn digit(d: u32) -> (c: char)
    requires
        d < 10,
    ensures
        c == digit_char(d as nat),
{
    if d == 0 { '0' }
    else if d == 1 { '1' }
    else if d == 2 { '2' }
    else if d == 3 { '3' }
    else if d == 4 { '4' }
    else if d == 5 { '5' }
    else if d == 6 { '6' }
    else if d == 7 { '7' }
    else if d == 8 { '8' }
    else { '9' }
}

/// Appends the decimal representation of `n` to `s`.
pub fn push_decimal(s: &mut String, n: u32)
    ensures
        final(s)@ == old(s)@ + decimal(n as nat),
    decreases n,
{
    if n < 10 {
        push_char(s, digit(n));
        assert(old(s)@.push(digit_char(n as nat)) =~= old(s)@ + decimal(n as nat));
    } else {
        push_decimal(s, n / 10);
        push_char(s, digit(n % 10));
        assert(old(s)@ + decimal((n / 10) as nat) + seq![digit_char((n % 10) as nat)]
            =~= old(s)@ + decimal(n as nat));
    }
}

/// The characters of `s`, in order.
pub fn chars_of(s: &str) -> (v: Vec<char>)
    ensures
        v@ == s@,
{
    let n = s.unicode_len();
    let mut v: Vec<char> = Vec::new();
    let mut i: usize = 0;
    while i < n
        invariant
            n == s@.len(),
            i <= n,
            v@ == s@.take(i as int),
        decreases n - i,
    {
        let c = s.get_char(i);
        v.push(c);
        i = i + 1;
        assert(v@ =~= s@.take(i as int));
    }
    assert(s@.take(n as int) =~= s@);
    v
}


proof fn lemma_trim_start_skip(s: Seq<char>, i: int)
    requires
        0 <= i < s.len(),
        is_white_space(s[i]),
    ensures
        trim_start(s.skip(i)) == trim_start(s.skip(i + 1)),
{
    assert(s.skip(i).drop_first() =~= s.skip(i + 1));
}

proof fn lemma_trim_end_take(s: Seq<char>, j: int)
    requires
        0 < j <= s.len(),
        is_white_space(s[j - 1]),
    ensures
        trim_end(s.take(j)) == trim_end(s.take(j - 1)),
{
    assert(s.take(j).drop_last() =~= s.take(j - 1));
}

/// Indices `(i, j)` such that `s[i..j]` is `s` trimmed.
fn trim_bounds(v: &Vec<char>) -> (r: (usize, usize))
    ensures
        r.0 <= r.1 <= v@.len(),
        v@.subrange(r.0 as int, r.1 as int) == trimmed(v@),
{
    let n = v.len();
    let mut i: usize = 0;
    assert(v@.skip(0) =~= v@);
    while i < n && char_is_white_space(v[i])
        invariant
            n == v@.len(),
            i <= n,
            trim_start(v@) == trim_start(v@.skip(i as int)),
        decreases n - i,
    {
        proof {
            lemma_trim_start_skip(v@, i as int);
        }
        i = i + 1;
    }
    assert(trim_start(v@) =~= v@.skip(i as int)) by {
        if i == n {
            assert(v@.skip(i as int) =~= Seq::<char>::empty());
        }
    }
    let ghost rest = v@.skip(i as int);
    let mut j: usize = n;
    assert(rest.take(n - i) =~= rest);
    while j > i && char_is_white_space(v[j - 1])
        invariant
            n == v@.len(),
            i <= j <= n,
            rest == v@.skip(i as int),
            trim_end(rest) == trim_end(rest.take(j - i)),
        decreases j - i,
    {
        proof {
            assert(rest[j - i - 1] == v@[j - 1]);
            lemma_trim_end_take(rest, j - i);
        }
        j = j - 1;
    }
    assert(trim_end(rest) =~= rest.take(j - i)) by {
        if j == i {
            assert(rest.take(0) =~= Seq::<char>::empty());
        } else {
            assert(rest.take(j - i).last() == v@[j - 1]);
        }
    }
    assert(rest.take(j - i) =~= v@.subrange(i as int, j as int));
    (i, j)
}

/// `s` without leading and trailing white space, as `str::trim` gives it.
pub fn trim(s: &str) -> (r: String)
    ensures
        r@ == trimmed(s@),
        r@.len() > 0 ==> !is_white_space(r@[0]) && !is_white_space(r@.last()),
{
    proof {
        lemma_trimmed(s@);
    }
    let v = chars_of(s);
    let (i, j) = trim_bounds(&v);
    let t = s.substring_char(i, j);
    t.to_owned()
}


/// What `str::to_lowercase` returns for a string with the characters `s`:
/// the Unicode lowercase mapping of the string.
pub uninterp spec fn lowercase(s: Seq<char>) -> Seq<char>;

/// Calls `str::to_lowercase`. Its result is the Unicode lowercase mapping of
/// the whole string (with the context rule for a final sigma), which depends
/// on the characters of `s` alone; the contract names it and says nothing
/// more of it.
#[verifier::external_body]
pub(crate) fn to_lowercase(s: &str) -> (r: String)
    ensures
        r@ == lowercase(s@),
{
    s.to_lowercase()
}

} // verus!
