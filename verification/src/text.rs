//! Character-level string helpers shared by the rest of the library.
use vstd::prelude::*;

verus! {

/// The characters of each string.
pub open spec fn texts(v: Seq<String>) -> Seq<Seq<char>> {
    v.map_values(|s: String| s@)
}

/// Appends one character to a string (`String::push`).
#[verifier::external_body]
pub fn push_char(s: &mut String, c: char)
    ensures
        final(s)@ == old(s)@.push(c),
{
    s.push(c);
}

/// The characters of `s`, in order.
pub fn chars_of(s: &str) -> (v: Vec<char>)
    ensures
        v@ == s@,
{
    let mut v: Vec<char> = Vec::new();
    for c in it: s.chars()
        invariant
            v@ == it.seq().take(it.index() as int),
    {
        v.push(c);
    }
    v
}

/// A string holding the characters `v[from..to]`.
pub fn string_from_range(v: &Vec<char>, from: usize, to: usize) -> (s: String)
    requires
        from <= to <= v.len(),
    ensures
        s@ == v@.subrange(from as int, to as int),
{
    let mut s = String::new();
    let mut i = from;
    while i < to
        invariant
            from <= i <= to <= v.len(),
            s@ == v@.subrange(from as int, i as int),
        decreases to - i,
    {
        push_char(&mut s, v[i]);
        i = i + 1;
        assert(s@ =~= v@.subrange(from as int, i as int));
    }
    s
}

/// A string holding exactly the characters of `v`.
pub fn string_from_chars(v: &Vec<char>) -> (s: String)
    ensures
        s@ == v@,
{
    let s = string_from_range(v, 0, v.len());
    assert(v@.subrange(0, v@.len() as int) =~= v@);
    s
}

/// Appends all characters of `v` to `s`.
pub fn append_chars(s: &mut String, v: &Vec<char>)
    ensures
        final(s)@ == old(s)@ + v@,
{
    let ghost start = s@;
    let mut i: usize = 0;
    while i < v.len()
        invariant
            i <= v.len(),
            s@ == start + v@.take(i as int),
        decreases v.len() - i,
    {
        push_char(s, v[i]);
        i = i + 1;
        assert(s@ =~= start + v@.take(i as int));
    }
    assert(v@.take(v@.len() as int) =~= v@);
}

/// Whether two strings hold the same characters.
pub fn str_eq(a: &str, b: &str) -> (r: bool)
    ensures
        r == (a@ == b@),
{
    let x = chars_of(a);
    let y = chars_of(b);
    if x.len() != y.len() {
        return false;
    }
    let mut i: usize = 0;
    while i < x.len()
        invariant
            x@ == a@,
            y@ == b@,
            x.len() == y.len(),
            i <= x.len(),
            forall|j: int| 0 <= j < i ==> x@[j] == y@[j],
        decreases x.len() - i,
    {
        if x[i] != y[i] {
            return false;
        }
        i = i + 1;
    }
    assert(x@ =~= y@);
    true
}

/// Whether `s` contains the character `c`.
pub fn contains_char(s: &str, c: char) -> (r: bool)
    ensures
        r == s@.contains(c),
{
    let v = chars_of(s);
    let mut i: usize = 0;
    while i < v.len()
        invariant
            v@ == s@,
            i <= v.len(),
            forall|j: int| 0 <= j < i ==> v@[j] != c,
        decreases v.len() - i,
    {
        if v[i] == c {
            assert(s@[i as int] == c);
            return true;
        }
        i = i + 1;
    }
    false
}

// ---------------------------------------------------------------------------
// Pattern replacement

/// `pat` occurs in `s` at position `i`.
pub open spec fn occurs_at(s: Seq<char>, pat: Seq<char>, i: int) -> bool {
    0 <= i && i + pat.len() <= s.len() && s.subrange(i, i + pat.len()) == pat
}

/// Every non-overlapping occurrence of `pat` in `s`, scanning from the left,
/// replaced by `val`; the result of `str::replace`.
pub open spec fn replace_all(s: Seq<char>, pat: Seq<char>, val: Seq<char>) -> Seq<char>
    decreases s.len(),
{
    if pat.len() == 0 || s.len() == 0 {
        s
    } else if occurs_at(s, pat, 0) {
        val + replace_all(s.skip(pat.len() as int), pat, val)
    } else {
        seq![s[0]] + replace_all(s.skip(1), pat, val)
    }
}

/// Whether `pat` occurs in `v` at position `i`.
fn matches_at(v: &Vec<char>, pat: &Vec<char>, i: usize) -> (r: bool)
    requires
        i <= v.len(),
    ensures
        r == occurs_at(v@, pat@, i as int),
{
    if pat.len() > v.len() - i {
        return false;
    }
    let mut k: usize = 0;
    while k < pat.len()
        invariant
            i + pat.len() <= v.len(),
            k <= pat.len(),
            forall|j: int| 0 <= j < k ==> v@[i + j] == pat@[j],
        decreases pat.len() - k,
    {
        if v[i + k] != pat[k] {
            assert(v@.subrange(i as int, i + pat.len())[k as int] != pat@[k as int]);
            return false;
        }
        k = k + 1;
    }
    assert(v@.subrange(i as int, i + pat.len()) =~= pat@);
    true
}

proof fn lemma_skip_skip(s: Seq<char>, a: int, b: int)
    requires
        0 <= a,
        0 <= b,
        a + b <= s.len(),
    ensures
        s.skip(a).skip(b) == s.skip(a + b),
{
    assert(s.skip(a).skip(b) =~= s.skip(a + b));
}

proof fn lemma_occurs_skip(s: Seq<char>, pat: Seq<char>, i: int)
    requires
        0 <= i <= s.len(),
    ensures
        occurs_at(s, pat, i) == occurs_at(s.skip(i), pat, 0),
{
    if i + pat.len() <= s.len() {
        assert(s.subrange(i, i + pat.len()) =~= s.skip(i).subrange(0, pat.len() as int));
    }
}

/// `s` with every occurrence of `pat` replaced by `val`, scanning from the left
/// (`str::replace`).
pub fn replace_all_exec(s: &str, pat: &str, val: &str) -> (r: String)
    ensures
        r@ == replace_all(s@, pat@, val@),
{
    let v = chars_of(s);
    let p = chars_of(pat);
    let w = chars_of(val);
    let mut out = String::new();
    if p.len() == 0 {
        append_chars(&mut out, &v);
        assert(out@ =~= s@);
        return out;
    }
    let mut i: usize = 0;
    assert(v@.skip(0) =~= v@);
    while i < v.len()
        invariant
            v@ == s@,
            p@ == pat@,
            w@ == val@,
            p.len() > 0,
            i <= v.len(),
            out@ + replace_all(v@.skip(i as int), p@, w@) == replace_all(v@, p@, w@),
        decreases v.len() - i,
    {
        let ghost rest = v@.skip(i as int);
        proof {
            lemma_occurs_skip(v@, p@, i as int);
        }
        if matches_at(&v, &p, i) {
            proof {
                lemma_skip_skip(v@, i as int, p.len() as int);
                assert(replace_all(rest, p@, w@) == w@ + replace_all(
                    rest.skip(p@.len() as int),
                    p@,
                    w@,
                ));
            }
            append_chars(&mut out, &w);
            i = i + p.len();
            assert(out@ + replace_all(v@.skip(i as int), p@, w@) =~= replace_all(v@, p@, w@));
        } else {
            proof {
                lemma_skip_skip(v@, i as int, 1);
                assert(rest[0] == v@[i as int]);
                assert(replace_all(rest, p@, w@) == seq![v@[i as int]] + replace_all(
                    rest.skip(1),
                    p@,
                    w@,
                ));
            }
            push_char(&mut out, v[i]);
            i = i + 1;
            assert(out@ + replace_all(v@.skip(i as int), p@, w@) =~= replace_all(v@, p@, w@));
        }
    }
    assert(v@.skip(i as int) =~= Seq::<char>::empty());
    assert(out@ + Seq::<char>::empty() =~= out@);
    out
}


// ---------------------------------------------------------------------------
// Whitespace and trimming

/// The Unicode `White_Space` characters (`char::is_whitespace`).
pub open spec fn is_white_space(c: char) -> bool {
    let n = c as u32;
    ||| 0x09 <= n <= 0x0D
    ||| n == 0x20
    ||| n == 0x85
    ||| n == 0xA0
    ||| n == 0x1680
    ||| 0x2000 <= n <= 0x200A
    ||| n == 0x2028
    ||| n == 0x2029
    ||| n == 0x202F
    ||| n == 0x205F
    ||| n == 0x3000
}

/// `char::is_whitespace`.
pub fn is_white_space_exec(c: char) -> (r: bool)
    ensures
        r == is_white_space(c),
{
    let n = c as u32;
    (0x09 <= n && n <= 0x0D) || n == 0x20 || n == 0x85 || n == 0xA0 || n == 0x1680 || (0x2000
        <= n && n <= 0x200A) || n == 0x2028 || n == 0x2029 || n == 0x202F || n == 0x205F || n
        == 0x3000
}

/// `s` without its leading whitespace.
pub open spec fn trim_start(s: Seq<char>) -> Seq<char>
    decreases s.len(),
{
    if s.len() > 0 && is_white_space(s[0]) {
        trim_start(s.drop_first())
    } else {
        s
    }
}

/// `s` without its trailing whitespace.
pub open spec fn trim_end(s: Seq<char>) -> Seq<char>
    decreases s.len(),
{
    if s.len() > 0 && is_white_space(s.last()) {
        trim_end(s.drop_last())
    } else {
        s
    }
}

/// `s` without leading and trailing whitespace (`str::trim`).
pub open spec fn trim(s: Seq<char>) -> Seq<char> {
    trim_end(trim_start(s))
}

proof fn lemma_trim_start_at(s: Seq<char>, a: int)
    requires
        0 <= a <= s.len(),
        forall|j: int| 0 <= j < a ==> is_white_space(s[j]),
        a == s.len() || !is_white_space(s[a]),
    ensures
        trim_start(s) == s.skip(a),
    decreases a,
{
    if a == 0 {
        assert(s.skip(0) =~= s);
    } else {
        let t = s.drop_first();
        assert forall|j: int| 0 <= j < a - 1 implies is_white_space(t[j]) by {
            assert(t[j] == s[j + 1]);
        }
        if a - 1 < t.len() {
            assert(t[a - 1] == s[a]);
        }
        lemma_trim_start_at(t, a - 1);
        assert(t.skip(a - 1) =~= s.skip(a));
    }
}

proof fn lemma_trim_end_at(s: Seq<char>, b: int)
    requires
        0 <= b <= s.len(),
        forall|j: int| b <= j < s.len() ==> is_white_space(s[j]),
        b == 0 || !is_white_space(s[b - 1]),
    ensures
        trim_end(s) == s.take(b),
    decreases s.len() - b,
{
    if b == s.len() {
        assert(s.take(b) =~= s);
    } else {
        let t = s.drop_last();
        assert forall|j: int| b <= j < t.len() implies is_white_space(t[j]) by {
            assert(t[j] == s[j]);
        }
        if b > 0 {
            assert(t[b - 1] == s[b - 1]);
        }
        lemma_trim_end_at(t, b);
        assert(t.take(b) =~= s.take(b));
    }
}

/// `s` without leading and trailing whitespace, as characters.
pub fn trim_chars(v: &Vec<char>) -> (r: Vec<char>)
    ensures
        r@ == trim(v@),
{
    let mut a: usize = 0;
    while a < v.len() && is_white_space_exec(v[a])
        invariant
            a <= v.len(),
            forall|j: int| 0 <= j < a ==> is_white_space(v@[j]),
        decreases v.len() - a,
    {
        a = a + 1;
    }
    proof {
        lemma_trim_start_at(v@, a as int);
    }
    let ghost t = v@.skip(a as int);
    let mut b: usize = v.len();
    while b > a && is_white_space_exec(v[b - 1])
        invariant
            a <= b <= v.len(),
            forall|j: int| b <= j < v.len() ==> is_white_space(v@[j]),
        decreases b,
    {
        b = b - 1;
    }
    proof {
        assert forall|j: int| b - a <= j < t.len() implies is_white_space(t[j]) by {
            assert(t[j] == v@[j + a]);
        }
        if b > a {
            assert(t[b - a - 1] == v@[b - 1]);
        }
        lemma_trim_end_at(t, (b - a) as int);
        assert(t.take((b - a) as int) =~= v@.subrange(a as int, b as int));
    }
    let mut r: Vec<char> = Vec::new();
    let mut i = a;
    while i < b
        invariant
            a <= i <= b <= v.len(),
            r@ == v@.subrange(a as int, i as int),
        decreases b - i,
    {
        r.push(v[i]);
        i = i + 1;
        assert(r@ =~= v@.subrange(a as int, i as int));
    }
    r
}

/// `s` without leading and trailing whitespace (`str::trim`).
pub fn trim_exec(s: &str) -> (r: String)
    ensures
        r@ == trim(s@),
{
    let v = chars_of(s);
    let t = trim_chars(&v);
    string_from_chars(&t)
}

// ---------------------------------------------------------------------------
// Splitting

/// The pieces of `s` between occurrences of `sep` (`str::split` with a character):
/// there is always at least one piece, and `k` separators give `k + 1` pieces.
pub open spec fn split_char(s: Seq<char>, sep: char) -> Seq<Seq<char>>
    decreases s.len(),
{
    if s.len() == 0 {
        seq![Seq::<char>::empty()]
    } else {
        let rest = split_char(s.drop_first(), sep);
        if s[0] == sep {
            seq![Seq::<char>::empty()] + rest
        } else {
            rest.update(0, seq![s[0]] + rest[0])
        }
    }
}

/// `rest` with `cur` put in front of its first piece.
pub open spec fn prepend_first(cur: Seq<char>, rest: Seq<Seq<char>>) -> Seq<Seq<char>> {
    rest.update(0, cur + rest[0])
}

pub proof fn lemma_split_char_nonempty(s: Seq<char>, sep: char)
    ensures
        split_char(s, sep).len() >= 1,
    decreases s.len(),
{
    if s.len() > 0 {
        lemma_split_char_nonempty(s.drop_first(), sep);
    }
}

/// The pieces of `v` between occurrences of `sep`.
pub fn split_chars(v: &Vec<char>, sep: char) -> (r: Vec<Vec<char>>)
    ensures
        r@.len() == split_char(v@, sep).len(),
        forall|k: int| 0 <= k < r@.len() ==> #[trigger] r@[k]@ == split_char(v@, sep)[k],
{
    let mut done: Vec<Vec<char>> = Vec::new();
    let ghost dv: Seq<Seq<char>> = Seq::empty();
    let mut cur: Vec<char> = Vec::new();
    let mut i: usize = 0;
    proof {
        assert(v@.skip(0) =~= v@);
        lemma_split_char_nonempty(v@, sep);
        let sp = split_char(v@, sep);
        assert(Seq::<char>::empty() + sp[0] =~= sp[0]);
        assert(dv + prepend_first(cur@, sp) =~= sp);
    }
    while i < v.len()
        invariant
            i <= v.len(),
            done@.len() == dv.len(),
            forall|k: int| 0 <= k < dv.len() ==> #[trigger] done@[k]@ == dv[k],
            split_char(v@, sep) == dv + prepend_first(cur@, split_char(v@.skip(i as int), sep)),
        decreases v.len() - i,
    {
        let ghost s = v@.skip(i as int);
        let ghost rest = split_char(s.drop_first(), sep);
        proof {
            lemma_split_char_nonempty(s.drop_first(), sep);
            assert(s.drop_first() =~= v@.skip(i + 1));
            assert(s[0] == v@[i as int]);
        }
        if v[i] == sep {
            proof {
                assert(split_char(s, sep) == seq![Seq::<char>::empty()] + rest);
                assert(prepend_first(cur@, split_char(s, sep)) =~= seq![cur@] + prepend_first(
                    Seq::empty(),
                    rest,
                )) by {
                    assert(Seq::<char>::empty() + rest[0] =~= rest[0]);
                }
                assert(prepend_first(Seq::<char>::empty(), rest) =~= rest) by {
                    assert(Seq::<char>::empty() + rest[0] =~= rest[0]);
                }
                dv = dv.push(cur@);
            }
            done.push(cur);
            cur = Vec::new();
            proof {
                assert(prepend_first(cur@, rest) =~= rest) by {
                    assert(cur@ + rest[0] =~= rest[0]);
                }
            }
        } else {
            proof {
                assert(split_char(s, sep) == rest.update(0, seq![s[0]] + rest[0]));
                assert(prepend_first(cur@, split_char(s, sep)) =~= prepend_first(
                    cur@.push(v@[i as int]),
                    rest,
                )) by {
                    assert(cur@ + (seq![v@[i as int]] + rest[0]) =~= cur@.push(v@[i as int])
                        + rest[0]);
                }
            }
            cur.push(v[i]);
        }
        i = i + 1;
    }
    proof {
        assert(v@.skip(i as int) =~= Seq::<char>::empty());
        assert(prepend_first(cur@, seq![Seq::<char>::empty()]) =~= seq![cur@]) by {
            assert(cur@ + Seq::<char>::empty() =~= cur@);
        }
        dv = dv.push(cur@);
    }
    done.push(cur);
    assert(split_char(v@, sep) =~= dv);
    done
}

/// Splitting a text that lacks `sep` gives the text itself.
pub proof fn lemma_split_char_absent(s: Seq<char>, sep: char)
    requires
        !s.contains(sep),
    ensures
        split_char(s, sep) == seq![s],
    decreases s.len(),
{
    if s.len() > 0 {
        let t = s.drop_first();
        assert(!t.contains(sep)) by {
            if t.contains(sep) {
                let j = choose|j: int| 0 <= j < t.len() && t[j] == sep;
                assert(s[j + 1] == sep);
            }
        }
        lemma_split_char_absent(t, sep);
        assert(s[0] != sep);
        assert(seq![s[0]] + t =~= s);
        assert(seq![s] =~= seq![t].update(0, seq![s[0]] + t));
    } else {
        assert(s =~= Seq::<char>::empty());
    }
}

/// A text that neither starts nor ends with whitespace is its own trim.
pub proof fn lemma_trim_unchanged(s: Seq<char>)
    requires
        s.len() > 0,
        !is_white_space(s[0]),
        !is_white_space(s.last()),
    ensures
        trim(s) == s,
{
}

/// The text before and after the first occurrence of `sep` in `s`
/// (`str::split_once` with a character), or `None` when `sep` does not occur.
pub open spec fn split_once(s: Seq<char>, sep: char) -> Option<(Seq<char>, Seq<char>)>
    decreases s.len(),
{
    if s.len() == 0 {
        None
    } else if s[0] == sep {
        Some((Seq::<char>::empty(), s.drop_first()))
    } else {
        match split_once(s.drop_first(), sep) {
            Some(parts) => Some((seq![s[0]] + parts.0, parts.1)),
            None => None,
        }
    }
}

pub proof fn lemma_split_once_at(s: Seq<char>, sep: char, i: int)
    requires
        0 <= i <= s.len(),
        forall|j: int| 0 <= j < i ==> s[j] != sep,
        i == s.len() || s[i] == sep,
    ensures
        i == s.len() ==> split_once(s, sep) is None,
        i < s.len() ==> split_once(s, sep) == Some((s.take(i), s.skip(i + 1))),
    decreases i,
{
    if i == 0 {
        if s.len() > 0 {
            assert(s.take(0) =~= Seq::<char>::empty());
            assert(s.skip(1) =~= s.drop_first());
        }
    } else {
        let t = s.drop_first();
        assert forall|j: int| 0 <= j < i - 1 implies t[j] != sep by {
            assert(t[j] == s[j + 1]);
        }
        if i < s.len() {
            assert(t[i - 1] == s[i]);
        }
        lemma_split_once_at(t, sep, i - 1);
        if i < s.len() {
            assert(seq![s[0]] + t.take(i - 1) =~= s.take(i));
            assert(t.skip(i) =~= s.skip(i + 1));
        }
    }
}

/// The text before and after the first occurrence of `sep` (`str::split_once`).
pub fn split_once_chars(v: &Vec<char>, sep: char) -> (r: Option<(Vec<char>, Vec<char>)>)
    ensures
        match r {
            Some(parts) => split_once(v@, sep) == Some((parts.0@, parts.1@)),
            None => split_once(v@, sep) is None,
        },
{
    let mut i: usize = 0;
    while i < v.len() && v[i] != sep
        invariant
            i <= v.len(),
            forall|j: int| 0 <= j < i ==> v@[j] != sep,
        decreases v.len() - i,
    {
        i = i + 1;
    }
    proof {
        lemma_split_once_at(v@, sep, i as int);
    }
    if i == v.len() {
        return None;
    }
    let mut before: Vec<char> = Vec::new();
    let mut k: usize = 0;
    while k < i
        invariant
            k <= i < v.len(),
            before@ == v@.take(k as int),
        decreases i - k,
    {
        before.push(v[k]);
        k = k + 1;
        assert(before@ =~= v@.take(k as int));
    }
    let mut after: Vec<char> = Vec::new();
    let mut k: usize = i + 1;
    while k < v.len()
        invariant
            i < k <= v.len(),
            after@ == v@.subrange(i + 1, k as int),
        decreases v.len() - k,
    {
        after.push(v[k]);
        k = k + 1;
        assert(after@ =~= v@.subrange(i + 1, k as int));
    }
    assert(after@ =~= v@.skip(i + 1));
    Some((before, after))
}

// ---------------------------------------------------------------------------
// Decimal and hexadecimal digits

pub open spec fn is_ascii_digit(c: char) -> bool {
    '0' <= c <= '9'
}

pub open spec fn is_ascii_hex_digit(c: char) -> bool {
    ('0' <= c <= '9') || ('a' <= c <= 'f') || ('A' <= c <= 'F')
}

/// The number that the decimal digits `s` denote.
pub open spec fn decimal_value(s: Seq<char>) -> nat
    decreases s.len(),
{
    if s.len() == 0 {
        0
    } else {
        decimal_value(s.drop_last()) * 10 + ((s.last() as u32) - ('0' as u32)) as nat
    }
}

/// `s` is the usual decimal form of a number in `1..=u64::MAX`: digits only,
/// no sign and no leading zero. These are exactly the strings that parse as a
/// positive `u64` and print back unchanged.
pub open spec fn is_canonical_positive_u64(s: Seq<char>) -> bool {
    &&& s.len() > 0
    &&& forall|j: int| 0 <= j < s.len() ==> is_ascii_digit(#[trigger] s[j])
    &&& s[0] != '0'
    &&& decimal_value(s) <= u64::MAX
}

proof fn lemma_decimal_value_grows(s: Seq<char>)
    requires
        s.len() > 0,
        forall|j: int| 0 <= j < s.len() ==> is_ascii_digit(#[trigger] s[j]),
        s[0] != '0',
    ensures
        decimal_value(s) >= 1,
    decreases s.len(),
{
    if s.len() > 1 {
        let t = s.drop_last();
        assert forall|j: int| 0 <= j < t.len() implies is_ascii_digit(#[trigger] t[j]) by {
            assert(t[j] == s[j]);
        }
        lemma_decimal_value_grows(t);
    }
}

/// Whether `s` is the decimal form of a positive `u64` (see `is_canonical_positive_u64`).
pub fn canonical_positive_u64(v: &Vec<char>) -> (r: bool)
    ensures
        r == is_canonical_positive_u64(v@),
{
    if v.len() == 0 || v[0] == '0' {
        return false;
    }
    let mut value: u64 = 0;
    let mut i: usize = 0;
    while i < v.len()
        invariant
            i <= v.len(),
            forall|j: int| 0 <= j < i ==> is_ascii_digit(#[trigger] v@[j]),
            value == decimal_value(v@.take(i as int)),
        decreases v.len() - i,
    {
        let c = v[i];
        if !('0' <= c && c <= '9') {
            return false;
        }
        let d = (c as u32 - '0' as u32) as u64;
        proof {
            assert(v@.take(i + 1).drop_last() =~= v@.take(i as int));
            assert(v@.take(i + 1).last() == c);
        }
        if value > (u64::MAX - d) / 10 {
            proof {
                assert(decimal_value(v@.take(i + 1)) > u64::MAX) by (nonlinear_arith)
                    requires
                        decimal_value(v@.take(i + 1)) == value * 10 + d,
                        value > (u64::MAX - d) / 10,
                        d <= 9,
                ;
                lemma_decimal_prefix_bound(v@, (i + 1) as int);
            }
            return false;
        }
        value = value * 10 + d;
        i = i + 1;
    }
    assert(v@.take(v@.len() as int) =~= v@);
    true
}

proof fn lemma_decimal_prefix_bound(s: Seq<char>, k: int)
    requires
        0 < k <= s.len(),
        forall|j: int| 0 <= j < k ==> is_ascii_digit(#[trigger] s[j]),
    ensures
        (forall|j: int| 0 <= j < s.len() ==> is_ascii_digit(#[trigger] s[j])) ==> decimal_value(
            s,
        ) >= decimal_value(s.take(k)),
    decreases s.len() - k,
{
    if k < s.len() {
        if forall|j: int| 0 <= j < s.len() ==> is_ascii_digit(#[trigger] s[j]) {
            let t = s.drop_last();
            assert forall|j: int| 0 <= j < k implies is_ascii_digit(#[trigger] t[j]) by {
                assert(t[j] == s[j]);
            }
            lemma_decimal_prefix_bound(t, k);
            assert forall|j: int| 0 <= j < t.len() implies is_ascii_digit(#[trigger] t[j]) by {
                assert(t[j] == s[j]);
            }
            assert(t.take(k) =~= s.take(k));
        }
    } else {
        assert(s.take(k) =~= s);
    }
}

/// The lowercase hexadecimal digit for `n < 16`.
pub open spec fn hex_digit(n: u8) -> char {
    if n < 10 {
        (('0' as u8) + n) as char
    } else {
        (('a' as u8) + n - 10) as char
    }
}

/// Each byte of `bytes` as two lowercase hexadecimal digits (`{:02x}`).
pub open spec fn lower_hex(bytes: Seq<u8>) -> Seq<char>
    decreases bytes.len(),
{
    if bytes.len() == 0 {
        Seq::empty()
    } else {
        lower_hex(bytes.drop_last()) + seq![
            hex_digit(bytes.last() / 16),
            hex_digit(bytes.last() % 16),
        ]
    }
}

pub proof fn lemma_lower_hex_len(bytes: Seq<u8>)
    ensures
        lower_hex(bytes).len() == 2 * bytes.len(),
    decreases bytes.len(),
{
    if bytes.len() > 0 {
        lemma_lower_hex_len(bytes.drop_last());
    }
}

/// Every character of `lower_hex(bytes)` is a lowercase hexadecimal digit.
pub proof fn lemma_lower_hex_digits(bytes: Seq<u8>)
    ensures
        forall|j: int|
            0 <= j < lower_hex(bytes).len() ==> {
                let c = #[trigger] lower_hex(bytes)[j];
                ('0' <= c <= '9') || ('a' <= c <= 'f')
            },
    decreases bytes.len(),
{
    if bytes.len() > 0 {
        lemma_lower_hex_digits(bytes.drop_last());
        lemma_lower_hex_len(bytes.drop_last());
        let b = bytes.last();
        let hi = b / 16;
        let lo = b % 16;
        assert(hi < 16 && lo < 16);
        let prev = lower_hex(bytes.drop_last());
        assert forall|j: int| 0 <= j < lower_hex(bytes).len() implies {
            let c = #[trigger] lower_hex(bytes)[j];
            ('0' <= c <= '9') || ('a' <= c <= 'f')
        } by {
            if j < prev.len() {
                assert(lower_hex(bytes)[j] == prev[j]);
            }
        }
    }
}

fn hex_digit_exec(n: u8) -> (c: char)
    requires
        n < 16,
    ensures
        c == hex_digit(n),
{
    if n < 10 {
        (('0' as u8) + n) as char
    } else {
        (('a' as u8) + n - 10) as char
    }
}

/// Each byte as two lowercase hexadecimal digits.
pub fn lower_hex_exec(bytes: &[u8]) -> (r: String)
    ensures
        r@ == lower_hex(bytes@),
{
    let mut out = String::new();
    let mut i: usize = 0;
    while i < bytes.len()
        invariant
            i <= bytes.len(),
            out@ == lower_hex(bytes@.take(i as int)),
        decreases bytes.len() - i,
    {
        let b = bytes[i];
        proof {
            assert(bytes@.take(i + 1).drop_last() =~= bytes@.take(i as int));
            assert(bytes@.take(i + 1).last() == b);
        }
        push_char(&mut out, hex_digit_exec(b / 16));
        push_char(&mut out, hex_digit_exec(b % 16));
        i = i + 1;
        assert(out@ =~= lower_hex(bytes@.take(i as int)));
    }
    assert(bytes@.take(bytes@.len() as int) =~= bytes@);
    out
}

/// The decimal digit character for `d < 10`.
pub open spec fn digit_char(d: int) -> char {
    (48 + d) as char
}

/// The decimal form of `n`, without leading zeros.
pub open spec fn nat_text(n: nat) -> Seq<char>
    decreases n,
{
    if n < 10 {
        seq![digit_char(n as int)]
    } else {
        nat_text(n / 10) + seq![digit_char((n % 10) as int)]
    }
}

/// The decimal form of `n`, with a leading `-` when negative (`Display` for integers).
pub open spec fn int_text(n: int) -> Seq<char> {
    if n < 0 {
        "-"@ + nat_text((-n) as nat)
    } else {
        nat_text(n as nat)
    }
}

/// Appends the decimal form of `n`.
pub fn append_u64_text(s: &mut String, n: u64)
    ensures
        final(s)@ == old(s)@ + nat_text(n as nat),
    decreases n,
{
    if n >= 10 {
        append_u64_text(s, n / 10);
    }
    let d = (n % 10) as u8;
    push_char(s, (('0' as u8) + d) as char);
    assert(final(s)@ =~= old(s)@ + nat_text(n as nat)) by {
        if n >= 10 {
            assert(old(s)@ + nat_text((n / 10) as nat) + seq![digit_char((n % 10) as int)] =~= old(
                s,
            )@ + nat_text(n as nat));
        }
    }
}

/// Appends the decimal form of `n`, with a leading `-` when negative.
pub fn append_int_text(s: &mut String, n: i64)
    ensures
        final(s)@ == old(s)@ + int_text(n as int),
{
    proof {
        reveal_strlit("-");
    }
    if n < 0 {
        s.append("-");
        let magnitude: u64 = if n == i64::MIN {
            9223372036854775808u64
        } else {
            (-n) as u64
        };
        append_u64_text(s, magnitude);
        assert(final(s)@ =~= old(s)@ + int_text(n as int));
    } else {
        append_u64_text(s, n as u64);
    }
}

} // verus!
