//! Character-level text utilities: whitespace, trimming, searching and
//! building strings, each with a specification over `Seq<char>`.
use vstd::prelude::*;

verus! {

/// Unicode `White_Space` characters, as `char::is_whitespace` and
/// `str::trim` recognise them.
pub open spec fn is_ws(c: char) -> bool {
    ||| ('\u{9}' <= c && c <= '\u{d}')
    ||| c == ' '
    ||| c == '\u{85}'
    ||| c == '\u{a0}'
    ||| c == '\u{1680}'
    ||| ('\u{2000}' <= c && c <= '\u{200a}')
    ||| c == '\u{2028}'
    ||| c == '\u{2029}'
    ||| c == '\u{202f}'
    ||| c == '\u{205f}'
    ||| c == '\u{3000}'
}

/// A class of characters that a trimming operation removes.
#[derive(Clone, Copy)]
pub enum CharClass {
    Whitespace,
    Exactly(char),
}

pub open spec fn in_class(class: CharClass, c: char) -> bool {
    match class {
        CharClass::Whitespace => is_ws(c),
        CharClass::Exactly(x) => c == x,
    }
}

/// `s` without its leading characters of `class`.
pub open spec fn drop_leading(s: Seq<char>, class: CharClass) -> Seq<char>
    decreases s.len(),
{
    if s.len() > 0 && in_class(class, s[0]) {
        drop_leading(s.drop_first(), class)
    } else {
        s
    }
}

/// `s` without its trailing characters of `class`.
pub open spec fn drop_trailing(s: Seq<char>, class: CharClass) -> Seq<char>
    decreases s.len(),
{
    if s.len() > 0 && in_class(class, s.last()) {
        drop_trailing(s.drop_last(), class)
    } else {
        s
    }
}

/// `s` without the characters of `class` at either end
/// (`str::trim` for whitespace, `str::trim_matches` for one character).
pub open spec fn strip_class(s: Seq<char>, class: CharClass) -> Seq<char> {
    drop_trailing(drop_leading(s, class), class)
}

/// `str::trim`.
pub open spec fn trim(s: Seq<char>) -> Seq<char> {
    strip_class(s, CharClass::Whitespace)
}

/// The number of elements of `s` before the first `x`, or the length of
/// `s` when `x` does not occur in it.
pub open spec fn count_before<T>(s: Seq<T>, x: T) -> nat
    decreases s.len(),
{
    if s.len() == 0 {
        0
    } else if s[0] == x {
        0
    } else {
        1 + count_before(s.drop_first(), x)
    }
}

pub proof fn lemma_count_before_bound<T>(s: Seq<T>, x: T)
    ensures
        count_before(s, x) <= s.len(),
        count_before(s, x) < s.len() ==> s[count_before(s, x) as int] == x,
        forall|j: int| 0 <= j < count_before(s, x) ==> s[j] != x,
    decreases s.len(),
{
    if s.len() > 0 && s[0] != x {
        lemma_count_before_bound(s.drop_first(), x);
        assert forall|j: int| 0 <= j < count_before(s, x) implies s[j] != x by {
            if j > 0 {
                assert(s[j] == s.drop_first()[j - 1]);
            }
        }
    }
}

/// `count_before` is the first position of `x`.
pub proof fn lemma_count_before_is<T>(s: Seq<T>, x: T, k: int)
    requires
        0 <= k <= s.len(),
        forall|j: int| 0 <= j < k ==> s[j] != x,
        k == s.len() || s[k] == x,
    ensures
        count_before(s, x) == k,
    decreases k,
{
    if k > 0 {
        assert(s[0] != x);
        let t = s.drop_first();
        assert forall|j: int| 0 <= j < k - 1 implies t[j] != x by {
            assert(t[j] == s[j + 1]);
        }
        lemma_count_before_is(t, x, k - 1);
    }
}

/// `count_before` of a concatenation whose first part does not hold `x`.
pub proof fn lemma_count_before_append<T>(a: Seq<T>, b: Seq<T>, x: T)
    requires
        forall|j: int| 0 <= j < a.len() ==> a[j] != x,
    ensures
        count_before(a + b, x) == a.len() + count_before(b, x),
{
    lemma_count_before_bound(b, x);
    let s = a + b;
    let k = a.len() + count_before(b, x);
    assert forall|j: int| 0 <= j < k implies s[j] != x by {
        if j >= a.len() {
            assert(s[j] == b[j - a.len()]);
        }
    }
    if k < s.len() {
        assert(s[k as int] == b[count_before(b, x) as int]);
    }
    lemma_count_before_is(s, x, k as int);
}

pub proof fn lemma_drop_leading_is(s: Seq<char>, class: CharClass, k: int)
    requires
        0 <= k <= s.len(),
        forall|j: int| 0 <= j < k ==> in_class(class, #[trigger] s[j]),
        k == s.len() || !in_class(class, s[k]),
    ensures
        drop_leading(s, class) == s.skip(k),
    decreases k,
{
    if k == 0 {
        assert(s.skip(0) =~= s);
    } else {
        assert(in_class(class, s[0]));
        let t = s.drop_first();
        assert forall|j: int| 0 <= j < k - 1 implies in_class(class, #[trigger] t[j]) by {
            assert(t[j] == s[j + 1]);
        }
        lemma_drop_leading_is(t, class, k - 1);
        assert(t.skip(k - 1) =~= s.skip(k));
    }
}

pub proof fn lemma_drop_trailing_is(s: Seq<char>, class: CharClass, k: int)
    requires
        0 <= k <= s.len(),
        forall|j: int| k <= j < s.len() ==> in_class(class, #[trigger] s[j]),
        k == 0 || !in_class(class, s[k - 1]),
    ensures
        drop_trailing(s, class) == s.take(k),
    decreases s.len() - k,
{
    if k == s.len() {
        assert(s.take(k) =~= s);
    } else {
        assert(in_class(class, s.last()));
        let t = s.drop_last();
        assert forall|j: int| k <= j < t.len() implies in_class(class, #[trigger] t[j]) by {
            assert(t[j] == s[j]);
        }
        lemma_drop_trailing_is(t, class, k);
        assert(t.take(k) =~= s.take(k));
    }
}

/// A sequence that neither starts nor ends with a character of `class`
/// is left as it is.
pub proof fn lemma_strip_class_unchanged(s: Seq<char>, class: CharClass)
    requires
        s.len() > 0 ==> !in_class(class, s[0]) && !in_class(class, s.last()),
    ensures
        strip_class(s, class) == s,
{
    lemma_drop_leading_is(s, class, 0);
    assert(s.skip(0) =~= s);
    lemma_drop_trailing_is(s, class, s.len() as int);
    assert(s.take(s.len() as int) =~= s);
}

proof fn lemma_drop_leading_push(s: Seq<char>, c: char)
    requires
        is_ws(c),
    ensures
        drop_leading(s.push(c), CharClass::Whitespace) == if drop_leading(
            s,
            CharClass::Whitespace,
        ).len() == 0 {
            Seq::<char>::empty()
        } else {
            drop_leading(s, CharClass::Whitespace).push(c)
        },
    decreases s.len(),
{
    let w = CharClass::Whitespace;
    let t = s.push(c);
    if s.len() == 0 {
        assert(t.drop_first() =~= Seq::<char>::empty());
        assert(in_class(w, t[0]));
        assert(drop_leading(Seq::<char>::empty(), w) == Seq::<char>::empty());
        assert(drop_leading(t, w) == drop_leading(t.drop_first(), w));
    } else if is_ws(s[0]) {
        assert(t[0] == s[0]);
        assert(t.drop_first() =~= s.drop_first().push(c));
        lemma_drop_leading_push(s.drop_first(), c);
    } else {
        assert(t[0] == s[0]);
    }
}

/// Whitespace added at the end of a text is trimmed away again.
pub proof fn lemma_trim_push_ws(s: Seq<char>, c: char)
    requires
        is_ws(c),
    ensures
        trim(s.push(c)) == trim(s),
{
    let w = CharClass::Whitespace;
    lemma_drop_leading_push(s, c);
    let d = drop_leading(s, w);
    if d.len() > 0 {
        let e = d.push(c);
        assert(e.last() == c);
        assert(e.drop_last() =~= d);
    } else {
        assert(drop_trailing(Seq::<char>::empty(), w) == Seq::<char>::empty());
    }
}

/// Exec test of `in_class`.
pub fn class_has(class: CharClass, c: char) -> (b: bool)
    ensures
        b == in_class(class, c),
{
    match class {
        CharClass::Whitespace => {
            ('\u{9}' <= c && c <= '\u{d}') || c == ' ' || c == '\u{85}' || c == '\u{a0}'
                || c == '\u{1680}' || ('\u{2000}' <= c && c <= '\u{200a}') || c == '\u{2028}'
                || c == '\u{2029}' || c == '\u{202f}' || c == '\u{205f}' || c == '\u{3000}'
        },
        CharClass::Exactly(x) => c == x,
    }
}

/// The bounds of `strip_class` applied to the range `a..b` of `v`.
pub fn strip_range(v: &[char], a: usize, b: usize, class: CharClass) -> (r: (usize, usize))
    requires
        a <= b <= v@.len(),
    ensures
        a <= r.0 <= r.1 <= b,
        v@.subrange(r.0 as int, r.1 as int) == strip_class(v@.subrange(a as int, b as int), class),
{
    let ghost s = v@.subrange(a as int, b as int);
    let mut i = a;
    while i < b && class_has(class, v[i])
        invariant
            a <= i <= b <= v@.len(),
            s == v@.subrange(a as int, b as int),
            forall|j: int| a <= j < i ==> in_class(class, #[trigger] v@[j]),
        decreases b - i,
    {
        i = i + 1;
    }
    proof {
        assert forall|j: int| 0 <= j < i - a implies in_class(class, #[trigger] s[j]) by {
            assert(s[j] == v@[a + j]);
        }
        lemma_drop_leading_is(s, class, i - a);
        assert(s.skip(i - a) =~= v@.subrange(i as int, b as int));
    }
    let ghost t = v@.subrange(i as int, b as int);
    let mut k = b;
    while k > i && class_has(class, v[k - 1])
        invariant
            a <= i <= k <= b <= v@.len(),
            t == v@.subrange(i as int, b as int),
            forall|j: int| k <= j < b ==> in_class(class, #[trigger] v@[j]),
        decreases k - i,
    {
        k = k - 1;
    }
    proof {
        assert forall|j: int| k - i <= j < t.len() implies in_class(class, #[trigger] t[j]) by {
            assert(t[j] == v@[i + j]);
        }
        if k > i {
            assert(t[k - i - 1] == v@[k - 1]);
        }
        lemma_drop_trailing_is(t, class, k - i);
        assert(t.take(k - i) =~= v@.subrange(i as int, k as int));
    }
    (i, k)
}

/// The position of the first `x` in the range `from..to` of `v`, or `to`.
pub fn find_char_in(v: &[char], from: usize, to: usize, x: char) -> (r: usize)
    requires
        from <= to <= v@.len(),
    ensures
        from <= r <= to,
        r - from == count_before(v@.subrange(from as int, to as int), x),
{
    let mut i = from;
    while i < to && v[i] != x
        invariant
            from <= i <= to <= v@.len(),
            forall|j: int| from <= j < i ==> v@[j] != x,
        decreases to - i,
    {
        i = i + 1;
    }
    proof {
        let s = v@.subrange(from as int, to as int);
        assert forall|j: int| 0 <= j < i - from implies s[j] != x by {
            assert(s[j] == v@[from + j]);
        }
        if i < to {
            assert(s[i - from] == v@[i as int]);
        }
        lemma_count_before_is(s, x, i - from);
    }
    i
}

/// The characters of `s`, in order.
pub fn to_chars(s: &str) -> (v: Vec<char>)
    ensures
        v@ == s@,
{
    let mut v: Vec<char> = Vec::new();
    for c in it: s.chars()
        invariant
            v@ == it.seq().take(it.index() as int),
    {
        v.push(c);
    }
    v
}

/// `String::push`: `c` is appended to `s`.
#[verifier::external_body]
pub(crate) fn push_char(s: &mut String, c: char)
    ensures
        final(s)@ == old(s)@.push(c),
{
    s.push(c);
}

/// The string made of the range `a..b` of `v`.
pub fn string_of_range(v: &[char], a: usize, b: usize) -> (s: String)
    requires
        a <= b <= v@.len(),
    ensures
        s@ == v@.subrange(a as int, b as int),
{
    let mut s = String::new();
    let mut i = a;
    while i < b
        invariant
            a <= i <= b <= v@.len(),
            s@ == v@.subrange(a as int, i as int),
        decreases b - i,
    {
        push_char(&mut s, v[i]);
        i = i + 1;
        assert(s@ =~= v@.subrange(a as int, i as int));
    }
    s
}

/// Whether the range `a..b` of `v` holds exactly the characters of `w`.
pub fn range_eq(v: &[char], a: usize, b: usize, w: &[char]) -> (r: bool)
    requires
        a <= b <= v@.len(),
    ensures
        r == (v@.subrange(a as int, b as int) == w@),
{
    if b - a != w.len() {
        assert(v@.subrange(a as int, b as int).len() != w@.len());
        return false;
    }
    let mut i: usize = 0;
    while i < w.len()
        invariant
            a <= b <= v@.len(),
            b - a == w@.len(),
            0 <= i <= w@.len(),
            forall|j: int| 0 <= j < i ==> v@[a + j] == w@[j],
        decreases w@.len() - i,
    {
        if v[a + i] != w[i] {
            assert(v@.subrange(a as int, b as int)[i as int] != w@[i as int]);
            return false;
        }
        i = i + 1;
    }
    assert(v@.subrange(a as int, b as int) =~= w@);
    true
}

/// Whether the range `a..b` of `v` holds exactly the characters of `lit`.
pub fn chars_eq_str(v: &[char], a: usize, b: usize, lit: &str) -> (r: bool)
    requires
        a <= b <= v@.len(),
    ensures
        r == (v@.subrange(a as int, b as int) == lit@),
{
    let w = to_chars(lit);
    range_eq(v, a, b, w.as_slice())
}

/// `str::trim` on a string.
pub fn trim_str(s: &str) -> (r: String)
    ensures
        r@ == trim(s@),
{
    let v = to_chars(s);
    let (a, b) = strip_range(v.as_slice(), 0, v.len(), CharClass::Whitespace);
    assert(v@.subrange(0, v@.len() as int) =~= v@);
    string_of_range(v.as_slice(), a, b)
}

/// Whether `str::trim` leaves nothing of `s`.
pub fn is_blank(s: &str) -> (r: bool)
    ensures
        r == (trim(s@).len() == 0),
{
    let v = to_chars(s);
    let (a, b) = strip_range(v.as_slice(), 0, v.len(), CharClass::Whitespace);
    assert(v@.subrange(0, v@.len() as int) =~= v@);
    a == b
}

/// A new string holding `a` followed by `b`.
pub fn concat_str(a: &str, b: &str) -> (r: String)
    ensures
        r@ == a@ + b@,
{
    let mut r = String::from_str(a);
    r.append(b);
    r
}

/// The position of the first `x` in the range `from..to` of `v`, or `to`.
pub fn find_byte_in(v: &[u8], from: usize, to: usize, x: u8) -> (r: usize)
    requires
        from <= to <= v@.len(),
    ensures
        from <= r <= to,
        r - from == count_before(v@.subrange(from as int, to as int), x),
{
    let mut i = from;
    while i < to && v[i] != x
        invariant
            from <= i <= to <= v@.len(),
            forall|j: int| from <= j < i ==> v@[j] != x,
        decreases to - i,
    {
        i = i + 1;
    }
    proof {
        let s = v@.subrange(from as int, to as int);
        assert forall|j: int| 0 <= j < i - from implies s[j] != x by {
            assert(s[j] == v@[from + j]);
        }
        if i < to {
            assert(s[i - from] == v@[i as int]);
        }
        lemma_count_before_is(s, x, i - from);
    }
    i
}

/// The characters of an optional string.
pub open spec fn opt_view(o: Option<String>) -> Option<Seq<char>> {
    match o {
        Some(s) => Some(s@),
        None => None,
    }
}

/// The characters of each string, in order.
pub open spec fn strings_view(v: Seq<String>) -> Seq<Seq<char>> {
    v.map_values(|s: String| s@)
}

/// All the sequences, one after the other.
pub open spec fn concat_all(ds: Seq<Seq<char>>) -> Seq<char>
    decreases ds.len(),
{
    if ds.len() == 0 {
        Seq::empty()
    } else {
        concat_all(ds.drop_last()) + ds.last()
    }
}

pub proof fn lemma_concat_all_push(ds: Seq<Seq<char>>, d: Seq<char>)
    ensures
        concat_all(ds.push(d)) == concat_all(ds) + d,
{
    assert(ds.push(d).drop_last() =~= ds);
}

/// The text that `String::from_utf8_lossy` decodes from `bytes`.
pub uninterp spec fn utf8_lossy(bytes: Seq<u8>) -> Seq<char>;

/// `String::from_utf8_lossy`, as an owned string: valid UTF-8 decoded,
/// each invalid sequence replaced by U+FFFD. The result is named here,
/// not described.
#[verifier::external_body]
pub(crate) fn utf8_lossy_string(bytes: &[u8]) -> (r: String)
    ensures
        r@ == utf8_lossy(bytes@),
{
    String::from_utf8_lossy(bytes).into_owned()
}

/// The decimal digits of `n`.
pub open spec fn digits(n: nat) -> Seq<char>
    decreases n,
{
    if n < 10 {
        seq![(48 + n) as char]
    } else {
        digits(n / 10).push((48 + n % 10) as char)
    }
}

/// `n` as `{}` formats an integer: a minus sign when negative, then the
/// decimal digits of its magnitude.
pub open spec fn decimal(n: int) -> Seq<char> {
    if n < 0 {
        seq!['-'] + digits((-n) as nat)
    } else {
        digits(n as nat)
    }
}

fn digit_char(d: u64) -> (c: char)
    requires
        d < 10,
    ensures
        c == (48 + d) as char,
{
    if d == 0 { '0' }
    else if d == 1 { '1' }
    else if d == 2 { '2' }
    else if d == 3 { '3' }
    else if d == 4 { '4' }
    else if d == 5 { '5' }
    else if d == 6 { '6' }
    else if d == 7 { '7' }
    else if d == 8 { '8' }
    else { '9' }
}

/// The decimal text of `n`, as `i64::to_string` writes it.
pub fn decimal_string(n: i64) -> (s: String)
    ensures
        s@ == decimal(n as int),
{
    let mag: u64 = if n < 0 {
        if n == i64::MIN {
            9223372036854775808u64
        } else {
            (-n) as u64
        }
    } else {
        n as u64
    };
    let mut m = mag;
    let mut rev: Vec<char> = Vec::new();
    loop
        invariant_except_break
            digits(mag as nat) == digits(m as nat) + rev@.reverse(),
        ensures
            digits(mag as nat) == rev@.reverse(),
        decreases m,
    {
        let d = digit_char(m % 10);
        let ghost old_rev = rev@;
        rev.push(d);
        assert(rev@.reverse() =~= seq![d] + old_rev.reverse());
        if m < 10 {
            assert(digits(m as nat) == seq![d]);
            break;
        }
        assert(digits(m as nat) == digits((m / 10) as nat).push(d));
        assert(digits((m / 10) as nat).push(d) + old_rev.reverse() =~= digits((m / 10) as nat)
            + rev@.reverse());
        m = m / 10;
    }
    let mut s = String::new();
    if n < 0 {
        push_char(&mut s, '-');
    }
    let ghost head = s@;
    let mut i = rev.len();
    while i > 0
        invariant
            i <= rev@.len(),
            s@ == head + rev@.reverse().take(rev@.len() - i),
        decreases i,
    {
        i = i - 1;
        push_char(&mut s, rev[i]);
        assert(rev@.reverse()[rev@.len() - i - 1] == rev@[i as int]);
        assert(s@ =~= head + rev@.reverse().take(rev@.len() - i));
    }
    assert(rev@.reverse().take(rev@.len() as int) =~= rev@.reverse());
    proof {
        if n < 0 {
            assert(head =~= seq!['-']);
        } else {
            assert(head =~= Seq::<char>::empty());
        }
    }
    s
}

} // verus!
