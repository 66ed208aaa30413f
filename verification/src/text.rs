//! Text as sequences of characters.
//!
//! Every operation here reads a string as the sequence of its characters and
//! states its result over that sequence.
use vstd::prelude::*;

verus! {

/// `String::push` of the standard library: appends one character at the end.
pub assume_specification[ String::push ](s: &mut String, c: char)
    ensures
        final(s)@ == old(s)@.push(c),
;

// ---------------------------------------------------------------------------
// Conversions
// ---------------------------------------------------------------------------
/// The characters of each string of a sequence.
pub open spec fn texts(v: Seq<String>) -> Seq<Seq<char>> {
    v.map_values(|s: String| s@)
}

/// The characters of an optional string.
pub open spec fn opt_text(s: Option<String>) -> Option<Seq<char>> {
    match s {
        Some(t) => Some(t@),
        None => None,
    }
}

/// The characters of `s`, in order.
pub fn chars_of(s: &str) -> (v: Vec<char>)
    ensures
        v@ == s@,
{
    let mut v: Vec<char> = Vec::new();
    for c in it: s.chars()
        invariant
            it.seq() == s@,
            v@ == s@.take(it.index() as int),
    {
        v.push(c);
        assert(s@.take(it.index() as int).push(c) =~= s@.take(it.index() + 1));
    }
    assert(s@.take(s@.len() as int) =~= s@);
    v
}

/// The string that holds the characters of `v` from `from` up to `to`.
pub fn text_between(v: &Vec<char>, from: usize, to: usize) -> (s: String)
    requires
        from <= to <= v@.len(),
    ensures
        s@ == v@.subrange(from as int, to as int),
{
    let mut s: String = String::new();
    let mut i: usize = from;
    while i < to
        invariant
            from <= i <= to <= v@.len(),
            s@ == v@.subrange(from as int, i as int),
        decreases to - i,
    {
        s.push(v[i]);
        assert(v@.subrange(from as int, i as int).push(v@[i as int]) =~= v@.subrange(
            from as int,
            i + 1,
        ));
        i = i + 1;
    }
    s
}

/// The string that holds the characters of `v`.
pub fn text_of(v: &Vec<char>) -> (s: String)
    ensures
        s@ == v@,
{
    let n: usize = v.len();
    let s = text_between(v, 0, n);
    assert(v@.subrange(0, n as int) =~= v@);
    s
}

/// A copy of `s`.
pub fn copy(s: &str) -> (r: String)
    ensures
        r@ == s@,
{
    s.to_owned()
}

/// A copy of an optional string.
pub fn copy_opt(s: &Option<String>) -> (r: Option<String>)
    ensures
        opt_text(r) == opt_text(*s),
{
    match s {
        Some(t) => Some(copy(t.as_str())),
        None => None,
    }
}

/// `a` followed by `b`.
pub fn join2(a: &str, b: &str) -> (r: String)
    ensures
        r@ == a@ + b@,
{
    let mut r = copy(a);
    r.append(b);
    r
}

/// `a`, `b` and `c`, one after the other.
pub fn join3(a: &str, b: &str, c: &str) -> (r: String)
    ensures
        r@ == a@ + b@ + c@,
{
    let mut r = copy(a);
    r.append(b);
    r.append(c);
    r
}

// ---------------------------------------------------------------------------
// Comparison and search
// ---------------------------------------------------------------------------
/// Whether two strings hold the same characters.
pub fn same(a: &str, b: &str) -> (r: bool)
    ensures
        r == (a@ == b@),
{
    let x = chars_of(a);
    let y = chars_of(b);
    if x.len() != y.len() {
        return false;
    }
    let mut i: usize = 0;
    while i < x.len()
        invariant
            i <= x@.len(),
            x@.len() == y@.len(),
            x@ == a@,
            y@ == b@,
            forall|j: int| 0 <= j < i ==> x@[j] == y@[j],
        decreases x@.len() - i,
    {
        if x[i] != y[i] {
            assert(a@[i as int] != b@[i as int]);
            return false;
        }
        i = i + 1;
    }
    assert(a@ =~= b@);
    true
}

/// Whether two optional strings are both absent or hold the same characters.
pub fn same_opt(a: &Option<String>, b: &Option<String>) -> (r: bool)
    ensures
        r == (opt_text(*a) == opt_text(*b)),
{
    match (a, b) {
        (Some(x), Some(y)) => same(x.as_str(), y.as_str()),
        (None, None) => true,
        _ => false,
    }
}

/// Whether a list of strings holds `s`.
pub fn list_has(v: &Vec<String>, s: &str) -> (r: bool)
    ensures
        r == texts(v@).contains(s@),
{
    let mut i: usize = 0;
    while i < v.len()
        invariant
            i <= v@.len(),
            forall|j: int| 0 <= j < i ==> (#[trigger] v@[j])@ != s@,
        decreases v@.len() - i,
    {
        if same(v[i].as_str(), s) {
            assert(texts(v@)[i as int] == s@);
            return true;
        }
        i = i + 1;
    }
    assert(!texts(v@).contains(s@)) by {
        if texts(v@).contains(s@) {
            let k = choose|k: int| 0 <= k < texts(v@).len() && texts(v@)[k] == s@;
            assert(v@[k]@ == s@);
        }
    }
    false
}

/// `p` stands in `s` at position `i`.
pub open spec fn occurs_at(s: Seq<char>, p: Seq<char>, i: int) -> bool {
    &&& 0 <= i
    &&& i + p.len() <= s.len()
    &&& s.subrange(i, i + p.len()) == p
}

/// `p` stands somewhere in `s`.
pub open spec fn has_text(s: Seq<char>, p: Seq<char>) -> bool {
    exists|i: int| occurs_at(s, p, i)
}

/// The first position from `i` on at which `p` stands in `s`.
pub open spec fn position_from(s: Seq<char>, p: Seq<char>, i: int) -> Option<int>
    decreases s.len() + 1 - i,
{
    if i < 0 || i + p.len() > s.len() {
        None
    } else if occurs_at(s, p, i) {
        Some(i)
    } else {
        position_from(s, p, i + 1)
    }
}

/// The first position at which `p` stands in `s`.
pub open spec fn position(s: Seq<char>, p: Seq<char>) -> Option<int> {
    position_from(s, p, 0)
}

/// The position found is one at which the text stands, and no smaller one is;
/// none is found only where the text stands nowhere.
pub proof fn lemma_position_from(s: Seq<char>, p: Seq<char>, i: int)
    requires
        0 <= i,
    ensures
        match position_from(s, p, i) {
            Some(k) => i <= k && occurs_at(s, p, k) && (forall|j: int|
                i <= j < k ==> !occurs_at(s, p, j)),
            None => forall|j: int| i <= j ==> !occurs_at(s, p, j),
        },
    decreases s.len() + 1 - i,
{
    if i + p.len() <= s.len() && !occurs_at(s, p, i) {
        lemma_position_from(s, p, i + 1);
    }
}

/// A text is found exactly where it stands somewhere, and the position found is
/// the smallest of those.
pub proof fn lemma_position(s: Seq<char>, p: Seq<char>)
    ensures
        position(s, p) is Some <==> has_text(s, p),
        position(s, p) matches Some(k) ==> occurs_at(s, p, k) && forall|j: int|
            0 <= j < k ==> !occurs_at(s, p, j),
{
    lemma_position_from(s, p, 0);
    if has_text(s, p) {
        let i = choose|i: int| occurs_at(s, p, i);
        assert(0 <= i);
    }
}

fn stands_at(s: &Vec<char>, p: &Vec<char>, i: usize) -> (r: bool)
    requires
        i + p@.len() <= s@.len(),
    ensures
        r == occurs_at(s@, p@, i as int),
{
    let n: usize = s.len();
    let mut j: usize = 0;
    while j < p.len()
        invariant
            j <= p@.len(),
            n == s@.len(),
            i + p@.len() <= n,
            forall|k: int| 0 <= k < j ==> s@[i + k] == p@[k],
        decreases p@.len() - j,
    {
        if s[i + j] != p[j] {
            assert(s@.subrange(i as int, i + p@.len())[j as int] != p@[j as int]);
            return false;
        }
        j = j + 1;
    }
    assert(s@.subrange(i as int, i + p@.len()) =~= p@);
    true
}

fn find_in(s: &Vec<char>, p: &Vec<char>) -> (r: Option<usize>)
    ensures
        match r {
            Some(k) => position(s@, p@) == Some(k as int) && k + p@.len() <= s@.len(),
            None => position(s@, p@) is None,
        },
{
    let n: usize = s.len();
    let m: usize = p.len();
    if m > n {
        return None;
    }
    let mut i: usize = 0;
    while i <= n - m
        invariant
            n == s@.len(),
            m == p@.len(),
            m <= n,
            i <= n - m + 1,
            position(s@, p@) == position_from(s@, p@, i as int),
        decreases n - m + 1 - i,
    {
        if stands_at(s, p, i) {
            return Some(i);
        }
        if i == n - m {
            assert(position_from(s@, p@, i + 1) is None);
            return None;
        }
        i = i + 1;
    }
    None
}

/// The first position, counted in characters, at which `p` stands in `s`.
pub fn find(s: &str, p: &str) -> (r: Option<usize>)
    ensures
        match r {
            Some(k) => position(s@, p@) == Some(k as int) && k + p@.len() <= s@.len(),
            None => position(s@, p@) is None,
        },
{
    find_in(&chars_of(s), &chars_of(p))
}

/// Whether `p` stands somewhere in `s`.
pub fn contains(s: &str, p: &str) -> (r: bool)
    ensures
        r == has_text(s@, p@),
{
    proof {
        lemma_position(s@, p@);
    }
    find(s, p).is_some()
}

/// Whether `s` begins with `p`.
pub fn starts_with(s: &str, p: &str) -> (r: bool)
    ensures
        r == p@.is_prefix_of(s@),
{
    let x = chars_of(s);
    let y = chars_of(p);
    if y.len() > x.len() {
        return false;
    }
    stands_at(&x, &y, 0)
}

/// What follows the prefix `p` of `s`, or nothing where `s` does not begin so.
pub open spec fn after_prefix(s: Seq<char>, p: Seq<char>) -> Option<Seq<char>> {
    if p.is_prefix_of(s) {
        Some(s.skip(p.len() as int))
    } else {
        None
    }
}

/// What follows the prefix `p` of `s`.
pub fn strip_prefix(s: &str, p: &str) -> (r: Option<String>)
    ensures
        opt_text(r) == after_prefix(s@, p@),
{
    if starts_with(s, p) {
        let x = chars_of(s);
        let from: usize = chars_of(p).len();
        let n: usize = x.len();
        let r = text_between(&x, from, n);
        assert(s@.subrange(from as int, n as int) =~= s@.skip(p@.len() as int));
        Some(r)
    } else {
        None
    }
}

/// `s` without any number of leading copies of `p`.
pub open spec fn without_leading(s: Seq<char>, p: Seq<char>) -> Seq<char>
    decreases s.len(),
{
    if p.len() > 0 && p.is_prefix_of(s) {
        without_leading(s.skip(p.len() as int), p)
    } else {
        s
    }
}

/// Removes every leading copy of `p`.
pub fn trim_start_matches(s: &str, p: &str) -> (r: String)
    ensures
        r@ == without_leading(s@, p@),
{
    let x = chars_of(s);
    let y = chars_of(p);
    let n: usize = x.len();
    let m: usize = y.len();
    let mut i: usize = 0;
    assert(s@.skip(0) =~= s@);
    while m > 0 && m <= n - i && stands_at(&x, &y, i)
        invariant
            i <= n,
            n == x@.len(),
            m == y@.len(),
            x@ == s@,
            y@ == p@,
            without_leading(s@, p@) == without_leading(s@.skip(i as int), p@),
        decreases n - i,
    {
        assert(s@.skip(i as int).subrange(0, m as int) =~= s@.subrange(i as int, i + m));
        assert(s@.skip(i as int).skip(m as int) =~= s@.skip(i + m));
        i = i + m;
    }
    if m > 0 && m <= n - i {
        assert(s@.skip(i as int).subrange(0, m as int) =~= s@.subrange(i as int, i + m));
    }
    let r = text_between(&x, i, n);
    assert(s@.subrange(i as int, n as int) =~= s@.skip(i as int));
    r
}

/// The two parts of `s` around the first place where `p` stands.
pub open spec fn around_first(s: Seq<char>, p: Seq<char>) -> Option<(Seq<char>, Seq<char>)> {
    match position(s, p) {
        Some(k) => Some((s.take(k), s.skip(k + p.len()))),
        None => None,
    }
}

/// Splits `s` at the first place where `p` stands.
pub fn split_once(s: &str, p: &str) -> (r: Option<(String, String)>)
    ensures
        match r {
            Some((a, b)) => around_first(s@, p@) == Some((a@, b@)),
            None => around_first(s@, p@) is None,
        },
{
    let x = chars_of(s);
    let y = chars_of(p);
    match find_in(&x, &y) {
        Some(k) => {
            let n: usize = x.len();
            let m: usize = y.len();
            let a = text_between(&x, 0, k);
            let b = text_between(&x, k + m, n);
            assert(s@.subrange(0, k as int) =~= s@.take(k as int));
            assert(s@.subrange(k + m, n as int) =~= s@.skip(k + m));
            Some((a, b))
        },
        None => None,
    }
}

// ---------------------------------------------------------------------------
// Trimming
// ---------------------------------------------------------------------------
/// The characters with the Unicode property `White_Space`.
pub open spec fn is_space(c: char) -> bool {
    let u = c as u32;
    ||| 0x9 <= u <= 0xd
    ||| u == 0x20
    ||| u == 0x85
    ||| u == 0xa0
    ||| u == 0x1680
    ||| 0x2000 <= u <= 0x200a
    ||| u == 0x2028
    ||| u == 0x2029
    ||| u == 0x202f
    ||| u == 0x205f
    ||| u == 0x3000
}

/// Whether `c` has the Unicode property `White_Space`.
pub fn space(c: char) -> (r: bool)
    ensures
        r == is_space(c),
{
    let u: u32 = c as u32;
    (0x9 <= u && u <= 0xd) || u == 0x20 || u == 0x85 || u == 0xa0 || u == 0x1680 || (0x2000 <= u
        && u <= 0x200a) || u == 0x2028 || u == 0x2029 || u == 0x202f || u == 0x205f || u == 0x3000
}

/// `s` without its leading white space.
pub open spec fn front_trimmed(s: Seq<char>) -> Seq<char>
    decreases s.len(),
{
    if s.len() > 0 && is_space(s.first()) {
        front_trimmed(s.drop_first())
    } else {
        s
    }
}

/// `s` without its trailing white space.
pub open spec fn back_trimmed(s: Seq<char>) -> Seq<char>
    decreases s.len(),
{
    if s.len() > 0 && is_space(s.last()) {
        back_trimmed(s.drop_last())
    } else {
        s
    }
}

/// `s` without the white space at both its ends.
pub open spec fn trimmed(s: Seq<char>) -> Seq<char> {
    back_trimmed(front_trimmed(s))
}

/// Removes the white space at both ends.
pub fn trim(s: &str) -> (r: String)
    ensures
        r@ == trimmed(s@),
{
    let x = chars_of(s);
    let n: usize = x.len();
    let mut from: usize = 0;
    assert(s@.subrange(0, n as int) =~= s@);
    while from < n && space(x[from])
        invariant
            from <= n,
            n == x@.len(),
            x@ == s@,
            front_trimmed(s@) == front_trimmed(s@.subrange(from as int, n as int)),
        decreases n - from,
    {
        assert(s@.subrange(from as int, n as int).drop_first() =~= s@.subrange(
            from + 1,
            n as int,
        ));
        from = from + 1;
    }
    let mut to: usize = n;
    while to > from && space(x[to - 1])
        invariant
            from <= to <= n,
            n == x@.len(),
            x@ == s@,
            trimmed(s@) == back_trimmed(s@.subrange(from as int, to as int)),
        decreases to,
    {
        assert(s@.subrange(from as int, to as int).drop_last() =~= s@.subrange(
            from as int,
            to - 1,
        ));
        to = to - 1;
    }
    text_between(&x, from, to)
}

/// What is left of a trimmed text has no white space at either end.
pub proof fn lemma_trimmed_ends(s: Seq<char>)
    ensures
        trimmed(s).len() > 0 ==> !is_space(trimmed(s).first()) && !is_space(trimmed(s).last()),
{
    lemma_front_trimmed(s);
    lemma_back_trimmed(front_trimmed(s));
}

proof fn lemma_front_trimmed(s: Seq<char>)
    ensures
        front_trimmed(s).len() > 0 ==> !is_space(front_trimmed(s).first()),
    decreases s.len(),
{
    if s.len() > 0 && is_space(s.first()) {
        lemma_front_trimmed(s.drop_first());
    }
}

proof fn lemma_back_trimmed(s: Seq<char>)
    ensures
        back_trimmed(s).len() <= s.len(),
        back_trimmed(s) == s.take(back_trimmed(s).len() as int),
        back_trimmed(s).len() > 0 ==> !is_space(back_trimmed(s).last()) && back_trimmed(s).first()
            == s.first(),
    decreases s.len(),
{
    if s.len() > 0 && is_space(s.last()) {
        lemma_back_trimmed(s.drop_last());
        let k = back_trimmed(s).len() as int;
        assert(s.drop_last().take(k) =~= s.take(k));
    } else {
        assert(s.take(s.len() as int) =~= s);
    }
}

/// A trimmed text stays as it is when it is trimmed again.
pub proof fn lemma_trimmed_twice(s: Seq<char>)
    ensures
        trimmed(trimmed(s)) == trimmed(s),
{
    lemma_trimmed_ends(s);
}

/// `s` without the leading copies of `c`.
pub open spec fn front_without(s: Seq<char>, c: char) -> Seq<char>
    decreases s.len(),
{
    if s.len() > 0 && s.first() == c {
        front_without(s.drop_first(), c)
    } else {
        s
    }
}

/// `s` without the trailing copies of `c`.
pub open spec fn back_without(s: Seq<char>, c: char) -> Seq<char>
    decreases s.len(),
{
    if s.len() > 0 && s.last() == c {
        back_without(s.drop_last(), c)
    } else {
        s
    }
}

/// Removes the copies of `c` at both ends.
pub fn trim_matches(s: &str, c: char) -> (r: String)
    ensures
        r@ == back_without(front_without(s@, c), c),
{
    let x = chars_of(s);
    let n: usize = x.len();
    let mut from: usize = 0;
    assert(s@.subrange(0, n as int) =~= s@);
    while from < n && x[from] == c
        invariant
            from <= n,
            n == x@.len(),
            x@ == s@,
            front_without(s@, c) == front_without(s@.subrange(from as int, n as int), c),
        decreases n - from,
    {
        assert(s@.subrange(from as int, n as int).drop_first() =~= s@.subrange(
            from + 1,
            n as int,
        ));
        from = from + 1;
    }
    let mut to: usize = n;
    while to > from && x[to - 1] == c
        invariant
            from <= to <= n,
            n == x@.len(),
            x@ == s@,
            back_without(front_without(s@, c), c) == back_without(
                s@.subrange(from as int, to as int),
                c,
            ),
        decreases to,
    {
        assert(s@.subrange(from as int, to as int).drop_last() =~= s@.subrange(
            from as int,
            to - 1,
        ));
        to = to - 1;
    }
    text_between(&x, from, to)
}

/// Removes the leading copies of `c`.
pub fn trim_start_char(s: &str, c: char) -> (r: String)
    ensures
        r@ == front_without(s@, c),
{
    let x = chars_of(s);
    let n: usize = x.len();
    let mut from: usize = 0;
    assert(s@.subrange(0, n as int) =~= s@);
    while from < n && x[from] == c
        invariant
            from <= n,
            n == x@.len(),
            x@ == s@,
            front_without(s@, c) == front_without(s@.subrange(from as int, n as int), c),
        decreases n - from,
    {
        assert(s@.subrange(from as int, n as int).drop_first() =~= s@.subrange(
            from + 1,
            n as int,
        ));
        from = from + 1;
    }
    text_between(&x, from, n)
}

// ---------------------------------------------------------------------------
// Character by character
// ---------------------------------------------------------------------------
/// The lower-case letter of an ASCII letter, any other character as it is.
pub open spec fn lower_char(c: char) -> char {
    if 'A' <= c <= 'Z' {
        ((c as u8) + 32) as char
    } else {
        c
    }
}

/// The upper-case letter of an ASCII letter, any other character as it is.
pub open spec fn upper_char(c: char) -> char {
    if 'a' <= c <= 'z' {
        ((c as u8) - 32) as char
    } else {
        c
    }
}

/// `s` with its ASCII letters in lower case.
pub open spec fn lowered(s: Seq<char>) -> Seq<char> {
    s.map_values(|c: char| lower_char(c))
}

/// `s` with its ASCII letters in upper case.
pub open spec fn uppered(s: Seq<char>) -> Seq<char> {
    s.map_values(|c: char| upper_char(c))
}

fn to_lower(c: char) -> (r: char)
    ensures
        r == lower_char(c),
{
    if 'A' <= c && c <= 'Z' {
        ((c as u8) + 32) as char
    } else {
        c
    }
}

fn to_upper(c: char) -> (r: char)
    ensures
        r == upper_char(c),
{
    if 'a' <= c && c <= 'z' {
        ((c as u8) - 32) as char
    } else {
        c
    }
}

/// A copy with the ASCII letters in lower case.
pub fn to_ascii_lowercase(s: &str) -> (r: String)
    ensures
        r@ == lowered(s@),
{
    let x = chars_of(s);
    let mut r: String = String::new();
    let mut i: usize = 0;
    while i < x.len()
        invariant
            i <= x@.len(),
            x@ == s@,
            r@ == lowered(s@).take(i as int),
        decreases x@.len() - i,
    {
        r.push(to_lower(x[i]));
        assert(lowered(s@).take(i as int).push(lower_char(s@[i as int])) =~= lowered(s@).take(
            i + 1,
        ));
        i = i + 1;
    }
    assert(lowered(s@).take(i as int) =~= lowered(s@));
    r
}

/// A copy with the ASCII letters in upper case.
pub fn to_ascii_uppercase(s: &str) -> (r: String)
    ensures
        r@ == uppered(s@),
{
    let x = chars_of(s);
    let mut r: String = String::new();
    let mut i: usize = 0;
    while i < x.len()
        invariant
            i <= x@.len(),
            x@ == s@,
            r@ == uppered(s@).take(i as int),
        decreases x@.len() - i,
    {
        r.push(to_upper(x[i]));
        assert(uppered(s@).take(i as int).push(upper_char(s@[i as int])) =~= uppered(s@).take(
            i + 1,
        ));
        i = i + 1;
    }
    assert(uppered(s@).take(i as int) =~= uppered(s@));
    r
}

/// Whether `c` stands in `s`.
pub fn has_char(s: &str, c: char) -> (r: bool)
    ensures
        r == s@.contains(c),
{
    let x = chars_of(s);
    let mut i: usize = 0;
    while i < x.len()
        invariant
            i <= x@.len(),
            x@ == s@,
            forall|j: int| 0 <= j < i ==> s@[j] != c,
        decreases x@.len() - i,
    {
        if x[i] == c {
            return true;
        }
        i = i + 1;
    }
    false
}

// ---------------------------------------------------------------------------
// What holds of every text
// ---------------------------------------------------------------------------
/// Lowering and raising case exchange the 26 letters of ASCII, each for its own
/// counterpart 32 places on, and leave every other character alone.
pub proof fn law_case_is_that_of_letters(s: Seq<char>, i: int)
    requires
        0 <= i < s.len(),
    ensures
        lowered(s).len() == s.len(),
        uppered(s).len() == s.len(),
        'A' <= s[i] <= 'Z' ==> lowered(s)[i] as int == s[i] as int + 32,
        !('A' <= s[i] <= 'Z') ==> lowered(s)[i] == s[i],
        'a' <= s[i] <= 'z' ==> uppered(s)[i] as int == s[i] as int - 32,
        !('a' <= s[i] <= 'z') ==> uppered(s)[i] == s[i],
{
}

/// A text holds whatever was put into it, at any place.
pub proof fn law_text_holds_its_parts(a: Seq<char>, p: Seq<char>, b: Seq<char>)
    ensures
        has_text(a + p + b, p),
{
    let s = a + p + b;
    assert(s.subrange(a.len() as int, (a.len() + p.len()) as int) =~= p);
    assert(occurs_at(s, p, a.len() as int));
}

/// A text that another one holds is what stands between two other parts of it.
pub proof fn law_held_text_is_a_part(s: Seq<char>, p: Seq<char>)
    requires
        has_text(s, p),
    ensures
        exists|a: Seq<char>, b: Seq<char>| s == #[trigger] (a + p + b),
{
    let i = choose|i: int| occurs_at(s, p, i);
    let a = s.take(i);
    let b = s.skip(i + p.len());
    assert(s =~= a + p + b) by {
        assert(s.subrange(i, i + p.len()) == p);
        assert forall|k: int| i <= k < i + p.len() implies s[k] == p[k - i] by {
            assert(s.subrange(i, i + p.len())[k - i] == s[k]);
        }
    }
}

/// Cutting a text at a separator gives the two parts that were joined with it, where
/// the first part with the separator does not hold it any earlier.
pub proof fn law_cut_gives_back_the_parts(a: Seq<char>, p: Seq<char>, b: Seq<char>)
    requires
        forall|i: int| 0 <= i < a.len() ==> !occurs_at(a + p + b, p, i),
    ensures
        around_first(a + p + b, p) == Some((a, b)),
{
    let s = a + p + b;
    lemma_position_from(s, p, 0);
    assert(s.subrange(a.len() as int, (a.len() + p.len()) as int) =~= p);
    assert(occurs_at(s, p, a.len() as int));
    match position(s, p) {
        Some(k) => {
            assert(k == a.len());
            assert(s.take(k) =~= a);
            assert(s.skip(k + p.len()) =~= b);
        },
        None => {
            assert(false);
        },
    }
}

/// A text that does not hold the separator is not cut.
pub proof fn law_nothing_is_cut_without_separator(s: Seq<char>, p: Seq<char>)
    requires
        forall|i: int| !occurs_at(s, p, i),
    ensures
        around_first(s, p) is None,
{
    lemma_position_from(s, p, 0);
}

/// What follows a prefix is what was joined to it, and there is nothing to tell of a
/// text that begins otherwise.
pub proof fn law_prefix_is_cut_off(p: Seq<char>, b: Seq<char>, s: Seq<char>)
    ensures
        after_prefix(p + b, p) == Some(b),
        after_prefix(s, p) matches Some(r) ==> s == p + r,
        after_prefix(s, p) is None ==> s != p + b,
{
    assert((p + b).take(p.len() as int) =~= p);
    assert(p.is_prefix_of(p + b));
    assert((p + b).skip(p.len() as int) =~= b);
    if p.is_prefix_of(s) {
        assert(s =~= p + s.skip(p.len() as int));
    }
}

/// Every leading copy of a text is taken off, and nothing else.
pub proof fn law_leading_copies_are_taken_off(s: Seq<char>, p: Seq<char>)
    requires
        p.len() > 0,
    ensures
        without_leading(p + s, p) == without_leading(s, p),
        !p.is_prefix_of(s) ==> without_leading(s, p) == s,
{
    assert((p + s).take(p.len() as int) =~= p);
    assert((p + s).skip(p.len() as int) =~= s);
    assert(p.is_prefix_of(p + s));
}

/// Tab, line feed, carriage return and blank are white space, and no visible ASCII
/// character is.
pub proof fn law_white_space_is_not_visible(c: char)
    ensures
        c == ' ' || c == '\t' || c == '\n' || c == '\r' ==> is_space(c),
        0x21 <= c as int <= 0x7e ==> !is_space(c),
{
}

proof fn lemma_front_space(a: Seq<char>, s: Seq<char>)
    requires
        forall|i: int| 0 <= i < a.len() ==> is_space(#[trigger] a[i]),
    ensures
        front_trimmed(a + s) == front_trimmed(s),
    decreases a.len(),
{
    if a.len() > 0 {
        let rest = a.drop_first();
        assert forall|i: int| 0 <= i < rest.len() implies is_space(#[trigger] rest[i]) by {
            assert(rest[i] == a[i + 1]);
        }
        lemma_front_space(rest, s);
        assert((a + s).first() == a[0]);
        assert((a + s).drop_first() =~= rest + s);
    } else {
        assert(a + s =~= s);
    }
}

proof fn lemma_back_space(s: Seq<char>, b: Seq<char>)
    requires
        forall|i: int| 0 <= i < b.len() ==> is_space(#[trigger] b[i]),
    ensures
        back_trimmed(s + b) == back_trimmed(s),
    decreases b.len(),
{
    if b.len() > 0 {
        let rest = b.drop_last();
        assert forall|i: int| 0 <= i < rest.len() implies is_space(#[trigger] rest[i]) by {
            assert(rest[i] == b[i]);
        }
        lemma_back_space(s, rest);
        assert((s + b).last() == b.last());
        assert((s + b).drop_last() =~= s + rest);
    } else {
        assert(s + b =~= s);
    }
}

/// White space around a text is taken off, however much there is on either side, and
/// nothing between is touched.
pub proof fn law_trimming_gives_back_the_text(a: Seq<char>, s: Seq<char>, b: Seq<char>)
    requires
        forall|i: int| 0 <= i < a.len() ==> is_space(#[trigger] a[i]),
        forall|i: int| 0 <= i < b.len() ==> is_space(#[trigger] b[i]),
        s.len() > 0 ==> !is_space(s[0]) && !is_space(s[s.len() - 1]),
    ensures
        trimmed(a + s + b) == s,
{
    assert(a + s + b =~= a + (s + b));
    lemma_front_space(a, s + b);
    if s.len() > 0 {
        assert((s + b).first() == s[0]);
        assert(front_trimmed(s + b) == s + b);
        lemma_back_space(s, b);
    } else {
        assert(s + b =~= b);
        assert(b =~= b + Seq::<char>::empty());
        lemma_front_space(b, Seq::<char>::empty());
        assert(s =~= Seq::<char>::empty());
    }
}

proof fn lemma_ends_without(a: Seq<char>, s: Seq<char>, b: Seq<char>, c: char)
    requires
        forall|i: int| 0 <= i < a.len() ==> #[trigger] a[i] == c,
        forall|i: int| 0 <= i < b.len() ==> #[trigger] b[i] == c,
    ensures
        front_without(a + s, c) == front_without(s, c),
        back_without(s + b, c) == back_without(s, c),
    decreases a.len() + b.len(),
{
    if a.len() > 0 {
        let rest = a.drop_first();
        assert forall|i: int| 0 <= i < rest.len() implies #[trigger] rest[i] == c by {
            assert(rest[i] == a[i + 1]);
        }
        assert((a + s).first() == a[0]);
        assert((a + s).drop_first() =~= rest + s);
        lemma_ends_without(rest, s, b, c);
    } else if b.len() > 0 {
        let rest = b.drop_last();
        assert forall|i: int| 0 <= i < rest.len() implies #[trigger] rest[i] == c by {
            assert(rest[i] == b[i]);
        }
        assert((s + b).last() == b.last());
        assert((s + b).drop_last() =~= s + rest);
        lemma_ends_without(a, s, rest, c);
        assert(a + s =~= s);
    } else {
        assert(a + s =~= s && s + b =~= s);
    }
}

/// The copies of a character around a text are taken off, and nothing between.
pub proof fn law_copies_around_are_taken_off(a: Seq<char>, s: Seq<char>, b: Seq<char>, c: char)
    requires
        forall|i: int| 0 <= i < a.len() ==> #[trigger] a[i] == c,
        forall|i: int| 0 <= i < b.len() ==> #[trigger] b[i] == c,
        s.len() > 0 ==> s[0] != c && s[s.len() - 1] != c,
    ensures
        back_without(front_without(a + s + b, c), c) == s,
{
    assert(a + s + b =~= a + (s + b));
    let none = Seq::<char>::empty();
    lemma_ends_without(a, s + b, none, c);
    if s.len() > 0 {
        assert((s + b).first() == s[0]);
        assert(front_without(s + b, c) == s + b);
        lemma_ends_without(none, s, b, c);
    } else {
        assert(s + b =~= b);
        assert(b =~= b + none);
        lemma_ends_without(b, none, none, c);
        assert(s =~= none);
    }
}

} // verus!
