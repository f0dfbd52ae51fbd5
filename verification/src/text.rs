//! Character-level text model shared by the parsers of command output.
//!
//! Every parser of the library works on the characters of its input. The spec
//! functions here state, over `Seq<char>`, what the standard string operations
//! that the parsers rely on compute (`split`, `split_whitespace`, `lines`,
//! `trim`, integer parsing); the executable functions compute them and are
//! proved equal to those statements.
use vstd::prelude::*;

verus! {

/// Unicode `White_Space`, the set that `char::is_whitespace` tests.
pub open spec fn is_ws(c: char) -> bool {
    ||| ('\u{9}' <= c && c <= '\u{d}')
    ||| c == ' '
    ||| c == '\u{85}'
    ||| c == '\u{a0}'
    ||| c == '\u{1680}'
    ||| ('\u{2000}' <= c && c <= '\u{200a}')
    ||| c == '\u{2028}'
    ||| c == '\u{2029}'
    ||| c == '\u{202f}'
    ||| c == '\u{205f}'
    ||| c == '\u{3000}'
}

pub fn is_whitespace(c: char) -> (r: bool)
    ensures
        r == is_ws(c),
{
    ('\u{9}' <= c && c <= '\u{d}') || c == ' ' || c == '\u{85}' || c == '\u{a0}' || c
        == '\u{1680}' || ('\u{2000}' <= c && c <= '\u{200a}') || c == '\u{2028}' || c
        == '\u{2029}' || c == '\u{202f}' || c == '\u{205f}' || c == '\u{3000}'
}

/// The characters of a string slice.
pub fn chars_of(s: &str) -> (v: Vec<char>)
    ensures
        v@ == s@,
{
    let mut v: Vec<char> = Vec::new();
    for c in it: s.chars()
        invariant
            it.seq() == s@,
            v@ == s@.take(it.index() as int),
    {
        v.push(c);
    }
    v
}

/// `String::push` appends one character.
pub assume_specification[ String::push ](s: &mut String, ch: char)
    ensures
        final(s)@ == old(s)@.push(ch),
;

/// The string made of the given characters.
pub fn string_of(v: &[char]) -> (s: String)
    ensures
        s@ == v@,
{
    let mut s = String::new();
    let mut i: usize = 0;
    while i < v.len()
        invariant
            i <= v@.len(),
            s@ == v@.take(i as int),
        decreases v@.len() - i,
    {
        s.push(v[i]);
        i = i + 1;
        assert(s@ =~= v@.take(i as int));
    }
    assert(v@.take(i as int) =~= v@);
    s
}

/// The string with the characters of a literal.
pub fn string_from(lit: &str) -> (s: String)
    ensures
        s@ == lit@,
{
    let v = chars_of(lit);
    string_of(v.as_slice())
}

/// Whether two character slices are equal.
pub fn seq_eq(a: &[char], b: &[char]) -> (r: bool)
    ensures
        r == (a@ == b@),
{
    if a.len() != b.len() {
        return false;
    }
    let mut i: usize = 0;
    while i < a.len()
        invariant
            i <= a@.len(),
            a@.len() == b@.len(),
            a@.take(i as int) == b@.take(i as int),
        decreases a@.len() - i,
    {
        if a[i] != b[i] {
            assert(a@[i as int] != b@[i as int]);
            return false;
        }
        assert(a@.take(i + 1) =~= a@.take(i as int).push(a@[i as int]));
        assert(b@.take(i + 1) =~= b@.take(i as int).push(b@[i as int]));
        i = i + 1;
    }
    assert(a@.take(i as int) =~= a@);
    assert(b@.take(i as int) =~= b@);
    true
}

/// Whether a character slice equals a literal.
pub fn eq_str(a: &[char], lit: &str) -> (r: bool)
    ensures
        r == (a@ == lit@),
{
    let l = chars_of(lit);
    seq_eq(a, l.as_slice())
}

/// The pieces of `s` between occurrences of `sep`, as `str::split` with a
/// character pattern yields them (always at least one piece).
pub open spec fn split(s: Seq<char>, sep: char) -> Seq<Seq<char>>
    decreases s.len(),
{
    if s.len() == 0 {
        seq![Seq::<char>::empty()]
    } else {
        let prev = split(s.drop_last(), sep);
        if s.last() == sep {
            prev.push(Seq::<char>::empty())
        } else {
            prev.update(prev.len() - 1, prev.last().push(s.last()))
        }
    }
}

pub proof fn lemma_split_nonempty(s: Seq<char>, sep: char)
    ensures
        split(s, sep).len() >= 1,
    decreases s.len(),
{
    if s.len() > 0 {
        lemma_split_nonempty(s.drop_last(), sep);
    }
}

/// A sequence with the separator in it splits into at least two pieces.
pub proof fn lemma_split_at_sep(s: Seq<char>, sep: char, i: int)
    requires
        0 <= i < s.len(),
        s[i] == sep,
    ensures
        split(s, sep).len() >= 2,
    decreases s.len(),
{
    lemma_split_nonempty(s.drop_last(), sep);
    if i < s.len() - 1 {
        lemma_split_at_sep(s.drop_last(), sep, i);
    }
}

/// What a sequence with one more element contains.
pub proof fn lemma_push_contains<A>(s: Seq<A>, x: A, y: A)
    ensures
        s.push(x).contains(y) == (s.contains(y) || x == y),
{
    if s.contains(y) {
        let i = choose|i: int| 0 <= i < s.len() && s[i] == y;
        assert(s.push(x)[i] == y);
    }
    if x == y {
        assert(s.push(x)[s.len() as int] == y);
    }
    if s.push(x).contains(y) {
        let i = choose|i: int| 0 <= i < s.push(x).len() && s.push(x)[i] == y;
        if i < s.len() {
            assert(s[i] == y);
        }
    }
}

/// The view of a vector of character vectors.
pub open spec fn views(v: Seq<Vec<char>>) -> Seq<Seq<char>> {
    v.map_values(|x: Vec<char>| x@)
}

pub fn split_on(s: &[char], sep: char) -> (r: Vec<Vec<char>>)
    ensures
        views(r@) == split(s@, sep),
{
    let mut r: Vec<Vec<char>> = Vec::new();
    r.push(Vec::new());
    let mut i: usize = 0;
    assert(s@.take(0) =~= Seq::<char>::empty());
    assert(views(r@) =~= split(s@.take(0), sep));
    while i < s.len()
        invariant
            i <= s@.len(),
            views(r@) == split(s@.take(i as int), sep),
            r@.len() >= 1,
        decreases s@.len() - i,
    {
        let c = s[i];
        let ghost pre = s@.take(i as int);
        assert(s@.take(i + 1).drop_last() =~= pre);
        if c == sep {
            r.push(Vec::new());
        } else {
            let mut piece = r.pop().unwrap();
            piece.push(c);
            r.push(piece);
        }
        i = i + 1;
        assert(views(r@) =~= split(s@.take(i as int), sep));
    }
    assert(s@.take(i as int) =~= s@);
    r
}

/// The maximal runs of non-whitespace characters, as `str::split_whitespace`
/// yields them.
pub open spec fn words(s: Seq<char>) -> Seq<Seq<char>>
    decreases s.len(),
{
    if s.len() == 0 {
        Seq::<Seq<char>>::empty()
    } else {
        let prev = words(s.drop_last());
        let c = s.last();
        if is_ws(c) {
            prev
        } else if s.len() >= 2 && !is_ws(s[s.len() - 2]) {
            prev.update(prev.len() - 1, prev.last().push(c))
        } else {
            prev.push(seq![c])
        }
    }
}

pub proof fn lemma_words_nonempty(s: Seq<char>)
    requires
        s.len() > 0,
        !is_ws(s.last()),
    ensures
        words(s).len() > 0,
    decreases s.len(),
{
    if s.len() >= 2 && !is_ws(s[s.len() - 2]) {
        lemma_words_nonempty(s.drop_last());
    }
}

pub fn split_ws(s: &[char]) -> (r: Vec<Vec<char>>)
    ensures
        views(r@) == words(s@),
{
    let mut r: Vec<Vec<char>> = Vec::new();
    let mut i: usize = 0;
    assert(views(r@) =~= words(s@.take(0)));
    while i < s.len()
        invariant
            i <= s@.len(),
            views(r@) == words(s@.take(i as int)),
        decreases s@.len() - i,
    {
        let c = s[i];
        let ghost pre = s@.take(i as int);
        assert(s@.take(i + 1).drop_last() =~= pre);
        if is_whitespace(c) {
        } else if i >= 1 && !is_whitespace(s[i - 1]) {
            proof {
                lemma_words_nonempty(pre);
            }
            let mut piece = r.pop().unwrap();
            piece.push(c);
            r.push(piece);
        } else {
            let mut piece: Vec<char> = Vec::new();
            piece.push(c);
            r.push(piece);
        }
        i = i + 1;
        assert(views(r@) =~= words(s@.take(i as int)));
    }
    assert(s@.take(i as int) =~= s@);
    r
}

/// `s` without its leading whitespace.
pub open spec fn trim_start(s: Seq<char>) -> Seq<char>
    decreases s.len(),
{
    if s.len() > 0 && is_ws(s[0]) {
        trim_start(s.drop_first())
    } else {
        s
    }
}

/// `s` without its trailing whitespace.
pub open spec fn trim_end(s: Seq<char>) -> Seq<char>
    decreases s.len(),
{
    if s.len() > 0 && is_ws(s.last()) {
        trim_end(s.drop_last())
    } else {
        s
    }
}

/// `s` without leading and trailing whitespace, as `str::trim` returns it.
pub open spec fn trim(s: Seq<char>) -> Seq<char> {
    trim_end(trim_start(s))
}

pub fn trimmed(s: &[char]) -> (r: Vec<char>)
    ensures
        r@ == trim(s@),
{
    let mut i: usize = 0;
    assert(s@.skip(0) =~= s@);
    while i < s.len() && is_whitespace(s[i])
        invariant
            i <= s@.len(),
            trim_start(s@) == trim_start(s@.skip(i as int)),
        decreases s@.len() - i,
    {
        assert(s@.skip(i as int).drop_first() =~= s@.skip(i + 1));
        i = i + 1;
    }
    assert(trim_start(s@.skip(i as int)) == s@.skip(i as int));
    let mut j: usize = s.len();
    assert(s@.subrange(i as int, j as int) =~= s@.skip(i as int));
    while j > i && is_whitespace(s[j - 1])
        invariant
            i <= j <= s@.len(),
            trim_end(s@.skip(i as int)) == trim_end(s@.subrange(i as int, j as int)),
        decreases j,
    {
        assert(s@.subrange(i as int, j as int).drop_last() =~= s@.subrange(i as int, j - 1));
        j = j - 1;
    }
    let mut r: Vec<char> = Vec::new();
    let mut k: usize = i;
    while k < j
        invariant
            i <= k <= j <= s@.len(),
            r@ == s@.subrange(i as int, k as int),
        decreases j - k,
    {
        r.push(s[k]);
        k = k + 1;
        assert(r@ =~= s@.subrange(i as int, k as int));
    }
    r
}

/// A line without the carriage return that ended it.
pub open spec fn strip_cr(p: Seq<char>) -> Seq<char> {
    if p.len() > 0 && p.last() == '\r' {
        p.drop_last()
    } else {
        p
    }
}

/// The lines of `s`, as `str::lines` yields them: split at `\n`, a `\r`
/// before a `\n` removed, and no empty line after a final `\n`.
pub open spec fn lines(s: Seq<char>) -> Seq<Seq<char>> {
    let p = split(s, '\n');
    let body = p.drop_last().map_values(|x: Seq<char>| strip_cr(x));
    if p.last().len() == 0 {
        body
    } else {
        body.push(p.last())
    }
}

pub fn strip_cr_exec(p: Vec<char>) -> (r: Vec<char>)
    ensures
        r@ == strip_cr(p@),
{
    let mut p = p;
    if p.len() > 0 && p[p.len() - 1] == '\r' {
        p.pop();
    }
    p
}

pub fn lines_of(s: &[char]) -> (r: Vec<Vec<char>>)
    ensures
        views(r@) == lines(s@),
{
    let pieces = split_on(s, '\n');
    proof {
        lemma_split_nonempty(s@, '\n');
    }
    let n = pieces.len();
    let mut r: Vec<Vec<char>> = Vec::new();
    let mut i: usize = 0;
    while i + 1 < n
        invariant
            n == pieces@.len(),
            n >= 1,
            i + 1 <= n,
            views(pieces@) == split(s@, '\n'),
            views(r@) == split(s@, '\n').take(i as int).map_values(|x: Seq<char>| strip_cr(x)),
        decreases n - i,
    {
        let piece = pieces[i].clone();
        assert(views(pieces@)[i as int] == pieces@[i as int]@);
        let stripped = strip_cr_exec(piece);
        let ghost old_r = r@;
        r.push(stripped);
        let ghost sp = split(s@, '\n');
        assert(views(r@) =~= views(old_r).push(stripped@));
        assert(sp.take(i + 1).map_values(|x: Seq<char>| strip_cr(x)) =~= sp.take(
            i as int,
        ).map_values(|x: Seq<char>| strip_cr(x)).push(strip_cr(sp[i as int])));
        i = i + 1;
        assert(views(r@) =~= split(s@, '\n').take(i as int).map_values(
            |x: Seq<char>| strip_cr(x),
        ));
    }
    assert(split(s@, '\n').take(i as int) =~= split(s@, '\n').drop_last());
    let last = pieces[n - 1].clone();
    assert(views(pieces@)[n - 1] == pieces@[n - 1]@);
    assert(last@ == split(s@, '\n').last());
    if last.len() > 0 {
        r.push(last);
        assert(views(r@) =~= lines(s@));
    }
    r
}

/// `s` begins with `p`.
pub open spec fn starts_with(s: Seq<char>, p: Seq<char>) -> bool {
    p.len() <= s.len() && s.take(p.len() as int) == p
}

/// `s` ends with `p`.
pub open spec fn ends_with(s: Seq<char>, p: Seq<char>) -> bool {
    p.len() <= s.len() && s.skip(s.len() - p.len()) == p
}

/// `p` occurs in `s` at position `i`.
pub open spec fn occurs_at(s: Seq<char>, p: Seq<char>, i: int) -> bool {
    0 <= i && i + p.len() <= s.len() && s.subrange(i, i + p.len()) == p
}

/// `p` occurs somewhere in `s`, as `str::contains` tests.
pub open spec fn contains(s: Seq<char>, p: Seq<char>) -> bool {
    exists|i: int| occurs_at(s, p, i)
}

pub fn matches_at(s: &[char], p: &[char], i: usize) -> (r: bool)
    ensures
        r == occurs_at(s@, p@, i as int),
{
    if i > s.len() || p.len() > s.len() - i {
        return false;
    }
    let mut k: usize = 0;
    let n = s.len();
    while k < p.len()
        invariant
            k <= p@.len(),
            n == s@.len(),
            i + p@.len() <= s@.len(),
            forall|m: int| 0 <= m < k ==> s@[i + m] == p@[m],
        decreases p@.len() - k,
    {
        assert(i + k < s@.len());
        if s[i + k] != p[k] {
            assert(s@.subrange(i as int, i + p@.len())[k as int] != p@[k as int]);
            return false;
        }
        k = k + 1;
    }
    assert(s@.subrange(i as int, i + p@.len()) =~= p@);
    true
}

pub fn starts_with_exec(s: &[char], p: &[char]) -> (r: bool)
    ensures
        r == starts_with(s@, p@),
{
    let r = matches_at(s, p, 0);
    assert(s@.subrange(0, p@.len() as int) =~= s@.take(p@.len() as int));
    r
}

pub fn starts_with_str(s: &[char], lit: &str) -> (r: bool)
    ensures
        r == starts_with(s@, lit@),
{
    let p = chars_of(lit);
    starts_with_exec(s, p.as_slice())
}

pub fn contains_exec(s: &[char], p: &[char]) -> (r: bool)
    ensures
        r == contains(s@, p@),
{
    if p.len() > s.len() {
        assert forall|i: int| !occurs_at(s@, p@, i) by {}
        return false;
    }
    let last = s.len() - p.len();
    let mut i: usize = 0;
    while i <= last
        invariant
            last == s@.len() - p@.len(),
            forall|k: int| 0 <= k < i ==> !occurs_at(s@, p@, k),
        decreases last + 1 - i,
    {
        if matches_at(s, p, i) {
            return true;
        }
        if i == last {
            assert forall|k: int| !occurs_at(s@, p@, k) by {}
            return false;
        }
        i = i + 1;
    }
    false
}

pub fn contains_str(s: &[char], lit: &str) -> (r: bool)
    ensures
        r == contains(s@, lit@),
{
    let p = chars_of(lit);
    contains_exec(s, p.as_slice())
}

/// `i` is the first position of `c` in `s`.
pub open spec fn is_first(s: Seq<char>, c: char, i: int) -> bool {
    0 <= i < s.len() && s[i] == c && forall|k: int| 0 <= k < i ==> s[k] != c
}

/// The first position of `c` in `s`, as `str::find` with a character gives it.
pub open spec fn find_char(s: Seq<char>, c: char) -> Option<int> {
    if exists|i: int| is_first(s, c, i) {
        Some(choose|i: int| is_first(s, c, i))
    } else {
        None
    }
}

/// The parts of `s` before and after the first `c`, as `str::split_once`
/// with a character gives them.
pub open spec fn split_once(s: Seq<char>, c: char) -> Option<(Seq<char>, Seq<char>)> {
    match find_char(s, c) {
        Some(i) => Some((s.take(i), s.skip(i + 1))),
        None => None,
    }
}

pub fn find_char_exec(s: &[char], c: char) -> (r: Option<usize>)
    ensures
        match find_char(s@, c) {
            Some(i) => r == Some(i as usize),
            None => r is None,
        },
        r matches Some(i) ==> is_first(s@, c, i as int),
{
    let mut i: usize = 0;
    while i < s.len()
        invariant
            i <= s@.len(),
            forall|k: int| 0 <= k < i ==> s@[k] != c,
        decreases s@.len() - i,
    {
        if s[i] == c {
            assert(is_first(s@, c, i as int));
            assert forall|j: int| is_first(s@, c, j) implies j == i by {
                if j < i {
                } else if j > i {
                    assert(s@[i as int] == c);
                }
            }
            return Some(i);
        }
        i = i + 1;
    }
    assert forall|j: int| !is_first(s@, c, j) by {}
    None
}

pub fn split_once_exec(s: &[char], c: char) -> (r: Option<(Vec<char>, Vec<char>)>)
    ensures
        match split_once(s@, c) {
            Some((a, b)) => r matches Some((x, y)) && x@ == a && y@ == b,
            None => r is None,
        },
{
    match find_char_exec(s, c) {
        Some(i) => {
            let mut a: Vec<char> = Vec::new();
            let mut b: Vec<char> = Vec::new();
            let mut k: usize = 0;
            while k < s.len()
                invariant
                    i < s@.len(),
                    k <= s@.len(),
                    a@ == s@.take(if k <= i { k as int } else { i as int }),
                    b@ == (if k <= i + 1 { Seq::<char>::empty() } else { s@.subrange(i + 1, k as int) }),
                decreases s@.len() - k,
            {
                if k < i {
                    a.push(s[k]);
                } else if k > i {
                    b.push(s[k]);
                }
                k = k + 1;
                assert(a@ =~= s@.take(if k <= i { k as int } else { i as int }));
                assert(b@ =~= (if k <= i + 1 { Seq::<char>::empty() } else { s@.subrange(i + 1, k as int) }));
            }
            assert(b@ =~= s@.skip(i + 1));
            Some((a, b))
        },
        None => None,
    }
}

/// The value of a digit character in the given radix, as `char::to_digit`
/// gives it.
pub open spec fn digit_val(c: char, radix: nat) -> Option<nat> {
    let d: int = if '0' <= c && c <= '9' {
        c as int - '0' as int
    } else if 'a' <= c && c <= 'z' {
        c as int - 'a' as int + 10
    } else if 'A' <= c && c <= 'Z' {
        c as int - 'A' as int + 10
    } else {
        99
    };
    if d < radix {
        Some(d as nat)
    } else {
        None
    }
}

/// The value of a sequence of digits (`Some(0)` for no digits).
pub open spec fn digits_value(d: Seq<char>, radix: nat) -> Option<nat>
    decreases d.len(),
{
    if d.len() == 0 {
        Some(0)
    } else {
        match (digits_value(d.drop_last(), radix), digit_val(d.last(), radix)) {
            (Some(v), Some(x)) => Some(v * radix + x),
            _ => None,
        }
    }
}

/// What `from_str_radix` of an unsigned integer type whose largest value is
/// `max` returns for `s`: an optional `+`, then at least one digit, the value
/// at most `max`.
pub open spec fn parse_unsigned(s: Seq<char>, radix: nat, max: nat) -> Option<nat> {
    let d = if s.len() > 0 && s[0] == '+' {
        s.drop_first()
    } else {
        s
    };
    if d.len() == 0 {
        None
    } else {
        match digits_value(d, radix) {
            Some(v) => if v <= max {
                Some(v)
            } else {
                None
            },
            None => None,
        }
    }
}

/// What `from_str_radix` of a signed integer type with range `min..=max`
/// returns for `s`: an optional sign, then at least one digit, the value in
/// range.
pub open spec fn parse_signed(s: Seq<char>, radix: nat, min: int, max: nat) -> Option<int> {
    if s.len() > 0 && s[0] == '-' {
        let d = s.drop_first();
        if d.len() == 0 {
            None
        } else {
            match digits_value(d, radix) {
                Some(v) => if -v >= min {
                    Some(-v)
                } else {
                    None
                },
                None => None,
            }
        }
    } else {
        match parse_unsigned(s, radix, max) {
            Some(v) => Some(v as int),
            None => None,
        }
    }
}

pub fn digit_value(c: char, radix: u32) -> (r: Option<u32>)
    requires
        2 <= radix <= 36,
    ensures
        match digit_val(c, radix as nat) {
            Some(v) => r == Some(v as u32),
            None => r is None,
        },
{
    let d: u32 = if '0' <= c && c <= '9' {
        (c as u32) - ('0' as u32)
    } else if 'a' <= c && c <= 'z' {
        (c as u32) - ('a' as u32) + 10
    } else if 'A' <= c && c <= 'Z' {
        (c as u32) - ('A' as u32) + 10
    } else {
        99
    };
    if d < radix {
        Some(d)
    } else {
        None
    }
}

proof fn lemma_digits_monotone(s: Seq<char>, i: int, j: int, radix: nat)
    requires
        0 <= i <= j <= s.len(),
        radix >= 1,
        digits_value(s.take(i), radix) is Some,
        digits_value(s.take(j), radix) is Some,
    ensures
        digits_value(s.take(i), radix)->0 <= digits_value(s.take(j), radix)->0,
    decreases j - i,
{
    if i < j {
        assert(s.take(j).drop_last() =~= s.take(j - 1));
        lemma_digits_monotone(s, i, j - 1, radix);
        let v = digits_value(s.take(j - 1), radix)->0;
        assert(v * radix >= v) by (nonlinear_arith)
            requires
                radix >= 1,
        ;
    }
}

proof fn lemma_digits_prefix_none(s: Seq<char>, i: int, j: int, radix: nat)
    requires
        0 <= i <= j <= s.len(),
        digits_value(s.take(i), radix) is None,
    ensures
        digits_value(s.take(j), radix) is None,
    decreases j - i,
{
    if i < j {
        assert(s.take(j).drop_last() =~= s.take(j - 1));
        lemma_digits_prefix_none(s, i, j - 1, radix);
    }
}

/// The value of the digits `d` when it is at most `max`.
pub fn parse_digits(d: &[char], radix: u32, max: u64) -> (r: Option<u64>)
    requires
        2 <= radix <= 36,
    ensures
        match digits_value(d@, radix as nat) {
            Some(v) => if v <= max {
                r == Some(v as u64)
            } else {
                r is None
            },
            None => r is None,
        },
{
    let mut acc: u64 = 0;
    let mut i: usize = 0;
    assert(d@.take(0) =~= Seq::<char>::empty());
    while i < d.len()
        invariant
            2 <= radix <= 36,
            i <= d@.len(),
            digits_value(d@.take(i as int), radix as nat) == Some(acc as nat),
            acc <= max,
        decreases d@.len() - i,
    {
        assert(d@.take(i + 1).drop_last() =~= d@.take(i as int));
        match digit_value(d[i], radix) {
            None => {
                proof {
                    lemma_digits_prefix_none(d@, i + 1, d@.len() as int, radix as nat);
                    assert(d@.take(d@.len() as int) =~= d@);
                }
                return None;
            },
            Some(x) => {
                let r64 = radix as u64;
                let x64 = x as u64;
                if acc > max / r64 {
                    proof {
                        let nv = acc * radix + x;
                        assert(acc * radix + x > max) by (nonlinear_arith)
                            requires
                                acc > max / (radix as u64),
                                radix >= 2,
                        ;
                        assert(digits_value(d@.take(i + 1), radix as nat) == Some(nv as nat));
                        assert(d@.take(d@.len() as int) =~= d@);
                        if digits_value(d@, radix as nat) is Some {
                            lemma_digits_monotone(d@, i + 1, d@.len() as int, radix as nat);
                        }
                    }
                    return None;
                }
                assert(acc * r64 <= max) by (nonlinear_arith)
                    requires
                        acc <= max / r64,
                        r64 >= 2,
                ;
                let m = acc * r64;
                if x64 > max - m {
                    proof {
                        let nv = acc * radix + x;
                        assert(digits_value(d@.take(i + 1), radix as nat) == Some(nv as nat));
                        assert(d@.take(d@.len() as int) =~= d@);
                        if digits_value(d@, radix as nat) is Some {
                            lemma_digits_monotone(d@, i + 1, d@.len() as int, radix as nat);
                        }
                    }
                    return None;
                }
                acc = m + x64;
            },
        }
        i = i + 1;
    }
    assert(d@.take(i as int) =~= d@);
    Some(acc)
}

/// `from_str_radix` for an unsigned type whose largest value is `max`.
pub fn parse_uint(s: &[char], radix: u32, max: u64) -> (r: Option<u64>)
    requires
        2 <= radix <= 36,
    ensures
        match parse_unsigned(s@, radix as nat, max as nat) {
            Some(v) => r == Some(v as u64),
            None => r is None,
        },
{
    let start: usize = if s.len() > 0 && s[0] == '+' {
        1
    } else {
        0
    };
    let ghost d = if s@.len() > 0 && s@[0] == '+' {
        s@.drop_first()
    } else {
        s@
    };
    let mut digits: Vec<char> = Vec::new();
    let mut k: usize = start;
    while k < s.len()
        invariant
            start <= k <= s@.len(),
            digits@ == s@.subrange(start as int, k as int),
        decreases s@.len() - k,
    {
        digits.push(s[k]);
        k = k + 1;
        assert(digits@ =~= s@.subrange(start as int, k as int));
    }
    assert(digits@ =~= d);
    if digits.len() == 0 {
        return None;
    }
    parse_digits(digits.as_slice(), radix, max)
}

/// `from_str_radix` for a signed type with range `min..=max`.
pub fn parse_int(s: &[char], radix: u32, min: i64, max: i64) -> (r: Option<i64>)
    requires
        2 <= radix <= 36,
        min < 0 <= max,
    ensures
        match parse_signed(s@, radix as nat, min as int, max as nat) {
            Some(v) => r == Some(v as i64),
            None => r is None,
        },
{
    if s.len() > 0 && s[0] == '-' {
        let mut digits: Vec<char> = Vec::new();
        let mut k: usize = 1;
        while k < s.len()
            invariant
                1 <= k <= s@.len(),
                digits@ == s@.subrange(1, k as int),
            decreases s@.len() - k,
        {
            digits.push(s[k]);
            k = k + 1;
            assert(digits@ =~= s@.subrange(1, k as int));
        }
        assert(digits@ =~= s@.drop_first());
        if digits.len() == 0 {
            return None;
        }
        let mag_max: u64 = ((0i128 - (min as i128)) as u64);
        match parse_digits(digits.as_slice(), radix, mag_max) {
            Some(v) => Some((0i128 - (v as i128)) as i64),
            None => None,
        }
    } else {
        match parse_uint(s, radix, max as u64) {
            Some(v) => Some(v as i64),
            None => None,
        }
    }
}

/// The character of a decimal digit.
pub open spec fn digit_char(d: nat) -> char {
    if d == 0 {
        '0'
    } else if d == 1 {
        '1'
    } else if d == 2 {
        '2'
    } else if d == 3 {
        '3'
    } else if d == 4 {
        '4'
    } else if d == 5 {
        '5'
    } else if d == 6 {
        '6'
    } else if d == 7 {
        '7'
    } else if d == 8 {
        '8'
    } else {
        '9'
    }
}

/// The decimal representation of `n`, as `{}` formats an unsigned integer.
pub open spec fn decimal(n: nat) -> Seq<char>
    decreases n,
{
    if n < 10 {
        seq![digit_char(n)]
    } else {
        decimal(n / 10).push(digit_char(n % 10))
    }
}

/// `s` padded on the left with `0` to at least `width` characters.
pub open spec fn pad_zeros(s: Seq<char>, width: nat) -> Seq<char> {
    if s.len() >= width {
        s
    } else {
        Seq::new((width - s.len()) as nat, |i: int| '0') + s
    }
}

/// The representation of a signed integer as `{:0w}` formats it: the sign
/// counts towards the width, zeros go after it.
pub open spec fn signed_padded(n: int, width: nat) -> Seq<char> {
    if n < 0 {
        seq!['-'] + pad_zeros(decimal((-n) as nat), if width >= 1 { (width - 1) as nat } else { 0 })
    } else {
        pad_zeros(decimal(n as nat), width)
    }
}

pub fn digit_to_char(d: u64) -> (c: char)
    requires
        d < 10,
    ensures
        c == digit_char(d as nat),
{
    if d == 0 {
        '0'
    } else if d == 1 {
        '1'
    } else if d == 2 {
        '2'
    } else if d == 3 {
        '3'
    } else if d == 4 {
        '4'
    } else if d == 5 {
        '5'
    } else if d == 6 {
        '6'
    } else if d == 7 {
        '7'
    } else if d == 8 {
        '8'
    } else {
        '9'
    }
}

pub fn decimal_of(n: u64) -> (r: Vec<char>)
    ensures
        r@ == decimal(n as nat),
    decreases n,
{
    if n < 10 {
        let mut v: Vec<char> = Vec::new();
        v.push(digit_to_char(n));
        assert(v@ =~= decimal(n as nat));
        v
    } else {
        let mut v = decimal_of(n / 10);
        v.push(digit_to_char(n % 10));
        v
    }
}

pub fn pad_zeros_exec(s: Vec<char>, width: usize) -> (r: Vec<char>)
    ensures
        r@ == pad_zeros(s@, width as nat),
{
    if s.len() >= width {
        return s;
    }
    let mut r: Vec<char> = Vec::new();
    let fill = width - s.len();
    let mut k: usize = 0;
    while k < fill
        invariant
            k <= fill,
            r@ == Seq::new(k as nat, |i: int| '0'),
        decreases fill - k,
    {
        r.push('0');
        k = k + 1;
        assert(r@ =~= Seq::new(k as nat, |i: int| '0'));
    }
    let mut j: usize = 0;
    while j < s.len()
        invariant
            j <= s@.len(),
            r@ == Seq::new(fill as nat, |i: int| '0') + s@.take(j as int),
        decreases s@.len() - j,
    {
        r.push(s[j]);
        j = j + 1;
        assert(r@ =~= Seq::new(fill as nat, |i: int| '0') + s@.take(j as int));
    }
    assert(s@.take(j as int) =~= s@);
    r
}

/// `n` formatted as `{:0w}` with `w == width`.
pub fn padded_u64(n: u64, width: usize) -> (r: Vec<char>)
    ensures
        r@ == pad_zeros(decimal(n as nat), width as nat),
{
    pad_zeros_exec(decimal_of(n), width)
}

/// `n` formatted as `{:0w}` with `w == width`.
pub fn padded_i64(n: i64, width: usize) -> (r: Vec<char>)
    ensures
        r@ == signed_padded(n as int, width as nat),
{
    if n < 0 {
        let mag: u64 = (0i128 - (n as i128)) as u64;
        let w = if width >= 1 {
            width - 1
        } else {
            0
        };
        let digits = pad_zeros_exec(decimal_of(mag), w);
        let mut r: Vec<char> = Vec::new();
        r.push('-');
        let mut j: usize = 0;
        while j < digits.len()
            invariant
                j <= digits@.len(),
                r@ == seq!['-'] + digits@.take(j as int),
            decreases digits@.len() - j,
        {
            r.push(digits[j]);
            j = j + 1;
            assert(r@ =~= seq!['-'] + digits@.take(j as int));
        }
        assert(digits@.take(j as int) =~= digits@);
        r
    } else {
        pad_zeros_exec(decimal_of(n as u64), width)
    }
}

/// Appends the characters of `b` to `a`.
pub fn append(a: &mut Vec<char>, b: &[char])
    ensures
        final(a)@ == old(a)@ + b@,
{
    let mut j: usize = 0;
    let ghost a0 = a@;
    while j < b.len()
        invariant
            j <= b@.len(),
            a@ == a0 + b@.take(j as int),
        decreases b@.len() - j,
    {
        a.push(b[j]);
        j = j + 1;
        assert(a@ =~= a0 + b@.take(j as int));
    }
    assert(b@.take(j as int) =~= b@);
}

/// Appends the characters of a literal to `a`.
pub fn append_str(a: &mut Vec<char>, lit: &str)
    ensures
        final(a)@ == old(a)@ + lit@,
{
    let b = chars_of(lit);
    append(a, b.as_slice());
}

/// The number of bytes of the UTF-8 encoding of `c`.
pub open spec fn utf8_len(c: char) -> nat {
    if (c as u32) < 0x80 {
        1
    } else if (c as u32) < 0x800 {
        2
    } else if (c as u32) < 0x10000 {
        3
    } else {
        4
    }
}

/// The number of bytes of the UTF-8 encoding of `s`, as `str::len` counts them.
pub open spec fn byte_len(s: Seq<char>) -> nat
    decreases s.len(),
{
    if s.len() == 0 {
        0
    } else {
        byte_len(s.drop_last()) + utf8_len(s.last())
    }
}

/// Byte offset `b` falls between two characters of `s`.
pub open spec fn is_boundary(s: Seq<char>, b: int) -> bool {
    exists|k: int| 0 <= k <= s.len() && byte_len(s.take(k)) == b
}

/// All characters of `s` are ASCII.
pub open spec fn all_ascii(s: Seq<char>) -> bool {
    forall|i: int| 0 <= i < s.len() ==> (s[i] as u32) < 0x80
}

pub fn char_byte_len(c: char) -> (n: usize)
    ensures
        n == utf8_len(c),
{
    if (c as u32) < 0x80 {
        1
    } else if (c as u32) < 0x800 {
        2
    } else if (c as u32) < 0x10000 {
        3
    } else {
        4
    }
}

/// Whether the byte length of `s` is at least `n`.
pub fn byte_len_at_least(s: &[char], n: usize) -> (r: bool)
    ensures
        r == (byte_len(s@) >= n),
{
    if n == 0 {
        return true;
    }
    let mut total: usize = 0;
    let mut i: usize = 0;
    assert(s@.take(0) =~= Seq::<char>::empty());
    while i < s.len()
        invariant
            i <= s@.len(),
            total == byte_len(s@.take(i as int)),
            total < n,
        decreases s@.len() - i,
    {
        assert(s@.take(i + 1).drop_last() =~= s@.take(i as int));
        let c = char_byte_len(s[i]);
        if c >= n - total {
            proof {
                lemma_byte_len_prefix(s@, i + 1);
            }
            return true;
        }
        total = total + c;
        i = i + 1;
    }
    assert(s@.take(i as int) =~= s@);
    false
}

pub proof fn lemma_byte_len_prefix(s: Seq<char>, k: int)
    requires
        0 <= k <= s.len(),
    ensures
        byte_len(s.take(k)) <= byte_len(s),
    decreases s.len() - k,
{
    if k < s.len() {
        assert(s.take(k + 1).drop_last() =~= s.take(k));
        lemma_byte_len_prefix(s, k + 1);
    } else {
        assert(s.take(k) =~= s);
    }
}

pub fn all_ascii_exec(s: &[char]) -> (r: bool)
    ensures
        r == all_ascii(s@),
{
    let mut i: usize = 0;
    while i < s.len()
        invariant
            i <= s@.len(),
            forall|k: int| 0 <= k < i ==> (s@[k] as u32) < 0x80,
        decreases s@.len() - i,
    {
        if (s[i] as u32) >= 0x80 {
            return false;
        }
        i = i + 1;
    }
    true
}

/// The characters `s[from..to]`.
pub fn slice_of(s: &[char], from: usize, to: usize) -> (r: Vec<char>)
    requires
        from <= to <= s@.len(),
    ensures
        r@ == s@.subrange(from as int, to as int),
{
    let mut r: Vec<char> = Vec::new();
    let mut k: usize = from;
    while k < to
        invariant
            from <= k <= to <= s@.len(),
            r@ == s@.subrange(from as int, k as int),
        decreases to - k,
    {
        r.push(s[k]);
        k = k + 1;
        assert(r@ =~= s@.subrange(from as int, k as int));
    }
    r
}

/// A character in ASCII lower case.
pub open spec fn ascii_lower_char(c: char) -> char {
    if 'A' <= c && c <= 'Z' {
        ((c as u32) + 32) as char
    } else {
        c
    }
}

/// A character in ASCII upper case.
pub open spec fn ascii_upper_char(c: char) -> char {
    if 'a' <= c && c <= 'z' {
        ((c as u32) - 32) as char
    } else {
        c
    }
}

/// The characters of `s` in ASCII lower case.
pub open spec fn ascii_lower(s: Seq<char>) -> Seq<char> {
    s.map_values(|c: char| ascii_lower_char(c))
}

/// The characters of `s` in ASCII upper case.
pub open spec fn ascii_upper(s: Seq<char>) -> Seq<char> {
    s.map_values(|c: char| ascii_upper_char(c))
}

/// What `str::to_lowercase` returns for these characters (Unicode lower
/// case mapping).
pub uninterp spec fn lowercase(s: Seq<char>) -> Seq<char>;

/// What `str::to_uppercase` returns for these characters (Unicode upper
/// case mapping).
pub uninterp spec fn uppercase(s: Seq<char>) -> Seq<char>;

/// `str::to_lowercase` on the characters of `s`: the Unicode lower case
/// mapping, which maps each character to one or more characters, and on
/// ASCII text lowers `A`..`Z` and keeps the rest.
#[verifier::external_body]
pub(crate) fn lowercase_of(s: &[char]) -> (r: Vec<char>)
    ensures
        r@ == lowercase(s@),
        r@.len() >= s@.len(),
        all_ascii(s@) ==> r@ == ascii_lower(s@),
{
    let st: String = s.iter().collect();
    st.to_lowercase().chars().collect()
}

/// `str::to_uppercase` on the characters of `s`: the Unicode upper case
/// mapping, which maps each character to one or more characters, and on
/// ASCII text raises `a`..`z` and keeps the rest.
#[verifier::external_body]
pub(crate) fn uppercase_of(s: &[char]) -> (r: Vec<char>)
    ensures
        r@ == uppercase(s@),
        r@.len() >= s@.len(),
        all_ascii(s@) ==> r@ == ascii_upper(s@),
{
    let st: String = s.iter().collect();
    st.to_uppercase().chars().collect()
}

/// `s` with every trailing occurrence of `p` removed, as
/// `str::trim_end_matches` with a string pattern returns it.
pub open spec fn strip_suffixes(s: Seq<char>, p: Seq<char>) -> Seq<char>
    decreases s.len(),
{
    if p.len() > 0 && ends_with(s, p) {
        strip_suffixes(s.take(s.len() - p.len()), p)
    } else {
        s
    }
}

pub fn trim_end_matches_str(s: &[char], lit: &str) -> (r: Vec<char>)
    ensures
        r@ == strip_suffixes(s@, lit@),
{
    let p = chars_of(lit);
    let mut j: usize = s.len();
    assert(s@.take(j as int) =~= s@);
    loop
        invariant
            j <= s@.len(),
            p@ == lit@,
            strip_suffixes(s@, p@) == strip_suffixes(s@.take(j as int), p@),
        ensures
            j <= s@.len(),
            strip_suffixes(s@, p@) == s@.take(j as int),
        decreases j,
    {
        if p.len() == 0 || j < p.len() {
            break;
        }
        let hit = matches_at(s, p.as_slice(), j - p.len());
        assert(s@.take(j as int).skip(j - p@.len()) =~= s@.subrange(j - p@.len(), j as int));
        if !hit {
            break;
        }
        assert(s@.take(j as int).take(j - p@.len()) =~= s@.take(j - p@.len()));
        j = j - p.len();
    }
    slice_of(s, 0, j)
}

/// `s` without the leading occurrences of `c`.
pub open spec fn trim_char_start(s: Seq<char>, c: char) -> Seq<char>
    decreases s.len(),
{
    if s.len() > 0 && s[0] == c {
        trim_char_start(s.drop_first(), c)
    } else {
        s
    }
}

/// `s` without the trailing occurrences of `c`.
pub open spec fn trim_char_end(s: Seq<char>, c: char) -> Seq<char>
    decreases s.len(),
{
    if s.len() > 0 && s.last() == c {
        trim_char_end(s.drop_last(), c)
    } else {
        s
    }
}

/// `s` without leading and trailing occurrences of `c`, as
/// `str::trim_matches` with a character returns it.
pub open spec fn trim_char(s: Seq<char>, c: char) -> Seq<char> {
    trim_char_end(trim_char_start(s, c), c)
}

pub fn trim_char_exec(s: &[char], c: char) -> (r: Vec<char>)
    ensures
        r@ == trim_char(s@, c),
{
    let mut i: usize = 0;
    assert(s@.skip(0) =~= s@);
    while i < s.len() && s[i] == c
        invariant
            i <= s@.len(),
            trim_char_start(s@, c) == trim_char_start(s@.skip(i as int), c),
        decreases s@.len() - i,
    {
        assert(s@.skip(i as int).drop_first() =~= s@.skip(i + 1));
        i = i + 1;
    }
    let mut j: usize = s.len();
    assert(s@.subrange(i as int, j as int) =~= s@.skip(i as int));
    while j > i && s[j - 1] == c
        invariant
            i <= j <= s@.len(),
            trim_char_end(s@.skip(i as int), c) == trim_char_end(s@.subrange(i as int, j as int), c),
        decreases j,
    {
        assert(s@.subrange(i as int, j as int).drop_last() =~= s@.subrange(i as int, j - 1));
        j = j - 1;
    }
    slice_of(s, i, j)
}

/// `s` after the prefix `lit`, as `str::strip_prefix` returns it.
pub fn strip_prefix_str(s: &[char], lit: &str) -> (r: Option<Vec<char>>)
    ensures
        match r {
            Some(t) => starts_with(s@, lit@) && t@ == s@.skip(lit@.len() as int),
            None => !starts_with(s@, lit@),
        },
{
    let p = chars_of(lit);
    if starts_with_exec(s, p.as_slice()) {
        let t = slice_of(s, p.len(), s.len());
        assert(t@ =~= s@.skip(lit@.len() as int));
        Some(t)
    } else {
        None
    }
}

/// The trimmed content of a file when it is not empty.
pub open spec fn sysfs_text(content: Option<Seq<char>>) -> Option<Seq<char>> {
    match content {
        Some(c) => if trim(c).len() > 0 {
            Some(trim(c))
        } else {
            None
        },
        None => None,
    }
}

/// The unsigned value a file holds.
pub open spec fn sysfs_unsigned(content: Option<Seq<char>>) -> Option<nat> {
    match sysfs_text(content) {
        Some(t) => parse_unsigned(t, 10, u64::MAX as nat),
        None => None,
    }
}

/// The signed value a file holds.
pub open spec fn sysfs_signed(content: Option<Seq<char>>) -> Option<int> {
    match sysfs_text(content) {
        Some(t) => parse_signed(t, 10, i64::MIN as int, i64::MAX as nat),
        None => None,
    }
}

/// The view of an optional string.
pub open spec fn opt_view(o: Option<String>) -> Option<Seq<char>> {
    match o {
        Some(s) => Some(s@),
        None => None,
    }
}

/// The view of an optional vector of characters.
pub open spec fn opt_chars(o: Option<Vec<char>>) -> Option<Seq<char>> {
    match o {
        Some(s) => Some(s@),
        None => None,
    }
}

/// A file's content, trimmed, when it is not empty.
pub fn read_sysfs_string(content: Option<&String>) -> (r: Option<Vec<char>>)
    ensures
        opt_chars(r) == sysfs_text(match content {
            Some(c) => Some(c@),
            None => None,
        }),
{
    match content {
        Some(c) => {
            let t = trimmed(chars_of(c.as_str()).as_slice());
            if t.len() > 0 {
                Some(t)
            } else {
                None
            }
        },
        None => None,
    }
}

/// The unsigned value a file holds.
pub fn read_sysfs_u64(content: Option<&String>) -> (r: Option<u64>)
    ensures
        match sysfs_unsigned(match content {
            Some(c) => Some(c@),
            None => None,
        }) {
            Some(v) => r == Some(v as u64),
            None => r is None,
        },
{
    match read_sysfs_string(content) {
        Some(t) => parse_uint(t.as_slice(), 10, u64::MAX),
        None => None,
    }
}

/// The signed value a file holds.
pub fn read_sysfs_i64(content: Option<&String>) -> (r: Option<i64>)
    ensures
        match sysfs_signed(match content {
            Some(c) => Some(c@),
            None => None,
        }) {
            Some(v) => r == Some(v as i64),
            None => r is None,
        },
{
    match read_sysfs_string(content) {
        Some(t) => parse_int(t.as_slice(), 10, i64::MIN, i64::MAX),
        None => None,
    }
}

/// The view of a vector of strings.
pub open spec fn string_views(v: Seq<String>) -> Seq<Seq<char>> {
    v.map_values(|s: String| s@)
}

/// Whether one of the strings `v` is `s`, as `[String]::contains` tests.
pub fn contains_string(v: &[String], s: &[char]) -> (r: bool)
    ensures
        r == string_views(v@).contains(s@),
{
    let mut i: usize = 0;
    while i < v.len()
        invariant
            i <= v@.len(),
            forall|k: int| 0 <= k < i ==> v@[k]@ != s@,
        decreases v@.len() - i,
    {
        let c = chars_of(v[i].as_str());
        if seq_eq(c.as_slice(), s) {
            assert(string_views(v@)[i as int] == s@);
            return true;
        }
        i = i + 1;
    }
    assert forall|k: int| 0 <= k < string_views(v@).len() implies string_views(v@)[k] != s@ by {
        assert(string_views(v@)[k] == v@[k]@);
    }
    false
}

/// A copy of the characters `s`.
pub fn copy_of(s: &[char]) -> (r: Vec<char>)
    ensures
        r@ == s@,
{
    let r = slice_of(s, 0, s.len());
    assert(s@.subrange(0, s@.len() as int) =~= s@);
    r
}

/// `i` is the first position where `p` occurs in `s`.
pub open spec fn is_first_occurrence(s: Seq<char>, p: Seq<char>, i: int) -> bool {
    occurs_at(s, p, i) && forall|k: int| 0 <= k < i ==> !occurs_at(s, p, k)
}

/// The first position of `p` in `s`, as `str::find` with a string gives it.
pub open spec fn find_str(s: Seq<char>, p: Seq<char>) -> Option<int> {
    if exists|i: int| is_first_occurrence(s, p, i) {
        Some(choose|i: int| is_first_occurrence(s, p, i))
    } else {
        None
    }
}

/// The second piece of `s` split at the string `p`, as
/// `str::split(p).nth(1)` gives it: the text after the first occurrence of
/// `p` up to the next one.
pub open spec fn second_piece(s: Seq<char>, p: Seq<char>) -> Option<Seq<char>> {
    match find_str(s, p) {
        Some(i) => {
            let rest = s.skip(i + p.len());
            match find_str(rest, p) {
                Some(j) => Some(rest.take(j)),
                None => Some(rest),
            }
        },
        None => None,
    }
}

/// The first position of `p` in `s`.
pub fn find_str_exec(s: &[char], p: &[char]) -> (r: Option<usize>)
    requires
        p@.len() > 0,
    ensures
        match find_str(s@, p@) {
            Some(i) => r == Some(i as usize),
            None => r is None,
        },
        r matches Some(i) ==> is_first_occurrence(s@, p@, i as int),
{
    let mut i: usize = 0;
    while i < s.len()
        invariant
            i <= s@.len(),
            p@.len() > 0,
            forall|k: int| 0 <= k < i ==> !occurs_at(s@, p@, k),
        decreases s@.len() - i,
    {
        if matches_at(s, p, i) {
            assert(is_first_occurrence(s@, p@, i as int));
            assert forall|j: int| is_first_occurrence(s@, p@, j) implies j == i by {
                if j > i {
                    assert(occurs_at(s@, p@, i as int));
                }
            }
            return Some(i);
        }
        i = i + 1;
    }
    assert forall|j: int| !is_first_occurrence(s@, p@, j) by {
        if 0 <= j && j >= s@.len() {
            assert(!occurs_at(s@, p@, j));
        }
    }
    None
}

/// The second piece of `s` split at `lit`.
pub fn second_piece_exec(s: &[char], lit: &str) -> (r: Option<Vec<char>>)
    requires
        lit@.len() > 0,
    ensures
        match second_piece(s@, lit@) {
            Some(t) => r matches Some(x) && x@ == t,
            None => r is None,
        },
{
    let p = chars_of(lit);
    match find_str_exec(s, p.as_slice()) {
        Some(i) => {
            assert(occurs_at(s@, p@, i as int));
            let plen = p.len();
            let n = s.len();
            assert(i + plen <= n);
            let start: usize = i + plen;
            let rest = slice_of(s, start, s.len());
            assert(rest@ =~= s@.skip(i + p@.len()));
            match find_str_exec(rest.as_slice(), p.as_slice()) {
                Some(j) => {
                    let t = slice_of(rest.as_slice(), 0, j);
                    assert(t@ =~= rest@.take(j as int));
                    Some(t)
                },
                None => Some(rest),
            }
        },
        None => None,
    }
}

/// The words `w` joined with single spaces.
pub open spec fn joined(w: Seq<Seq<char>>) -> Seq<char>
    decreases w.len(),
{
    if w.len() == 0 {
        Seq::<char>::empty()
    } else if w.len() == 1 {
        w[0]
    } else {
        joined(w.drop_last()) + " "@ + w.last()
    }
}

} // verus!
