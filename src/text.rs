//! Character-level helpers on strings: containment, trimming, line splitting,
//! prefix stripping and decimal numbers.

use vstd::prelude::*;
use vstd::string::*;

verus! {

broadcast use vstd::string::group_string_axioms;

/// The views of a sequence of strings.
pub open spec fn views(v: Seq<String>) -> Seq<Seq<char>> {
    v.map_values(|s: String| s@)
}

pub open spec fn opt_string(o: Option<String>) -> Option<Seq<char>> {
    match o {
        Some(s) => Some(s@),
        None => None,
    }
}

/// Does `p` occur in `s` starting at position `i`?
pub open spec fn occurs_at(s: Seq<char>, p: Seq<char>, i: int) -> bool {
    0 <= i && i + p.len() <= s.len() && s.subrange(i, i + p.len()) == p
}

/// Substring containment, case-sensitive; the empty pattern occurs everywhere.
pub open spec fn contains_text(s: Seq<char>, p: Seq<char>) -> bool {
    exists|i: int| #[trigger] occurs_at(s, p, i)
}

/// Unicode White_Space, as `char::is_whitespace` decides it.
pub open spec fn is_ws(c: char) -> bool {
    let u = c as u32;
    (9 <= u <= 13) || u == 32 || u == 0x85 || u == 0xA0 || u == 0x1680 || (0x2000 <= u
        <= 0x200A) || u == 0x2028 || u == 0x2029 || u == 0x202F || u == 0x205F || u == 0x3000
}

pub open spec fn trim_start(s: Seq<char>) -> Seq<char>
    decreases s.len(),
{
    if s.len() > 0 && is_ws(s[0]) {
        trim_start(s.drop_first())
    } else {
        s
    }
}

pub open spec fn trim_end(s: Seq<char>) -> Seq<char>
    decreases s.len(),
{
    if s.len() > 0 && is_ws(s.last()) {
        trim_end(s.drop_last())
    } else {
        s
    }
}

/// `s` without leading and trailing whitespace.
pub open spec fn trim(s: Seq<char>) -> Seq<char> {
    trim_end(trim_start(s))
}

/// `s` split at every `'\n'`; the piece after the last one is included, even if empty.
pub open spec fn pieces(s: Seq<char>) -> Seq<Seq<char>>
    decreases s.len(),
{
    if s.len() == 0 {
        seq![Seq::<char>::empty()]
    } else if s.last() == '\n' {
        pieces(s.drop_last()).push(Seq::<char>::empty())
    } else {
        let p = pieces(s.drop_last());
        p.update(p.len() - 1, p.last().push(s.last()))
    }
}

/// A line without the `'\r'` of a `"\r\n"` ending.
pub open spec fn strip_cr(l: Seq<char>) -> Seq<char> {
    if l.len() > 0 && l.last() == '\r' {
        l.drop_last()
    } else {
        l
    }
}

/// The lines of `s` as `str::lines` yields them: split at `"\n"` or `"\r\n"`,
/// with the final line ending optional.
pub open spec fn lines_of(s: Seq<char>) -> Seq<Seq<char>> {
    let p = pieces(s);
    let q = if p.last().len() == 0 {
        p.drop_last()
    } else {
        p
    };
    q.map_values(|l: Seq<char>| strip_cr(l))
}

/// `s` with every leading repetition of `p` removed, as `str::trim_start_matches` does.
pub open spec fn strip_repeated(s: Seq<char>, p: Seq<char>) -> Seq<char>
    decreases s.len(),
{
    if p.len() > 0 && p.len() <= s.len() && s.subrange(0, p.len() as int) == p {
        strip_repeated(s.subrange(p.len() as int, s.len() as int), p)
    } else {
        s
    }
}

pub open spec fn is_digit(c: char) -> bool {
    48 <= (c as u32) <= 57
}

pub open spec fn digit_value(c: char) -> nat {
    ((c as u32) - 48) as nat
}

/// A non-empty run of ASCII digits.
pub open spec fn all_digits(s: Seq<char>) -> bool {
    s.len() > 0 && forall|i: int| 0 <= i < s.len() ==> is_digit(#[trigger] s[i])
}

/// The value of a run of decimal digits.
pub open spec fn decimal_value(s: Seq<char>) -> nat
    decreases s.len(),
{
    if s.len() == 0 {
        0
    } else {
        decimal_value(s.drop_last()) * 10 + digit_value(s.last())
    }
}

/// The digits of an unsigned number, after its optional `'+'` sign.
pub open spec fn unsigned_digits(s: Seq<char>) -> Seq<char> {
    if s.len() > 0 && s[0] == '+' {
        s.drop_first()
    } else {
        s
    }
}

/// `s` is an unsigned decimal number, written as `str::parse` accepts it.
pub open spec fn is_unsigned(s: Seq<char>) -> bool {
    all_digits(unsigned_digits(s))
}

/// The value of an unsigned decimal number.
pub open spec fn unsigned_value(s: Seq<char>) -> nat {
    decimal_value(unsigned_digits(s))
}

/// The characters of `s`, in order.
pub fn chars_of(s: &str) -> (r: Vec<char>)
    ensures
        r@ == s@,
{
    let n = s.unicode_len();
    let mut r: Vec<char> = Vec::new();
    let mut i: usize = 0;
    while i < n
        invariant
            n == s@.len(),
            i <= n,
            r@ == s@.subrange(0, i as int),
        decreases n - i,
    {
        r.push(s.get_char(i));
        i = i + 1;
    }
    r
}

/// A copy of the characters `from..to` of `s`.
pub fn slice_of(s: &str, from: usize, to: usize) -> (r: String)
    requires
        from <= to <= s@.len(),
    ensures
        r@ == s@.subrange(from as int, to as int),
{
    String::from_str(s.substring_char(from, to))
}

pub fn is_ws_char(c: char) -> (r: bool)
    ensures
        r == is_ws(c),
{
    let u = c as u32;
    (9 <= u && u <= 13) || u == 32 || u == 0x85 || u == 0xA0 || u == 0x1680 || (0x2000 <= u && u
        <= 0x200A) || u == 0x2028 || u == 0x2029 || u == 0x202F || u == 0x205F || u == 0x3000
}

/// Does `p` occur at position `i` of `s`?
fn occurs_at_exec(s: &Vec<char>, p: &Vec<char>, i: usize) -> (r: bool)
    requires
        i + p@.len() <= s@.len(),
    ensures
        r == occurs_at(s@, p@, i as int),
{
    let m = p.len();
    let n = s.len();
    let mut j: usize = 0;
    while j < m
        invariant
            m == p@.len(),
            n == s@.len(),
            i + m <= s@.len(),
            j <= m,
            forall|t: int| 0 <= t < j ==> s@[i + t] == p@[t],
        decreases m - j,
    {
        if s[i + j] != p[j] {
            assert(s@.subrange(i as int, i + m)[j as int] != p@[j as int]);
            return false;
        }
        j = j + 1;
    }
    assert(s@.subrange(i as int, i + m) =~= p@);
    true
}

/// Does `p` occur in `s`?
pub fn contains_chars(s: &Vec<char>, p: &Vec<char>) -> (r: bool)
    ensures
        r == contains_text(s@, p@),
{
    let n = s.len();
    let m = p.len();
    if m > n {
        assert forall|i: int| !occurs_at(s@, p@, i) by {}
        return false;
    }
    if m == 0 {
        assert(s@.subrange(0, 0) =~= p@);
        assert(occurs_at(s@, p@, 0));
        return true;
    }
    let mut i: usize = 0;
    while i < n - m + 1
        invariant
            n == s@.len(),
            m == p@.len(),
            1 <= m <= n,
            i <= n - m + 1,
            forall|k: int| 0 <= k < i ==> !occurs_at(s@, p@, k),
        decreases n - m + 1 - i,
    {
        if occurs_at_exec(s, p, i) {
            return true;
        }
        i = i + 1;
    }
    assert forall|k: int| !occurs_at(s@, p@, k) by {
        if 0 <= k < i {
        }
    }
    false
}

/// Does `p` occur in `s`?
pub fn contains(s: &str, p: &str) -> (r: bool)
    ensures
        r == contains_text(s@, p@),
{
    contains_chars(&chars_of(s), &chars_of(p))
}

/// The bounds of `trim(s[lo..hi])` within `s`.
pub fn trim_bounds(s: &Vec<char>, lo: usize, hi: usize) -> (r: (usize, usize))
    requires
        lo <= hi <= s@.len(),
    ensures
        lo <= r.0 <= r.1 <= hi,
        s@.subrange(r.0 as int, r.1 as int) == trim(s@.subrange(lo as int, hi as int)),
{
    let mut a = lo;
    while a < hi && is_ws_char(s[a])
        invariant
            lo <= a <= hi <= s@.len(),
            trim_start(s@.subrange(a as int, hi as int)) == trim_start(
                s@.subrange(lo as int, hi as int),
            ),
        decreases hi - a,
    {
        assert(s@.subrange(a as int, hi as int).drop_first() =~= s@.subrange(a + 1, hi as int));
        a = a + 1;
    }
    assert(trim_start(s@.subrange(a as int, hi as int)) == s@.subrange(a as int, hi as int));
    let mut b = hi;
    while b > a && is_ws_char(s[b - 1])
        invariant
            lo <= a <= b <= hi <= s@.len(),
            trim_end(s@.subrange(a as int, b as int)) == trim_end(
                s@.subrange(a as int, hi as int),
            ),
        decreases b - a,
    {
        assert(s@.subrange(a as int, b as int).drop_last() =~= s@.subrange(a as int, b - 1));
        b = b - 1;
    }
    (a, b)
}

/// `s` without leading and trailing whitespace.
pub fn trim_str(s: &str) -> (r: String)
    ensures
        r@ == trim(s@),
{
    let cs = chars_of(s);
    let (a, b) = trim_bounds(&cs, 0, cs.len());
    assert(s@.subrange(0, s@.len() as int) =~= s@);
    slice_of(s, a, b)
}

proof fn lemma_pieces_nonempty(s: Seq<char>)
    ensures
        pieces(s).len() >= 1,
    decreases s.len(),
{
    if s.len() > 0 {
        lemma_pieces_nonempty(s.drop_last());
    }
}

/// The lines of `s`, as `str::lines` yields them.
pub fn split_lines(s: &str) -> (r: Vec<String>)
    ensures
        views(r@) == lines_of(s@),
{
    let cs = chars_of(s);
    let n = cs.len();
    let mut done: Vec<String> = Vec::new();
    let mut start: usize = 0;
    let mut i: usize = 0;
    assert(s@.subrange(0, 0) =~= Seq::<char>::empty());
    assert(views(done@).push(s@.subrange(0, 0)) =~= seq![Seq::<char>::empty()]);
    while i < n
        invariant
            n == cs@.len(),
            cs@ == s@,
            start <= i <= n,
            views(done@).push(s@.subrange(start as int, i as int)) == pieces(
                s@.subrange(0, i as int),
            ),
        decreases n - i,
    {
        let ghost before = s@.subrange(0, i as int);
        proof {
            assert(s@.subrange(0, i + 1).drop_last() =~= before);
            lemma_pieces_nonempty(before);
        }
        if cs[i] == '\n' {
            let piece = slice_of(s, start, i);
            proof {
                assert(views(done@.push(piece)) =~= views(done@).push(piece@));
            }
            done.push(piece);
            start = i + 1;
            proof {
                assert(s@.subrange(0, i + 1).last() == '\n');
                assert(s@.subrange(start as int, i + 1) =~= Seq::<char>::empty());
                assert(pieces(s@.subrange(0, i + 1)) == pieces(before).push(Seq::<char>::empty()));
                assert(views(done@).push(s@.subrange(start as int, i + 1)) =~= pieces(
                    s@.subrange(0, i + 1),
                ));
            }
        } else {
            let ghost p = pieces(before);
            assert(s@.subrange(start as int, i + 1) =~= s@.subrange(start as int, i as int).push(
                cs@[i as int],
            ));
            assert(views(done@).push(s@.subrange(start as int, i + 1)) =~= p.update(
                p.len() - 1,
                p.last().push(cs@[i as int]),
            ));
        }
        i = i + 1;
    }
    assert(s@.subrange(0, n as int) =~= s@);
    if start < n {
        let piece = slice_of(s, start, n);
        proof {
            assert(views(done@.push(piece)) =~= views(done@).push(piece@));
        }
        done.push(piece);
    }
    let mut r: Vec<String> = Vec::new();
    let mut k: usize = 0;
    while k < done.len()
        invariant
            k <= done@.len(),
            views(r@) == views(done@).subrange(0, k as int).map_values(|l: Seq<char>| strip_cr(l)),
        decreases done@.len() - k,
    {
        let line = &done[k];
        let cl = chars_of(line.as_str());
        let stripped = if cl.len() > 0 && cl[cl.len() - 1] == '\r' {
            slice_of(line.as_str(), 0, cl.len() - 1)
        } else {
            slice_of(line.as_str(), 0, cl.len())
        };
        proof {
            assert(line@.subrange(0, line@.len() as int) =~= line@);
            if line@.len() > 0 {
                assert(line@.drop_last() =~= line@.subrange(0, line@.len() - 1));
            }
            assert(views(r@.push(stripped)) =~= views(r@).push(stripped@));
            assert(views(done@).subrange(0, k + 1).map_values(|l: Seq<char>| strip_cr(l))
                =~= views(done@).subrange(0, k as int).map_values(|l: Seq<char>| strip_cr(l)).push(
                strip_cr(done@[k as int]@),
            ));
        }
        r.push(stripped);
        k = k + 1;
    }
    proof {
        assert(views(done@).subrange(0, done@.len() as int) =~= views(done@));
    }
    r
}

/// `s` with every leading repetition of `p` removed.
pub fn strip_prefix_repeated(s: &str, p: &str) -> (r: String)
    ensures
        r@ == strip_repeated(s@, p@),
{
    let cs = chars_of(s);
    let pc = chars_of(p);
    let n = cs.len();
    let m = pc.len();
    let mut pos: usize = 0;
    assert(s@.subrange(0, n as int) =~= s@);
    while m > 0 && m <= n - pos && occurs_at_exec(&cs, &pc, pos)
        invariant
            cs@ == s@,
            pc@ == p@,
            n == s@.len(),
            m == p@.len(),
            pos <= n,
            strip_repeated(s@.subrange(pos as int, n as int), p@) == strip_repeated(s@, p@),
        decreases n - pos,
    {
        let ghost rest = s@.subrange(pos as int, n as int);
        assert(rest.subrange(0, m as int) =~= s@.subrange(pos as int, pos + m));
        assert(rest.subrange(m as int, rest.len() as int) =~= s@.subrange(pos + m, n as int));
        pos = pos + m;
    }
    proof {
        let rest = s@.subrange(pos as int, n as int);
        if m > 0 && m <= n - pos {
            assert(rest.subrange(0, m as int) =~= s@.subrange(pos as int, pos + m));
        }
        assert(strip_repeated(rest, p@) == rest);
    }
    slice_of(s, pos, n)
}

proof fn lemma_decimal_prefix(t: Seq<char>, k: int)
    requires
        0 <= k <= t.len(),
    ensures
        decimal_value(t.subrange(0, k)) <= decimal_value(t),
    decreases t.len(),
{
    if k == t.len() {
        assert(t.subrange(0, k) =~= t);
    } else {
        assert(t.drop_last().subrange(0, k) =~= t.subrange(0, k));
        lemma_decimal_prefix(t.drop_last(), k);
    }
}

/// The value of the unsigned number `t`, if it is one and at most `max`.
pub fn number_at_most(t: &Vec<char>, max: usize) -> (r: Option<usize>)
    ensures
        r is Some <==> is_unsigned(t@) && unsigned_value(t@) <= max,
        r matches Some(v) ==> v == unsigned_value(t@),
{
    let n = t.len();
    let start: usize = if n > 0 && t[0] == '+' { 1 } else { 0 };
    let ghost digits = unsigned_digits(t@);
    assert(digits =~= t@.subrange(start as int, n as int));
    if start == n {
        return None;
    }
    let mut acc: u128 = 0;
    let mut k: usize = start;
    assert(t@.subrange(start as int, start as int) =~= Seq::<char>::empty());
    while k < n
        invariant
            start <= k <= n,
            n == t@.len(),
            digits =~= t@.subrange(start as int, n as int),
            digits == unsigned_digits(t@),
            acc == decimal_value(t@.subrange(start as int, k as int)),
            acc <= max,
            forall|i: int| start <= i < k ==> is_digit(#[trigger] t@[i]),
        decreases n - k,
    {
        let c = t[k];
        let u = c as u32;
        if u < 48 || u > 57 {
            assert(digits[k - start] == c);
            assert(!is_digit(digits[k - start]));
            return None;
        }
        let ghost prefix = t@.subrange(start as int, k + 1);
        assert(prefix.drop_last() =~= t@.subrange(start as int, k as int));
        acc = acc * 10 + ((u - 48) as u128);
        assert(decimal_value(prefix) == acc);
        if acc > max as u128 {
            proof {
                assert(digits.subrange(0, k + 1 - start) =~= prefix);
                lemma_decimal_prefix(digits, k + 1 - start);
            }
            return None;
        }
        k = k + 1;
    }
    assert(t@.subrange(start as int, n as int) =~= digits);
    Some(acc as usize)
}

/// ASCII letters folded to lower case; other characters unchanged.
pub open spec fn ascii_fold(c: char) -> u32 {
    if 65 <= (c as u32) <= 90 {
        ((c as u32) + 32) as u32
    } else {
        c as u32
    }
}

pub fn ascii_fold_char(c: char) -> (r: u32)
    ensures
        r == ascii_fold(c),
{
    let u = c as u32;
    if 65 <= u && u <= 90 {
        u + 32
    } else {
        u
    }
}

/// Are `a` and `b` the same text?
pub fn same_text(a: &str, b: &str) -> (r: bool)
    ensures
        r == (a@ == b@),
{
    let ac = chars_of(a);
    let bc = chars_of(b);
    if ac.len() != bc.len() {
        return false;
    }
    let mut i: usize = 0;
    while i < ac.len()
        invariant
            ac@ == a@,
            bc@ == b@,
            ac@.len() == bc@.len(),
            i <= ac@.len(),
            forall|k: int| 0 <= k < i ==> ac@[k] == bc@[k],
        decreases ac@.len() - i,
    {
        if ac[i] != bc[i] {
            return false;
        }
        i = i + 1;
    }
    assert(a@ =~= b@);
    true
}

/// The whitespace-separated words of `s`, as `str::split_whitespace` yields them.
pub open spec fn words(s: Seq<char>) -> Seq<Seq<char>>
    decreases s.len(),
{
    if s.len() == 0 {
        Seq::empty()
    } else {
        let w = words(s.drop_last());
        if is_ws(s.last()) {
            w
        } else if s.len() >= 2 && !is_ws(s[s.len() - 2]) {
            w.update(w.len() - 1, w.last().push(s.last()))
        } else {
            w.push(seq![s.last()])
        }
    }
}

/// The whitespace-separated words of `s`.
pub fn split_words(s: &str) -> (r: Vec<String>)
    ensures
        views(r@) == words(s@),
{
    let cs = chars_of(s);
    let n = cs.len();
    let mut done: Vec<String> = Vec::new();
    let mut start: usize = 0;
    let mut in_word = false;
    let mut i: usize = 0;
    assert(s@.subrange(0, 0) =~= Seq::<char>::empty());
    while i < n
        invariant
            n == cs@.len(),
            cs@ == s@,
            start <= i <= n,
            in_word ==> start < i && !is_ws(s@[i - 1]) && words(s@.subrange(0, i as int)).len() > 0
                && views(done@).push(s@.subrange(start as int, i as int)) == words(
                s@.subrange(0, i as int),
            ),
            !in_word ==> views(done@) == words(s@.subrange(0, i as int)) && (i > 0 ==> is_ws(
                s@[i - 1],
            )),
        decreases n - i,
    {
        let ghost before = s@.subrange(0, i as int);
        let ghost after = s@.subrange(0, i + 1);
        assert(after.drop_last() =~= before);
        let c = cs[i];
        if is_ws_char(c) {
            if in_word {
                let w = slice_of(s, start, i);
                proof {
                    assert(views(done@.push(w)) =~= views(done@).push(w@));
                }
                done.push(w);
                in_word = false;
            }
        } else {
            if in_word {
                proof {
                    assert(after[after.len() - 2] == s@[i - 1]);
                    let w = words(before);
                    assert(s@.subrange(start as int, i + 1) =~= s@.subrange(start as int, i as int).push(c));
                    assert(views(done@).push(s@.subrange(start as int, i + 1)) =~= w.update(
                        w.len() - 1,
                        w.last().push(c),
                    ));
                }
            } else {
                proof {
                    if i > 0 {
                        assert(after[after.len() - 2] == s@[i - 1]);
                    }
                    assert(s@.subrange(i as int, i + 1) =~= seq![c]);
                }
                start = i;
                in_word = true;
            }
        }
        i = i + 1;
    }
    assert(s@.subrange(0, n as int) =~= s@);
    if in_word {
        let w = slice_of(s, start, n);
        proof {
            assert(views(done@.push(w)) =~= views(done@).push(w@));
        }
        done.push(w);
    }
    done
}

/// The decimal digit `d`, as a character.
pub open spec fn digit_char(d: nat) -> char {
    if d == 0 { '0' } else if d == 1 { '1' } else if d == 2 { '2' } else if d == 3 { '3' }
    else if d == 4 { '4' } else if d == 5 { '5' } else if d == 6 { '6' } else if d == 7 { '7' }
    else if d == 8 { '8' } else { '9' }
}

/// `n` written in decimal, without leading zeros.
pub open spec fn decimal_of(n: nat) -> Seq<char>
    decreases n,
{
    if n < 10 {
        seq![digit_char(n)]
    } else {
        decimal_of(n / 10).push(digit_char(n % 10))
    }
}

fn digit_str(d: usize) -> (r: &'static str)
    requires
        d < 10,
    ensures
        r@ == seq![digit_char(d as nat)],
{
    let r = if d == 0 { "0" } else if d == 1 { "1" } else if d == 2 { "2" } else if d == 3 { "3" }
    else if d == 4 { "4" } else if d == 5 { "5" } else if d == 6 { "6" } else if d == 7 { "7" }
    else if d == 8 { "8" } else { "9" };
    proof {
        reveal_strlit("0");
        reveal_strlit("1");
        reveal_strlit("2");
        reveal_strlit("3");
        reveal_strlit("4");
        reveal_strlit("5");
        reveal_strlit("6");
        reveal_strlit("7");
        reveal_strlit("8");
        reveal_strlit("9");
    }
    assert(r@ =~= seq![digit_char(d as nat)]);
    r
}

/// `n` written in decimal.
pub fn decimal_string(n: usize) -> (r: String)
    ensures
        r@ == decimal_of(n as nat),
    decreases n,
{
    if n < 10 {
        String::from_str(digit_str(n))
    } else {
        let mut s = decimal_string(n / 10);
        s.append(digit_str(n % 10));
        s
    }
}

/// `a` sorts strictly before `b`: code point by code point, a proper prefix first.
/// This is the order of `String`, whose UTF-8 bytes keep the order of code points.
pub open spec fn text_lt(a: Seq<char>, b: Seq<char>) -> bool
    decreases a.len(),
{
    if a.len() == 0 {
        b.len() > 0
    } else if b.len() == 0 {
        false
    } else if a[0] != b[0] {
        (a[0] as u32) < (b[0] as u32)
    } else {
        text_lt(a.drop_first(), b.drop_first())
    }
}

/// Of two different texts, one sorts before the other.
pub proof fn lemma_text_lt_total(a: Seq<char>, b: Seq<char>)
    requires
        a != b,
    ensures
        text_lt(a, b) || text_lt(b, a),
    decreases a.len(),
{
    if a.len() == 0 {
        assert(b.len() > 0) by {
            if b.len() == 0 {
                assert(a =~= b);
            }
        }
    } else if b.len() == 0 {
    } else if a[0] != b[0] {
        let (x, y) = (a[0] as u32, b[0] as u32);
        vstd::utf8::char_u32_cast(a[0], x);
        vstd::utf8::char_u32_cast(b[0], y);
        assert(x != y);
    } else {
        if a.drop_first() == b.drop_first() {
            assert(a =~= seq![a[0]] + a.drop_first());
            assert(b =~= seq![b[0]] + b.drop_first());
        }
        lemma_text_lt_total(a.drop_first(), b.drop_first());
    }
}

/// Does `a` sort strictly before `b`?
pub fn text_less(a: &str, b: &str) -> (r: bool)
    ensures
        r == text_lt(a@, b@),
{
    let ac = chars_of(a);
    let bc = chars_of(b);
    let mut i: usize = 0;
    assert(a@.subrange(0, a@.len() as int) =~= a@);
    assert(b@.subrange(0, b@.len() as int) =~= b@);
    while i < ac.len() && i < bc.len() && ac[i] == bc[i]
        invariant
            ac@ == a@,
            bc@ == b@,
            i <= ac@.len(),
            i <= bc@.len(),
            text_lt(a@.subrange(i as int, a@.len() as int), b@.subrange(i as int, b@.len() as int))
                == text_lt(a@, b@),
        decreases ac@.len() - i,
    {
        assert(a@.subrange(i as int, a@.len() as int).drop_first() =~= a@.subrange(
            i + 1,
            a@.len() as int,
        ));
        assert(b@.subrange(i as int, b@.len() as int).drop_first() =~= b@.subrange(
            i + 1,
            b@.len() as int,
        ));
        i = i + 1;
    }
    if i == ac.len() {
        i < bc.len()
    } else if i == bc.len() {
        false
    } else {
        (ac[i] as u32) < (bc[i] as u32)
    }
}

/// The first position at or after `i` where `p` occurs in `s`.
pub open spec fn find_from(s: Seq<char>, p: Seq<char>, i: int) -> Option<int>
    decreases s.len() + 1 - i,
{
    if i < 0 || i + p.len() > s.len() {
        None
    } else if occurs_at(s, p, i) {
        Some(i)
    } else {
        find_from(s, p, i + 1)
    }
}

/// The first position where `p` occurs in `s`, as `str::find` gives it (in characters).
pub open spec fn find_text(s: Seq<char>, p: Seq<char>) -> Option<int> {
    find_from(s, p, 0)
}

/// The last position of `c` in `s`, as `str::rfind` gives it (in characters).
pub open spec fn last_index_of(s: Seq<char>, c: char) -> Option<int>
    decreases s.len(),
{
    if s.len() == 0 {
        None
    } else if s.last() == c {
        Some(s.len() - 1)
    } else {
        last_index_of(s.drop_last(), c)
    }
}

/// The first position where `p` occurs in `s`.
pub fn find_in(s: &str, p: &str) -> (r: Option<usize>)
    ensures
        match r {
            Some(k) => find_text(s@, p@) == Some(k as int) && k + p@.len() <= s@.len(),
            None => find_text(s@, p@) is None,
        },
{
    let cs = chars_of(s);
    let pc = chars_of(p);
    let n = cs.len();
    let m = pc.len();
    if m > n {
        return None;
    }
    let mut i: usize = 0;
    while i <= n - m
        invariant
            cs@ == s@,
            pc@ == p@,
            n == s@.len(),
            m == p@.len(),
            m <= n,
            i <= n - m + 1,
            find_from(s@, p@, i as int) == find_text(s@, p@),
        decreases n - m + 1 - i,
    {
        if occurs_at_exec(&cs, &pc, i) {
            return Some(i);
        }
        if i == n - m {
            assert(find_from(s@, p@, i + 1) is None);
            return None;
        }
        i = i + 1;
    }
    None
}

/// The last position of `c` in `s`.
pub fn rfind_char(s: &str, c: char) -> (r: Option<usize>)
    ensures
        match r {
            Some(k) => last_index_of(s@, c) == Some(k as int) && k < s@.len(),
            None => last_index_of(s@, c) is None,
        },
{
    let cs = chars_of(s);
    let mut i: usize = cs.len();
    assert(s@.subrange(0, i as int) =~= s@);
    while i > 0
        invariant
            cs@ == s@,
            i <= s@.len(),
            last_index_of(s@.subrange(0, i as int), c) == last_index_of(s@, c),
        decreases i,
    {
        let ghost pre = s@.subrange(0, i as int);
        if cs[i - 1] == c {
            return Some(i - 1);
        }
        assert(pre.drop_last() =~= s@.subrange(0, i - 1));
        i = i - 1;
    }
    None
}

} // verus!
