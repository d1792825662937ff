//! Character-level helpers shared by the parsers of this crate.
use vstd::prelude::*;

verus! {

/// The Unicode `White_Space` property (as listed in the Unicode Character
/// Database, PropList.txt): tab through carriage return, space, next line,
/// no-break space, ogham space mark, the spaces U+2000 to U+200A, the line
/// and paragraph separators, narrow no-break space, medium mathematical
/// space and ideographic space.
pub open spec fn white_space(c: char) -> bool {
    let u = c as u32;
    ||| 0x09 <= u <= 0x0D
    ||| u == 0x20 || u == 0x85 || u == 0xA0 || u == 0x1680
    ||| 0x2000 <= u <= 0x200A
    ||| u == 0x2028 || u == 0x2029 || u == 0x202F || u == 0x205F || u == 0x3000
}

/// `char::is_whitespace`: documented to hold exactly of the characters with
/// the Unicode `White_Space` property.
pub assume_specification[ char::is_whitespace ](c: char) -> (r: bool)
    ensures
        r == white_space(c),
;

/// `String::push`: appends one character at the end of the string.
pub assume_specification[ std::string::String::push ](s: &mut std::string::String, ch: char)
    ensures
        final(s)@ == old(s)@.push(ch),
;

/// The characters of a string slice, in order.
pub fn chars_of(s: &str) -> (v: Vec<char>)
    ensures
        v@ == s@,
{
    let mut v: Vec<char> = Vec::new();
    for c in it: s.chars()
        invariant
            v@ == it.seq().take(it.index()),
    {
        v.push(c);
    }
    v
}

/// A string made of the characters `v[from..to]`.
pub fn string_of(v: &Vec<char>, from: usize, to: usize) -> (s: String)
    requires
        from <= to <= v.len(),
    ensures
        s@ == v@.subrange(from as int, to as int),
{
    let mut s = String::new();
    let mut i = from;
    while i < to
        invariant
            from <= i <= to <= v.len(),
            s@ == v@.subrange(from as int, i as int),
        decreases to - i,
    {
        s.push(v[i]);
        i = i + 1;
    }
    s
}


/// `s` without its trailing whitespace (`str::trim_end`).
pub open spec fn trim_end_spec(s: Seq<char>) -> Seq<char>
    decreases s.len(),
{
    if s.len() > 0 && white_space(s.last()) {
        trim_end_spec(s.drop_last())
    } else {
        s
    }
}

/// `s` without its leading whitespace (`str::trim_start`).
pub open spec fn trim_start_spec(s: Seq<char>) -> Seq<char>
    decreases s.len(),
{
    if s.len() > 0 && white_space(s[0]) {
        trim_start_spec(s.drop_first())
    } else {
        s
    }
}

/// `s` without leading and trailing whitespace (`str::trim`).
pub open spec fn trim_spec(s: Seq<char>) -> Seq<char> {
    trim_end_spec(trim_start_spec(s))
}

/// `s` with every leading and trailing occurrence of `c` removed (`str::trim_matches`).
pub open spec fn trim_char_spec(s: Seq<char>, c: char) -> Seq<char>
    decreases s.len(),
{
    if s.len() > 0 && s[0] == c {
        trim_char_spec(s.drop_first(), c)
    } else if s.len() > 0 && s.last() == c {
        trim_char_spec(s.drop_last(), c)
    } else {
        s
    }
}

/// How many times `c` occurs in `s`.
pub open spec fn count_char(s: Seq<char>, c: char) -> nat
    decreases s.len(),
{
    if s.len() == 0 {
        0
    } else {
        count_char(s.drop_last(), c) + if s.last() == c { 1nat } else { 0nat }
    }
}

/// `i` is the position of the first occurrence of `c` in `s`.
pub open spec fn is_first_pos(s: Seq<char>, c: char, i: int) -> bool {
    &&& 0 <= i < s.len()
    &&& s[i] == c
    &&& forall|j: int| 0 <= j < i ==> s[j] != c
}

/// The position of the first occurrence of `c` in `s`, if any (`str::find`).
pub open spec fn find_char(s: Seq<char>, c: char) -> Option<int> {
    if exists|i: int| is_first_pos(s, c, i) {
        Some(choose|i: int| is_first_pos(s, c, i))
    } else {
        None
    }
}

/// `l` without a final carriage return.
pub open spec fn strip_cr(l: Seq<char>) -> Seq<char> {
    if l.len() > 0 && l.last() == '\r' {
        l.drop_last()
    } else {
        l
    }
}

/// The lines of `s` as `str::lines` yields them: split at each `\n`, a
/// `\r` just before a `\n` dropped, and no empty line after a final `\n`.
pub open spec fn lines_spec(s: Seq<char>) -> Seq<Seq<char>>
    decreases s.len(),
{
    if s.len() == 0 {
        seq![]
    } else {
        match find_char(s, '\n') {
            None => seq![s],
            Some(i) => {
                proof {
                    lemma_find_char_in_range(s, '\n');
                }
                seq![strip_cr(s.take(i))] + lines_spec(s.skip(i + 1))
            },
        }
    }
}

/// A position that `find_char` returns lies inside the sequence and holds the character.
pub proof fn lemma_find_char_in_range(s: Seq<char>, c: char)
    ensures
        find_char(s, c) matches Some(i) ==> is_first_pos(s, c, i),
        find_char(s, c) is None ==> forall|j: int| 0 <= j < s.len() ==> s[j] != c,
{
    if exists|i: int| is_first_pos(s, c, i) {
    } else {
        assert forall|j: int| 0 <= j < s.len() implies s[j] != c by {
            if s[j] == c {
                let k = choose_first(s, c, j);
                assert(is_first_pos(s, c, k));
            }
        }
    }
}

/// The first occurrence of `c` at or before a known occurrence `j`.
proof fn choose_first(s: Seq<char>, c: char, j: int) -> (k: int)
    requires
        0 <= j < s.len(),
        s[j] == c,
    ensures
        is_first_pos(s, c, k),
    decreases j,
{
    if exists|m: int| 0 <= m < j && s[m] == c {
        let m = choose|m: int| 0 <= m < j && s[m] == c;
        choose_first(s, c, m)
    } else {
        j
    }
}

/// A first position found by a scan is the one `find_char` gives.
pub proof fn lemma_find_char_is(s: Seq<char>, c: char, i: int)
    requires
        is_first_pos(s, c, i),
    ensures
        find_char(s, c) == Some(i),
{
    let k = choose|k: int| is_first_pos(s, c, k);
    assert(is_first_pos(s, c, k));
    if k < i {
        assert(s[k] != c);
    }
    if i < k {
        assert(s[i] != c);
    }
}

/// With no occurrence of `c`, `find_char` gives `None`.
pub proof fn lemma_find_char_none(s: Seq<char>, c: char)
    requires
        forall|j: int| 0 <= j < s.len() ==> s[j] != c,
    ensures
        find_char(s, c) is None,
{
}

/// `trim_end_spec` keeps a prefix, shorter when the last character is whitespace.
pub proof fn lemma_trim_end_shape(s: Seq<char>) -> (k: int)
    ensures
        0 <= k <= s.len(),
        trim_end_spec(s) == s.take(k),
        s.len() > 0 && white_space(s.last()) ==> k < s.len(),
        k > 0 ==> !white_space(s[k - 1]),
    decreases s.len(),
{
    if s.len() > 0 && white_space(s.last()) {
        let k = lemma_trim_end_shape(s.drop_last());
        assert(s.drop_last().take(k) =~= s.take(k));
        k
    } else {
        assert(s.take(s.len() as int) =~= s);
        s.len() as int
    }
}

/// `trim_start_spec` keeps a suffix, shorter when the first character is whitespace.
pub proof fn lemma_trim_start_shape(s: Seq<char>) -> (k: int)
    ensures
        0 <= k <= s.len(),
        trim_start_spec(s) == s.skip(k),
        s.len() > 0 && white_space(s[0]) ==> k > 0,
        k < s.len() ==> !white_space(s[k]),
    decreases s.len(),
{
    if s.len() > 0 && white_space(s[0]) {
        let k = lemma_trim_start_shape(s.drop_first());
        assert(s.drop_first().skip(k) =~= s.skip(k + 1));
        k + 1
    } else {
        assert(s.skip(0) =~= s);
        0
    }
}

/// A text that trimming leaves alone has no whitespace at either end.
pub proof fn lemma_trimmed_ends(t: Seq<char>)
    requires
        trim_spec(t) == t,
        t.len() > 0,
    ensures
        !white_space(t[0]),
        !white_space(t.last()),
{
    let a = lemma_trim_start_shape(t);
    let u = t.skip(a);
    let b = lemma_trim_end_shape(u);
    assert(trim_spec(t) == u.take(b));
    assert(a == 0);
    assert(u =~= t);
}

/// Trimming twice trims no more than once, and what trimming keeps is a
/// stretch of the text.
pub proof fn lemma_trim_idempotent(t: Seq<char>) -> (r: (int, int))
    ensures
        0 <= r.0 <= r.1 <= t.len(),
        trim_spec(t) == t.subrange(r.0, r.1),
        trim_spec(trim_spec(t)) == trim_spec(t),
{
    let a = lemma_trim_start_shape(t);
    let u = t.skip(a);
    let b = lemma_trim_end_shape(u);
    let w = u.take(b);
    assert(w =~= t.subrange(a, a + b));
    if w.len() > 0 {
        assert(w[0] == t[a]);
        assert(w.last() == u[b - 1]);
        assert(trim_start_spec(w) == w);
        assert(trim_end_spec(w) == w);
    } else {
        assert(trim_start_spec(w) == w);
        assert(trim_end_spec(w) == w);
    }
    (a, a + b)
}

/// The end of `v[from..to]` once trailing whitespace is dropped.
pub fn trim_end_bound(v: &Vec<char>, from: usize, to: usize) -> (b: usize)
    requires
        from <= to <= v.len(),
    ensures
        from <= b <= to,
        v@.subrange(from as int, b as int) == trim_end_spec(v@.subrange(from as int, to as int)),
{
    let mut b = to;
    while b > from && v[b - 1].is_whitespace()
        invariant
            from <= b <= to <= v.len(),
            trim_end_spec(v@.subrange(from as int, to as int)) == trim_end_spec(
                v@.subrange(from as int, b as int),
            ),
        decreases b,
    {
        assert(v@.subrange(from as int, b as int).drop_last() =~= v@.subrange(
            from as int,
            b - 1,
        ));
        b = b - 1;
    }
    b
}

/// The start of `v[from..to]` once leading whitespace is dropped.
pub fn trim_start_bound(v: &Vec<char>, from: usize, to: usize) -> (a: usize)
    requires
        from <= to <= v.len(),
    ensures
        from <= a <= to,
        v@.subrange(a as int, to as int) == trim_start_spec(v@.subrange(from as int, to as int)),
{
    let mut a = from;
    while a < to && v[a].is_whitespace()
        invariant
            from <= a <= to <= v.len(),
            trim_start_spec(v@.subrange(from as int, to as int)) == trim_start_spec(
                v@.subrange(a as int, to as int),
            ),
        decreases to - a,
    {
        assert(v@.subrange(a as int, to as int).drop_first() =~= v@.subrange(
            a + 1,
            to as int,
        ));
        a = a + 1;
    }
    a
}

/// The bounds of `v[from..to]` once whitespace is dropped at both ends.
pub fn trim_bounds(v: &Vec<char>, from: usize, to: usize) -> (r: (usize, usize))
    requires
        from <= to <= v.len(),
    ensures
        from <= r.0 <= r.1 <= to,
        v@.subrange(r.0 as int, r.1 as int) == trim_spec(v@.subrange(from as int, to as int)),
{
    let a = trim_start_bound(v, from, to);
    let b = trim_end_bound(v, a, to);
    (a, b)
}

/// The first position of `c` in `v[from..to]`, or `to` when it does not occur there.
pub fn find_in(v: &Vec<char>, from: usize, to: usize, c: char) -> (i: usize)
    requires
        from <= to <= v.len(),
    ensures
        from <= i <= to,
        i < to ==> find_char(v@.subrange(from as int, to as int), c) == Some(i - from),
        i == to ==> find_char(v@.subrange(from as int, to as int), c) is None,
{
    let mut i = from;
    while i < to && v[i] != c
        invariant
            from <= i <= to <= v.len(),
            forall|j: int| from <= j < i ==> v@[j] != c,
        decreases to - i,
    {
        i = i + 1;
    }
    let ghost s = v@.subrange(from as int, to as int);
    proof {
        if i < to {
            assert(is_first_pos(s, c, i - from));
            lemma_find_char_is(s, c, i - from);
        } else {
            lemma_find_char_none(s, c);
        }
    }
    i
}

/// How many times `c` occurs in `v[from..to]`.
pub fn count_in(v: &Vec<char>, from: usize, to: usize, c: char) -> (n: usize)
    requires
        from <= to <= v.len(),
    ensures
        n == count_char(v@.subrange(from as int, to as int), c),
{
    let mut n: usize = 0;
    let mut i = from;
    while i < to
        invariant
            from <= i <= to <= v.len(),
            n == count_char(v@.subrange(from as int, i as int), c),
            n <= i - from,
        decreases to - i,
    {
        assert(v@.subrange(from as int, i + 1).drop_last() =~= v@.subrange(from as int, i as int));
        if v[i] == c {
            n = n + 1;
        }
        i = i + 1;
    }
    n
}


/// `pat` occurs in `s`.
pub open spec fn contains_seq(s: Seq<char>, pat: Seq<char>) -> bool {
    exists|i: int| 0 <= i <= s.len() - pat.len() && #[trigger] s.subrange(i, i + pat.len()) == pat
}

/// Whether `pat` occurs in `v`.
pub fn contains_chars(v: &Vec<char>, pat: &Vec<char>) -> (r: bool)
    ensures
        r == contains_seq(v@, pat@),
{
    if pat.len() > v.len() {
        return false;
    }
    let last = v.len() - pat.len();
    let mut i: usize = 0;
    while i <= last
        invariant
            last == v.len() - pat.len(),
            pat.len() <= v.len(),
            i <= last + 1,
            forall|k: int| 0 <= k < i ==> #[trigger] v@.subrange(k, k + pat.len()) != pat@,
        decreases last + 1 - i,
    {
        let mut j: usize = 0;
        let mut same = true;
        while j < pat.len()
            invariant
                i <= last,
                last == v.len() - pat.len(),
                j <= pat.len(),
                same == (forall|q: int| 0 <= q < j ==> v@[i + q] == pat@[q]),
            decreases pat.len() - j,
        {
            if v[i + j] != pat[j] {
                same = false;
            }
            j = j + 1;
        }
        if same {
            assert(v@.subrange(i as int, i + pat.len()) =~= pat@);
            return true;
        }
        proof {
            let q = choose|q: int| 0 <= q < pat.len() && v@[i + q] != pat@[q];
            assert(v@.subrange(i as int, i + pat.len())[q] != pat@[q]);
        }
        i = i + 1;
    }
    false
}

/// The decimal digit character for `d` in `0..10`.
pub open spec fn digit_char(d: int) -> char {
    (d + 48) as char
}

/// The decimal text of `n`, without leading zeros (`usize` formatted with `{}`).
pub open spec fn decimal_spec(n: nat) -> Seq<char>
    decreases n,
{
    if n < 10 {
        seq![digit_char(n as int)]
    } else {
        decimal_spec(n / 10).push(digit_char((n % 10) as int))
    }
}

/// The decimal digit character for `d`.
fn digit(d: u64) -> (c: char)
    requires
        d < 10,
    ensures
        c == digit_char(d as int),
{
    match d {
        0 => '0',
        1 => '1',
        2 => '2',
        3 => '3',
        4 => '4',
        5 => '5',
        6 => '6',
        7 => '7',
        8 => '8',
        _ => '9',
    }
}

/// Appends the decimal text of `n` to `s`.
pub fn push_decimal(s: &mut String, n: u64)
    ensures
        final(s)@ == old(s)@ + decimal_spec(n as nat),
{
    let mut rev: Vec<char> = Vec::new();
    let mut q = n;
    loop
        invariant_except_break
            q > 0 || rev.len() == 0,
            q == 0 ==> n == 0,
            q > 0 ==> decimal_spec(n as nat) == decimal_spec(q as nat) + rev@.reverse(),
            q == 0 ==> rev.len() == 0,
        ensures
            decimal_spec(n as nat) == rev@.reverse(),
        decreases q,
    {
        let d = q % 10;
        let ghost old_rev = rev@;
        let cc = digit(d);
        rev.push(cc);
        assert(rev@.reverse() =~= seq![cc] + old_rev.reverse());
        if q < 10 {
            proof {
                if q == 0 {
                    assert(n == 0);
                    assert(rev@.reverse() =~= seq![digit_char(0)]);
                } else {
                    assert(decimal_spec(q as nat) == seq![digit_char(q as int)]);
                    assert(decimal_spec(n as nat) =~= rev@.reverse());
                }
            }
            break;
        }
        assert(decimal_spec(q as nat) == decimal_spec((q / 10) as nat).push(cc));
        assert(decimal_spec(n as nat) =~= decimal_spec((q / 10) as nat) + rev@.reverse());
        q = q / 10;
    }
    let mut i = rev.len();
    let ghost start = s@;
    while i > 0
        invariant
            i <= rev.len(),
            s@ == start + rev@.reverse().take(rev.len() - i),
        decreases i,
    {
        i = i - 1;
        s.push(rev[i]);
        assert(rev@.reverse().take(rev.len() - i) =~= rev@.reverse().take(rev.len() - i - 1).push(
            rev@[i as int],
        ));
    }
    assert(rev@.reverse().take(rev.len() as int) =~= rev@.reverse());
}

} // verus!
