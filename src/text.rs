//! Character-level helpers shared by the renderer: building strings, decimal
//! and hexadecimal digits, the ordering of attribute names, and line prefixing.
use vstd::prelude::*;

verus! {

/// The sixteen hexadecimal digits, lower case; the first ten are the decimal digits.
pub open spec fn digits() -> Seq<char> {
    seq!['0', '1', '2', '3', '4', '5', '6', '7', '8', '9', 'a', 'b', 'c', 'd', 'e', 'f']
}

/// The decimal representation of `n`, without sign or leading zeros.
pub open spec fn decimal(n: nat) -> Seq<char>
    decreases n,
{
    if n < 10 {
        seq![digits()[n as int]]
    } else {
        decimal(n / 10).push(digits()[(n % 10) as int])
    }
}

/// Two lower-case hexadecimal digits for a byte.
pub open spec fn hex2(b: u8) -> Seq<char> {
    seq![digits()[(b / 16) as int], digits()[(b % 16) as int]]
}

/// `v`, wrapped in double quotes when it contains a space.
pub open spec fn quoted(v: Seq<char>) -> Seq<char> {
    if v.contains(' ') {
        seq!['"'] + v + seq!['"']
    } else {
        v
    }
}

/// Strict lexicographic order on character sequences, comparing from position `i` on.
pub open spec fn lt_from(a: Seq<char>, b: Seq<char>, i: int) -> bool
    decreases a.len() - i,
{
    if i < 0 || i >= b.len() {
        false
    } else if i >= a.len() {
        true
    } else if a[i] != b[i] {
        (a[i] as int) < (b[i] as int)
    } else {
        lt_from(a, b, i + 1)
    }
}

/// Strict lexicographic order by code point, the order of `str`'s `Ord`.
pub open spec fn key_lt(a: Seq<char>, b: Seq<char>) -> bool {
    lt_from(a, b, 0)
}

/// `e` is where the first line of `s` ends: the first newline, or the end of `s`.
pub open spec fn is_line_end(s: Seq<char>, e: int) -> bool {
    &&& 0 <= e <= s.len()
    &&& (e == s.len() || s[e] == '\n')
    &&& forall|k: int| 0 <= k < e ==> s[k] != '\n'
}

/// Where the first line of `s` ends.
pub open spec fn line_end(s: Seq<char>) -> int {
    choose|e: int| is_line_end(s, e)
}

/// Every line of `s` prefixed with `--` and ended by a newline, where lines are
/// split as `str::lines` splits them: at `\n` or `\r\n`, the last terminator
/// being optional.
pub open spec fn prefix_lines(s: Seq<char>) -> Seq<char>
    decreases s.len(),
{
    if s.len() == 0 {
        seq![]
    } else {
        let e = line_end(s);
        let body = if 0 < e < s.len() && s[e - 1] == '\r' {
            s.subrange(0, e - 1)
        } else {
            s.subrange(0, e)
        };
        let rest = if 0 <= e < s.len() {
            prefix_lines(s.subrange(e + 1, s.len() as int))
        } else {
            seq![]
        };
        seq!['-', '-'] + body + seq!['\n'] + rest
    }
}

pub proof fn lemma_line_end(s: Seq<char>, e: int)
    requires
        is_line_end(s, e),
    ensures
        line_end(s) == e,
{
    let f = line_end(s);
    assert(is_line_end(s, f));
    if f < e {
        assert(s[f] == '\n');
    } else if e < f {
        assert(s[e] == '\n');
    }
}

pub proof fn lemma_lt_from_irreflexive(a: Seq<char>, i: int)
    requires
        0 <= i,
    ensures
        !lt_from(a, a, i),
    decreases a.len() - i,
{
    if i < a.len() {
        lemma_lt_from_irreflexive(a, i + 1);
    }
}

pub proof fn lemma_lt_from_asymmetric(a: Seq<char>, b: Seq<char>, i: int)
    requires
        0 <= i,
        lt_from(a, b, i),
    ensures
        !lt_from(b, a, i),
    decreases a.len() - i,
{
    if i < a.len() && i < b.len() && a[i] == b[i] {
        lemma_lt_from_asymmetric(a, b, i + 1);
    }
}

pub proof fn lemma_lt_from_transitive(a: Seq<char>, b: Seq<char>, c: Seq<char>, i: int)
    requires
        0 <= i,
        lt_from(a, b, i),
        lt_from(b, c, i),
    ensures
        lt_from(a, c, i),
    decreases a.len() - i,
{
    if i < a.len() && a[i] == b[i] && b[i] == c[i] {
        lemma_lt_from_transitive(a, b, c, i + 1);
    }
}

pub proof fn lemma_lt_from_total(a: Seq<char>, b: Seq<char>, i: int)
    requires
        0 <= i <= a.len(),
        i <= b.len(),
        a.subrange(i, a.len() as int) != b.subrange(i, b.len() as int),
    ensures
        lt_from(a, b, i) || lt_from(b, a, i),
    decreases a.len() - i,
{
    if i < a.len() && i < b.len() && a[i] == b[i] {
        assert(a.subrange(i, a.len() as int) == seq![a[i]] + a.subrange(i + 1, a.len() as int));
        assert(b.subrange(i, b.len() as int) == seq![b[i]] + b.subrange(i + 1, b.len() as int));
        lemma_lt_from_total(a, b, i + 1);
    } else if i >= a.len() && i >= b.len() {
        assert(a.subrange(i, a.len() as int) =~= Seq::<char>::empty());
        assert(b.subrange(i, b.len() as int) =~= Seq::<char>::empty());
    }
}

/// Two different names are ordered one way or the other.
pub proof fn lemma_key_lt_total(a: Seq<char>, b: Seq<char>)
    requires
        a != b,
    ensures
        key_lt(a, b) || key_lt(b, a),
{
    assert(a.subrange(0, a.len() as int) == a);
    assert(b.subrange(0, b.len() as int) == b);
    lemma_lt_from_total(a, b, 0);
}

/// The order on names is a strict order: irreflexive, asymmetric and transitive.
pub proof fn lemma_key_lt_strict(a: Seq<char>, b: Seq<char>, c: Seq<char>)
    ensures
        !key_lt(a, a),
        key_lt(a, b) ==> !key_lt(b, a),
        key_lt(a, b) && key_lt(b, c) ==> key_lt(a, c),
{
    lemma_lt_from_irreflexive(a, 0);
    if key_lt(a, b) {
        lemma_lt_from_asymmetric(a, b, 0);
        if key_lt(b, c) {
            lemma_lt_from_transitive(a, b, c, 0);
        }
    }
}

/// Relies on `String::push`: appends exactly one character.
#[verifier::external_body]
pub(crate) fn push_char(s: &mut String, c: char)
    ensures
        final(s)@ == old(s)@.push(c),
{
    s.push(c)
}

/// Appends `s` to `out`.
pub(crate) fn push_str(out: &mut String, s: &str)
    ensures
        final(out)@ == old(out)@ + s@,
{
    out.append(s);
}

/// The characters of `s`, in order.
pub fn chars_of(s: &str) -> (r: Vec<char>)
    ensures
        r@ == s@,
{
    let mut r: Vec<char> = Vec::new();
    for c in it: s.chars()
        invariant
            r@ == it.seq().take(it.index() as int),
    {
        r.push(c);
    }
    r
}

/// Appends every character of `s` to `out`.
pub(crate) fn push_chars(out: &mut String, s: &Vec<char>, from: usize, to: usize)
    requires
        from <= to <= s.len(),
    ensures
        final(out)@ == old(out)@ + s@.subrange(from as int, to as int),
{
    let mut i = from;
    while i < to
        invariant
            from <= i <= to <= s.len(),
            out@ == old(out)@ + s@.subrange(from as int, i as int),
        decreases to - i,
    {
        push_char(out, s[i]);
        i = i + 1;
        assert(s@.subrange(from as int, i as int) == s@.subrange(from as int, i - 1).push(s@[i - 1]));
    }
}

/// The digit of value `d`.
pub fn digit(d: u8) -> (c: char)
    requires
        d < 16,
    ensures
        c == digits()[d as int],
{
    match d {
        0 => '0',
        1 => '1',
        2 => '2',
        3 => '3',
        4 => '4',
        5 => '5',
        6 => '6',
        7 => '7',
        8 => '8',
        9 => '9',
        10 => 'a',
        11 => 'b',
        12 => 'c',
        13 => 'd',
        14 => 'e',
        _ => 'f',
    }
}

/// Appends the decimal representation of `n`.
pub fn push_decimal(out: &mut String, n: usize)
    ensures
        final(out)@ == old(out)@ + decimal(n as nat),
    decreases n,
{
    if n >= 10 {
        push_decimal(out, n / 10);
    }
    push_char(out, digit((n % 10) as u8));
    assert(decimal(n as nat) == if n < 10 {
        seq![digits()[n as int]]
    } else {
        decimal((n / 10) as nat).push(digits()[(n % 10) as int])
    });
}

/// Appends the two hexadecimal digits of `b`.
pub fn push_hex2(out: &mut String, b: u8)
    ensures
        final(out)@ == old(out)@ + hex2(b),
{
    push_char(out, digit(b / 16));
    push_char(out, digit(b % 16));
}

/// Compares two names in the order of `key_lt`: negative, zero or positive.
pub fn compare_keys(a: &Vec<char>, b: &Vec<char>) -> (r: i8)
    ensures
        r < 0 <==> key_lt(a@, b@),
        r == 0 <==> a@ == b@,
        r > 0 <==> key_lt(b@, a@),
{
    let mut i: usize = 0;
    while i < a.len() && i < b.len()
        invariant
            i <= a.len(),
            i <= b.len(),
            a@.take(i as int) == b@.take(i as int),
            key_lt(a@, b@) == lt_from(a@, b@, i as int),
            key_lt(b@, a@) == lt_from(b@, a@, i as int),
        decreases a.len() - i,
    {
        if a[i] != b[i] {
            if a[i] < b[i] {
                proof {
                    lemma_lt_from_asymmetric(a@, b@, i as int);
                }
                return -1;
            } else {
                proof {
                    lemma_lt_from_asymmetric(b@, a@, i as int);
                }
                return 1;
            }
        }
        assert(a@.take(i + 1) == a@.take(i as int).push(a@[i as int]));
        assert(b@.take(i + 1) == b@.take(i as int).push(b@[i as int]));
        i = i + 1;
    }
    if i < b.len() {
        assert(a@ != b@) by {
            assert(a@.len() != b@.len());
        }
        -1
    } else if i < a.len() {
        assert(a@.len() != b@.len());
        1
    } else {
        assert(a@ == a@.take(i as int));
        assert(b@ == b@.take(i as int));
        0
    }
}

/// True when `v` contains a space.
pub fn contains_space(v: &Vec<char>) -> (r: bool)
    ensures
        r == v@.contains(' '),
{
    let mut i: usize = 0;
    while i < v.len()
        invariant
            i <= v.len(),
            forall|j: int| 0 <= j < i ==> v@[j] != ' ',
        decreases v.len() - i,
    {
        if v[i] == ' ' {
            return true;
        }
        i = i + 1;
    }
    false
}

/// Appends `v`, wrapped in double quotes when it contains a space.
pub fn push_quoted(out: &mut String, v: &str)
    ensures
        final(out)@ == old(out)@ + quoted(v@),
{
    let cs = chars_of(v);
    if contains_space(&cs) {
        push_char(out, '"');
        push_str(out, v);
        push_char(out, '"');
        assert(out@ == old(out)@ + (seq!['"'] + v@ + seq!['"']));
    } else {
        push_str(out, v);
    }
}

/// Appends every line of `s` prefixed with `--`, as `prefix_lines` says.
pub fn push_prefixed_lines(out: &mut String, s: &Vec<char>)
    ensures
        final(out)@ == old(out)@ + prefix_lines(s@),
{
    let n = s.len();
    let mut i: usize = 0;
    assert(s@.subrange(0, n as int) == s@);
    while i < n
        invariant
            n == s.len(),
            i <= n,
            out@ + prefix_lines(s@.subrange(i as int, n as int)) == old(out)@ + prefix_lines(s@),
        decreases n - i,
    {
        let ghost sub = s@.subrange(i as int, n as int);
        let mut j = i;
        while j < n && s[j] != '\n'
            invariant
                i <= j <= n,
                n == s.len(),
                forall|k: int| i <= k < j ==> s@[k] != '\n',
            decreases n - j,
        {
            j = j + 1;
        }
        let ghost e = j - i;
        proof {
            assert(is_line_end(sub, e));
            lemma_line_end(sub, e);
        }
        let ghost before = out@;
        push_char(out, '-');
        push_char(out, '-');
        if j > i && j < n && s[j - 1] == '\r' {
            push_chars(out, s, i, j - 1);
            assert(sub.subrange(0, e - 1) == s@.subrange(i as int, j - 1));
        } else {
            push_chars(out, s, i, j);
            assert(sub.subrange(0, e) == s@.subrange(i as int, j as int));
        }
        push_char(out, '\n');
        let next = if j < n { j + 1 } else { n };
        proof {
            if j < n {
                assert(sub.subrange(e + 1, sub.len() as int) == s@.subrange(next as int, n as int));
            } else {
                assert(s@.subrange(next as int, n as int).len() == 0);
                assert(prefix_lines(s@.subrange(next as int, n as int)) == Seq::<char>::empty());
            }
            assert(out@ + prefix_lines(s@.subrange(next as int, n as int)) == before + prefix_lines(sub));
        }
        i = next;
    }
    assert(s@.subrange(n as int, n as int).len() == 0);
    assert(out@ + prefix_lines(s@.subrange(n as int, n as int)) == out@);
}

} // verus!
