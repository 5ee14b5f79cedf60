//! Character-level text helpers shared by the planners.

use vstd::prelude::*;

verus! {

broadcast use vstd::string::group_string_axioms;

/// The characters of `s`, in order.
pub fn chars_of(s: &str) -> (v: Vec<char>)
    ensures
        v@ == s@,
{
    let mut v: Vec<char> = Vec::new();
    for c in it: s.chars()
        invariant
            v@ == it.seq().take(it.index() as int),
            it.seq() == s@,
    {
        v.push(c);
    }
    v
}


/// The position of the last occurrence of `c` in `s`, if any.
pub open spec fn spec_last_index_of(s: Seq<char>, c: char) -> Option<int>
    decreases s.len(),
{
    if s.len() == 0 {
        None
    } else if s.last() == c {
        Some(s.len() - 1)
    } else {
        spec_last_index_of(s.drop_last(), c)
    }
}

/// The last occurrence lies inside the sequence and holds `c`.
pub proof fn lemma_last_index_bounds(s: Seq<char>, c: char)
    ensures
        spec_last_index_of(s, c) matches Some(i) ==> 0 <= i < s.len() && s[i] == c,
    decreases s.len(),
{
    if s.len() > 0 && s.last() != c {
        lemma_last_index_bounds(s.drop_last(), c);
    }
}

proof fn lemma_last_index_prefix(s: Seq<char>, c: char, k: int)
    requires
        0 <= k <= s.len(),
        forall|j: int| k <= j < s.len() ==> s[j] != c,
    ensures
        spec_last_index_of(s, c) == spec_last_index_of(s.take(k), c),
    decreases s.len() - k,
{
    if k < s.len() {
        assert(s.drop_last().take(k) =~= s.take(k));
        lemma_last_index_prefix(s.drop_last(), c, k);
    } else {
        assert(s.take(k) =~= s);
    }
}

/// The position of the last occurrence of `c` in `s`, if any.
pub fn last_index_of(s: &Vec<char>, c: char) -> (r: Option<usize>)
    ensures
        r matches Some(i) ==> spec_last_index_of(s@, c) == Some(i as int) && i < s@.len(),
        r is None ==> spec_last_index_of(s@, c) is None,
{
    let mut k: usize = s.len();
    assert(s@.take(k as int) =~= s@);
    while k > 0
        invariant
            k <= s@.len(),
            spec_last_index_of(s@, c) == spec_last_index_of(s@.take(k as int), c),
        decreases k,
    {
        let ghost t = s@.take(k as int);
        if s[k - 1] == c {
            assert(t.last() == c);
            return Some(k - 1);
        }
        assert(t.drop_last() =~= s@.take(k - 1));
        k = k - 1;
    }
    proof {
        lemma_last_index_prefix(s@, c, s@.len() as int);
    }
    None
}

/// A fresh string holding the characters `from..to` of `s`.
pub fn subrange_string(s: &str, from: usize, to: usize) -> (r: String)
    requires
        from <= to <= s@.len(),
    ensures
        r@ == s@.subrange(from as int, to as int),
{
    s.substring_char(from, to).to_owned()
}


/// Whether two character vectors are equal.
pub fn chars_eq(a: &Vec<char>, b: &Vec<char>) -> (r: bool)
    ensures
        r == (a@ == b@),
{
    if a.len() != b.len() {
        return false;
    }
    let mut i: usize = 0;
    while i < a.len()
        invariant
            i <= a@.len(),
            a@.len() == b@.len(),
            forall|j: int| 0 <= j < i ==> a@[j] == b@[j],
        decreases a@.len() - i,
    {
        if a[i] != b[i] {
            return false;
        }
        i = i + 1;
    }
    assert(a@ =~= b@);
    true
}

/// Whether `s` begins with `prefix`.
pub fn starts_with(s: &str, prefix: &str) -> (r: bool)
    ensures
        r == prefix@.is_prefix_of(s@),
{
    let a = chars_of(s);
    let b = chars_of(prefix);
    if b.len() > a.len() {
        return false;
    }
    let mut i: usize = 0;
    while i < b.len()
        invariant
            i <= b@.len(),
            b@.len() <= a@.len(),
            a@ == s@,
            b@ == prefix@,
            forall|j: int| 0 <= j < i ==> a@[j] == b@[j],
        decreases b@.len() - i,
    {
        if a[i] != b[i] {
            proof {
                assert(a@.subrange(0, b@.len() as int)[i as int] != b@[i as int]);
            }
            return false;
        }
        i = i + 1;
    }
    assert(a@.subrange(0, b@.len() as int) =~= b@);
    true
}

/// An ASCII hexadecimal digit.
pub open spec fn is_hex_digit(c: char) -> bool {
    ('0' <= c && c <= '9') || ('a' <= c && c <= 'f') || ('A' <= c && c <= 'F')
}

/// Whether every character of `s` is an ASCII hexadecimal digit.
pub fn all_hex(s: &str) -> (r: bool)
    ensures
        r == forall|i: int| 0 <= i < s@.len() ==> is_hex_digit(#[trigger] s@[i]),
{
    let a = chars_of(s);
    let mut i: usize = 0;
    while i < a.len()
        invariant
            i <= a@.len(),
            a@ == s@,
            forall|j: int| 0 <= j < i ==> is_hex_digit(#[trigger] a@[j]),
        decreases a@.len() - i,
    {
        let c = a[i];
        if !(('0' <= c && c <= '9') || ('a' <= c && c <= 'f') || ('A' <= c && c <= 'F')) {
            return false;
        }
        i = i + 1;
    }
    true
}

/// std's `String::push`, which appends `c` to `s`: as its documentation
/// says, the text after is the text before with `c` at its end.
#[verifier::external_body]
pub fn push_char(s: &mut String, c: char)
    ensures
        final(s)@ == old(s)@.push(c),
{
    s.push(c);
}

/// Whether two strings hold the same characters.
pub fn str_eq(a: &str, b: &str) -> (r: bool)
    ensures
        r == (a@ == b@),
{
    let x = chars_of(a);
    let y = chars_of(b);
    chars_eq(&x, &y)
}


/// The position of the first occurrence of `c` in `s`, if any.
pub open spec fn spec_index_of(s: Seq<char>, c: char) -> Option<int>
    decreases s.len(),
{
    if s.len() == 0 {
        None
    } else if s[0] == c {
        Some(0)
    } else {
        match spec_index_of(s.drop_first(), c) {
            Some(i) => Some(i + 1),
            None => None,
        }
    }
}

/// `c` first occurs at `k` when it is there and nowhere before.
pub proof fn lemma_index_of_at(s: Seq<char>, c: char, k: int)
    requires
        0 <= k < s.len(),
        s[k] == c,
        forall|j: int| 0 <= j < k ==> s[j] != c,
    ensures
        spec_index_of(s, c) == Some(k),
    decreases k,
{
    if k > 0 {
        lemma_index_of_at(s.drop_first(), c, k - 1);
    }
}

/// No occurrence of `c` means no index.
pub proof fn lemma_index_of_none(s: Seq<char>, c: char)
    requires
        forall|j: int| 0 <= j < s.len() ==> s[j] != c,
    ensures
        spec_index_of(s, c) is None,
    decreases s.len(),
{
    if s.len() > 0 {
        lemma_index_of_none(s.drop_first(), c);
    }
}

/// A line ended by `\n` loses a trailing `\r` as well (`\r\n` endings).
pub open spec fn strip_cr(l: Seq<char>) -> Seq<char> {
    if l.len() > 0 && l.last() == '\r' {
        l.drop_last()
    } else {
        l
    }
}

/// The lines of a text, as `str::lines` splits them: at each `\n` (with a
/// `\r` just before it dropped too); a final line needs no terminator, and a
/// trailing terminator does not start an empty line.
pub open spec fn spec_lines(s: Seq<char>) -> Seq<Seq<char>>
    decreases s.len(),
{
    if s.len() == 0 {
        Seq::empty()
    } else {
        match spec_index_of(s, '\n') {
            None => seq![s],
            Some(i) => {
                if 0 <= i < s.len() {
                    seq![strip_cr(s.take(i))] + spec_lines(s.skip(i + 1))
                } else {
                    Seq::empty()
                }
            },
        }
    }
}

/// The strings as character sequences.
pub open spec fn strs_v(v: Seq<String>) -> Seq<Seq<char>> {
    v.map_values(|s: String| s@)
}

/// The lines of `s`, as `str::lines` gives them.
pub fn split_lines(s: &str) -> (r: Vec<String>)
    ensures
        strs_v(r@) == spec_lines(s@),
{
    let cs = chars_of(s);
    let n = cs.len();
    let mut out: Vec<String> = Vec::new();
    let mut start: usize = 0;
    let mut i: usize = 0;
    assert(s@.skip(0) =~= s@);
    assert(strs_v(out@) =~= Seq::<Seq<char>>::empty());
    assert(spec_lines(s@) =~= strs_v(out@) + spec_lines(s@.skip(0)));
    while i < n
        invariant
            n == cs@.len(),
            cs@ == s@,
            start <= i <= n,
            forall|j: int| start <= j < i ==> cs@[j] != '\n',
            spec_lines(s@) == strs_v(out@) + spec_lines(s@.skip(start as int)),
        decreases n - i,
    {
        if cs[i] == '\n' {
            let ghost rest = s@.skip(start as int);
            proof {
                lemma_index_of_at(rest, '\n', i - start);
                assert(rest.take(i - start) =~= s@.subrange(start as int, i as int));
                assert(rest.skip(i - start + 1) =~= s@.skip(i + 1));
            }
            let end = if i > start && cs[i - 1] == '\r' {
                i - 1
            } else {
                i
            };
            let line = subrange_string(s, start, end);
            assert(line@ =~= strip_cr(rest.take(i - start)));
            let ghost before = strs_v(out@);
            out.push(line);
            assert(strs_v(out@) =~= before.push(line@));
            assert(strs_v(out@) + spec_lines(s@.skip(i + 1)) =~= before + (seq![line@] + spec_lines(
                s@.skip(i + 1),
            )));
            start = i + 1;
        }
        i = i + 1;
    }
    let ghost rest = s@.skip(start as int);
    if start < n {
        proof {
            lemma_index_of_none(rest, '\n');
        }
        let line = subrange_string(s, start, n);
        assert(line@ =~= rest);
        let ghost before = strs_v(out@);
        out.push(line);
        assert(strs_v(out@) =~= before.push(line@));
        assert(spec_lines(rest) =~= seq![rest]);
    } else {
        assert(rest.len() == 0);
    }
    assert(spec_lines(s@) =~= strs_v(out@));
    out
}


/// A found index lies inside the sequence and holds `c`, with no earlier `c`.
pub proof fn lemma_index_of_bounds(s: Seq<char>, c: char)
    ensures
        spec_index_of(s, c) matches Some(i) ==> 0 <= i < s.len() && s[i] == c,
    decreases s.len(),
{
    if s.len() > 0 && s[0] != c {
        lemma_index_of_bounds(s.drop_first(), c);
    }
}

/// No line is longer than its text, and there are no more lines than
/// characters.
pub proof fn lemma_lines_short(s: Seq<char>)
    ensures
        spec_lines(s).len() <= s.len(),
        forall|i: int| 0 <= i < spec_lines(s).len() ==> (#[trigger] spec_lines(s)[i]).len() <= s.len(),
    decreases s.len(),
{
    lemma_index_of_bounds(s, '\n');
    if s.len() > 0 {
        match spec_index_of(s, '\n') {
            None => {},
            Some(k) => {
                lemma_lines_short(s.skip(k + 1));
                let rest = spec_lines(s.skip(k + 1));
                let all = spec_lines(s);
                assert(all =~= seq![strip_cr(s.take(k))] + rest);
                assert forall|i: int| 0 <= i < all.len() implies (#[trigger] all[i]).len() <= s.len() by {
                    if i > 0 {
                        assert(all[i] == rest[i - 1]);
                    }
                }
            },
        }
    }
}


/// The character of decimal digit `d`.
pub open spec fn digit_char(d: int) -> char {
    if d == 0 {
        '0'
    } else if d == 1 {
        '1'
    } else if d == 2 {
        '2'
    } else if d == 3 {
        '3'
    } else if d == 4 {
        '4'
    } else if d == 5 {
        '5'
    } else if d == 6 {
        '6'
    } else if d == 7 {
        '7'
    } else if d == 8 {
        '8'
    } else {
        '9'
    }
}

/// The decimal representation of `n`, without leading zeros.
pub open spec fn spec_decimal(n: nat) -> Seq<char>
    decreases n,
{
    if n < 10 {
        seq![digit_char(n as int)]
    } else {
        spec_decimal(n / 10).push(digit_char((n % 10) as int))
    }
}

fn digit_str(d: usize) -> (s: &'static str)
    requires
        d < 10,
    ensures
        s@ == seq![digit_char(d as int)],
{
    proof {
        reveal_strlit("0");
        reveal_strlit("1");
        reveal_strlit("2");
        reveal_strlit("3");
        reveal_strlit("4");
        reveal_strlit("5");
        reveal_strlit("6");
        reveal_strlit("7");
        reveal_strlit("8");
        reveal_strlit("9");
    }
    let r = if d == 0 {
        "0"
    } else if d == 1 {
        "1"
    } else if d == 2 {
        "2"
    } else if d == 3 {
        "3"
    } else if d == 4 {
        "4"
    } else if d == 5 {
        "5"
    } else if d == 6 {
        "6"
    } else if d == 7 {
        "7"
    } else if d == 8 {
        "8"
    } else {
        "9"
    };
    assert(r@ =~= seq![digit_char(d as int)]);
    r
}

/// Append the decimal representation of `n`.
pub fn push_decimal(s: &mut String, n: usize)
    ensures
        final(s)@ == old(s)@ + spec_decimal(n as nat),
    decreases n,
{
    if n >= 10 {
        push_decimal(s, n / 10);
    }
    s.append(digit_str(n % 10));
    assert(n >= 10 ==> spec_decimal(n as nat) =~= spec_decimal((n / 10) as nat).push(
        digit_char((n % 10) as int),
    ));
}

} // verus!
