//! Character-level helpers: building strings, searching and joining
//! character sequences, and decimal notation of integers.

use vstd::prelude::*;
use vstd::string::*;

verus! {

/// Appends one character to a string.
///
/// Trusted: calls `String::push`, which std documents as appending the
/// given `char` to the end of the string.
#[verifier::external_body]
pub(crate) fn push_char(s: &mut String, c: char)
    ensures
        final(s)@ == old(s)@.push(c),
{
    s.push(c);
}

/// Appends every character of `chars` to `s`.
pub fn push_chars(s: &mut String, chars: &Vec<char>)
    ensures
        final(s)@ == old(s)@ + chars@,
{
    let mut i: usize = 0;
    while i < chars.len()
        invariant
            i <= chars@.len(),
            s@ == old(s)@ + chars@.subrange(0, i as int),
        decreases chars@.len() - i,
    {
        push_char(s, chars[i]);
        assert(chars@.subrange(0, i + 1) == chars@.subrange(0, i as int).push(chars@[i as int]));
        i += 1;
    }
    assert(chars@.subrange(0, chars@.len() as int) == chars@);
}

/// A string holding exactly the given characters.
pub fn string_from_chars(chars: &Vec<char>) -> (s: String)
    ensures
        s@ == chars@,
{
    let mut s = String::new();
    push_chars(&mut s, chars);
    s
}

/// The characters of a string slice.
pub fn str_chars(s: &str) -> (chars: Vec<char>)
    ensures
        chars@ == s@,
{
    let n = s.unicode_len();
    let mut chars: Vec<char> = Vec::new();
    let mut i: usize = 0;
    while i < n
        invariant
            n == s@.len(),
            i <= n,
            chars@ == s@.subrange(0, i as int),
        decreases n - i,
    {
        let c = s.get_char(i);
        chars.push(c);
        assert(s@.subrange(0, i + 1) == s@.subrange(0, i as int).push(c));
        i += 1;
    }
    assert(s@.subrange(0, n as int) == s@);
    chars
}

/// The characters of a string.
pub fn string_chars(s: &String) -> (chars: Vec<char>)
    ensures
        chars@ == s@,
{
    str_chars(s.as_str())
}

/// Two string slices hold the same characters.
pub fn str_equal(a: &str, b: &str) -> (res: bool)
    ensures
        res == (a@ == b@),
{
    let ca = str_chars(a);
    let cb = str_chars(b);
    chars_equal(&ca, &cb)
}

/// Two character vectors are equal.
pub fn chars_equal(a: &Vec<char>, b: &Vec<char>) -> (res: bool)
    ensures
        res == (a@ == b@),
{
    if a.len() != b.len() {
        return false;
    }
    let mut i: usize = 0;
    while i < a.len()
        invariant
            a@.len() == b@.len(),
            i <= a@.len(),
            forall|j: int| 0 <= j < i ==> a@[j] == b@[j],
        decreases a@.len() - i,
    {
        if a[i] != b[i] {
            return false;
        }
        i += 1;
    }
    assert(a@ =~= b@);
    true
}

/// `pat` occurs in `s` starting at position `i`.
pub open spec fn occurs_at(s: Seq<char>, pat: Seq<char>, i: int) -> bool {
    0 <= i && i + pat.len() <= s.len() && s.subrange(i, i + pat.len()) == pat
}

/// `pat` occurs somewhere in `s`.
pub open spec fn seq_contains(s: Seq<char>, pat: Seq<char>) -> bool {
    exists|i: int| #[trigger] occurs_at(s, pat, i)
}

/// Whether `pat` occurs in `s`.
pub fn chars_contain(s: &Vec<char>, pat: &Vec<char>) -> (res: bool)
    ensures
        res == seq_contains(s@, pat@),
{
    if pat.len() == 0 {
        assert(s@.subrange(0, 0) =~= pat@);
        assert(occurs_at(s@, pat@, 0));
        return true;
    }
    if pat.len() > s.len() {
        assert forall|i: int| !#[trigger] occurs_at(s@, pat@, i) by {}
        return false;
    }
    let n = s.len();
    let last = n - pat.len();
    let mut i: usize = 0;
    while i <= last
        invariant
            1 <= pat@.len() <= s@.len(),
            n == s@.len(),
            last == s@.len() - pat@.len(),
            i <= last + 1,
            forall|j: int| 0 <= j < i ==> !#[trigger] occurs_at(s@, pat@, j),
        decreases last + 1 - i,
    {
        let mut k: usize = 0;
        let mut matched = true;
        while k < pat.len()
            invariant
                i <= last,
                n == s@.len(),
                1 <= pat@.len() <= s@.len(),
                last == s@.len() - pat@.len(),
                k <= pat@.len(),
                matched == forall|m: int| 0 <= m < k ==> s@[i + m] == pat@[m],
            decreases pat@.len() - k,
        {
            if s[i + k] != pat[k] {
                matched = false;
            }
            k += 1;
        }
        if matched {
            assert(s@.subrange(i as int, i + pat@.len()) =~= pat@);
            assert(occurs_at(s@, pat@, i as int));
            return true;
        }
        assert(!occurs_at(s@, pat@, i as int)) by {
            if occurs_at(s@, pat@, i as int) {
                let m = choose|m: int| 0 <= m < pat@.len() && s@[i + m] != pat@[m];
                assert(s@.subrange(i as int, i + pat@.len())[m] == s@[i + m]);
            }
        }
        i += 1;
    }
    assert forall|j: int| !#[trigger] occurs_at(s@, pat@, j) by {
        if j > last {
        }
    }
    false
}

/// The position of the first `c` in `s`, if any.
pub open spec fn first_index_of(s: Seq<char>, c: char) -> Option<int> {
    if exists|i: int| 0 <= i < s.len() && s[i] == c {
        Some(choose|i: int| 0 <= i < s.len() && s[i] == c && forall|j: int| 0 <= j < i ==> s[j] != c)
    } else {
        None
    }
}

/// The position of the first `c` in `s`, if any.
pub fn find_char(s: &Vec<char>, c: char) -> (res: Option<usize>)
    ensures
        match res {
            Some(i) => i < s@.len() && s@[i as int] == c && forall|j: int| 0 <= j < i ==> s@[j] != c,
            None => forall|j: int| 0 <= j < s@.len() ==> s@[j] != c,
        },
        res matches Some(i) ==> first_index_of(s@, c) == Some(i as int),
        res is None ==> first_index_of(s@, c) is None,
{
    let mut i: usize = 0;
    while i < s.len()
        invariant
            i <= s@.len(),
            forall|j: int| 0 <= j < i ==> s@[j] != c,
        decreases s@.len() - i,
    {
        if s[i] == c {
            proof {
                let k = choose|k: int|
                    0 <= k < s@.len() && s@[k] == c && forall|j: int| 0 <= j < k ==> s@[j] != c;
                assert(k == i) by {
                    if k < i {
                    } else if k > i {
                        assert(s@[i as int] != c);
                    }
                }
            }
            return Some(i);
        }
        i += 1;
    }
    None
}

/// Decimal digits of a natural number, most significant first.
pub open spec fn nat_decimal(n: nat) -> Seq<char>
    decreases n,
{
    if n < 10 {
        seq![digit_char(n)]
    } else {
        nat_decimal(n / 10).push(digit_char(n % 10))
    }
}

/// The character of a decimal digit.
pub open spec fn digit_char(d: nat) -> char {
    if d == 0 { '0' }
    else if d == 1 { '1' }
    else if d == 2 { '2' }
    else if d == 3 { '3' }
    else if d == 4 { '4' }
    else if d == 5 { '5' }
    else if d == 6 { '6' }
    else if d == 7 { '7' }
    else if d == 8 { '8' }
    else { '9' }
}

/// Decimal notation of an integer, with a leading `-` when negative.
pub open spec fn int_decimal(n: int) -> Seq<char> {
    if n < 0 {
        seq!['-'] + nat_decimal((-n) as nat)
    } else {
        nat_decimal(n as nat)
    }
}

fn digit_to_char(d: u64) -> (c: char)
    requires
        d < 10,
    ensures
        c == digit_char(d as nat),
{
    if d == 0 { '0' }
    else if d == 1 { '1' }
    else if d == 2 { '2' }
    else if d == 3 { '3' }
    else if d == 4 { '4' }
    else if d == 5 { '5' }
    else if d == 6 { '6' }
    else if d == 7 { '7' }
    else if d == 8 { '8' }
    else { '9' }
}

/// Decimal digits of `n`.
pub fn u64_decimal(n: u64) -> (digits: Vec<char>)
    ensures
        digits@ == nat_decimal(n as nat),
    decreases n,
{
    if n < 10 {
        let mut v: Vec<char> = Vec::new();
        v.push(digit_to_char(n));
        v
    } else {
        let mut v = u64_decimal(n / 10);
        v.push(digit_to_char(n % 10));
        v
    }
}

/// Decimal notation of a 32-bit signed integer.
pub fn i32_decimal(n: i32) -> (digits: Vec<char>)
    ensures
        digits@ == int_decimal(n as int),
{
    if n < 0 {
        let magnitude: u64 = (0i64 - (n as i64)) as u64;
        let digits = u64_decimal(magnitude);
        let mut v: Vec<char> = Vec::new();
        v.push('-');
        let mut out = v;
        let mut i: usize = 0;
        while i < digits.len()
            invariant
                i <= digits@.len(),
                out@ == seq!['-'] + digits@.subrange(0, i as int),
            decreases digits@.len() - i,
        {
            out.push(digits[i]);
            assert(digits@.subrange(0, i + 1) == digits@.subrange(0, i as int).push(digits@[i as int]));
            i += 1;
        }
        assert(digits@.subrange(0, digits@.len() as int) == digits@);
        out
    } else {
        u64_decimal(n as u64)
    }
}

/// The pieces joined with `sep` between neighbours.
pub open spec fn join_with(parts: Seq<Seq<char>>, sep: Seq<char>) -> Seq<char>
    decreases parts.len(),
{
    if parts.len() == 0 {
        seq![]
    } else if parts.len() == 1 {
        parts[0]
    } else {
        join_with(parts.drop_last(), sep) + sep + parts.last()
    }
}

/// The character sequences of a vector of character vectors.
pub open spec fn views_of(parts: Seq<Vec<char>>) -> Seq<Seq<char>> {
    parts.map_values(|v: Vec<char>| v@)
}

/// The character sequences of a slice of strings.
pub open spec fn string_views(parts: Seq<String>) -> Seq<Seq<char>> {
    parts.map_values(|v: String| v@)
}

/// Joins character vectors with `sep` between neighbours.
pub fn join_chars(parts: &Vec<Vec<char>>, sep: &Vec<char>) -> (out: Vec<char>)
    ensures
        out@ == join_with(views_of(parts@), sep@),
{
    let mut out: Vec<char> = Vec::new();
    let mut i: usize = 0;
    while i < parts.len()
        invariant
            i <= parts@.len(),
            out@ == join_with(views_of(parts@.subrange(0, i as int)), sep@),
        decreases parts@.len() - i,
    {
        let ghost prev = parts@.subrange(0, i as int);
        let ghost next = parts@.subrange(0, i + 1);
        assert(next.drop_last() == prev);
        assert(views_of(next).drop_last() =~= views_of(prev));
        if i > 0 {
            append_chars(&mut out, sep);
        }
        append_chars(&mut out, &parts[i]);
        i += 1;
    }
    assert(parts@.subrange(0, parts@.len() as int) == parts@);
    out
}

/// Joins strings with `sep` between neighbours.
pub fn join_strings(parts: &[String], sep: &Vec<char>) -> (out: Vec<char>)
    ensures
        out@ == join_with(string_views(parts@), sep@),
{
    let mut out: Vec<char> = Vec::new();
    let mut i: usize = 0;
    while i < parts.len()
        invariant
            i <= parts@.len(),
            out@ == join_with(string_views(parts@.subrange(0, i as int)), sep@),
        decreases parts@.len() - i,
    {
        let ghost prev = parts@.subrange(0, i as int);
        let ghost next = parts@.subrange(0, i + 1);
        assert(next.drop_last() == prev);
        assert(string_views(next).drop_last() =~= string_views(prev));
        if i > 0 {
            append_chars(&mut out, sep);
        }
        let piece = string_chars(&parts[i]);
        append_chars(&mut out, &piece);
        i += 1;
    }
    assert(parts@.subrange(0, parts@.len() as int) == parts@);
    out
}

/// Appends the characters of `tail` to `v`.
pub fn append_chars(v: &mut Vec<char>, tail: &Vec<char>)
    ensures
        final(v)@ == old(v)@ + tail@,
{
    let mut i: usize = 0;
    while i < tail.len()
        invariant
            i <= tail@.len(),
            v@ == old(v)@ + tail@.subrange(0, i as int),
        decreases tail@.len() - i,
    {
        v.push(tail[i]);
        assert(tail@.subrange(0, i + 1) == tail@.subrange(0, i as int).push(tail@[i as int]));
        i += 1;
    }
    assert(tail@.subrange(0, tail@.len() as int) == tail@);
}

/// The pieces of `s` between occurrences of `sep` (as `str::split` gives
/// them: an empty `s` gives one empty piece).
pub open spec fn split_on(s: Seq<char>, sep: char) -> Seq<Seq<char>>
    decreases s.len(),
{
    if s.len() == 0 {
        seq![seq![]]
    } else {
        let prev = split_on(s.drop_last(), sep);
        if s.last() == sep {
            prev.push(seq![])
        } else {
            prev.update(prev.len() - 1, prev.last().push(s.last()))
        }
    }
}

pub proof fn lemma_split_nonempty(s: Seq<char>, sep: char)
    ensures
        split_on(s, sep).len() >= 1,
    decreases s.len(),
{
    if s.len() > 0 {
        lemma_split_nonempty(s.drop_last(), sep);
    }
}

/// Splits `s` at every `sep`.
pub fn split_chars(s: &Vec<char>, sep: char) -> (pieces: Vec<Vec<char>>)
    ensures
        views_of(pieces@) == split_on(s@, sep),
        pieces@.len() >= 1,
{
    let mut pieces: Vec<Vec<char>> = Vec::new();
    let mut current: Vec<char> = Vec::new();
    let mut i: usize = 0;
    proof {
        assert(s@.subrange(0, 0) =~= Seq::<char>::empty());
    }
    while i < s.len()
        invariant
            i <= s@.len(),
            views_of(pieces@).push(current@) == split_on(s@.subrange(0, i as int), sep),
        decreases s@.len() - i,
    {
        let ghost prefix = s@.subrange(0, i + 1);
        assert(prefix.drop_last() == s@.subrange(0, i as int));
        assert(prefix.last() == s@[i as int]);
        if s[i] == sep {
            let done = current;
            pieces.push(done);
            current = Vec::new();
            assert(views_of(pieces@) =~= views_of(pieces@.drop_last()).push(done@));
            assert(views_of(pieces@).push(current@) =~= split_on(prefix, sep));
        } else {
            let ghost before = current@;
            current.push(s[i]);
            assert(views_of(pieces@).push(current@) =~= views_of(pieces@).push(before).update(
                pieces@.len() as int,
                before.push(s@[i as int]),
            ));
        }
        i += 1;
    }
    assert(s@.subrange(0, s@.len() as int) == s@);
    let last = current;
    pieces.push(last);
    assert(views_of(pieces@) =~= views_of(pieces@.drop_last()).push(last@));
    pieces
}

} // verus!
