use vstd::prelude::*;

verus! {

broadcast use vstd::string::group_string_axioms;

/// `String::push` appends the given character to the end of the string.
pub assume_specification[ String::push ](s: &mut String, ch: char)
    ensures
        final(s)@ == old(s)@.push(ch),
;

/// The characters of a string slice, in order.
pub fn chars_of(s: &str) -> (v: Vec<char>)
    ensures
        v@ == s@,
{
    let mut v: Vec<char> = Vec::new();
    for c in it: s.chars()
        invariant
            v@ == it.seq().take(it.index()),
    {
        v.push(c);
    }
    v
}

/// A string made of the characters `v[from..to]`.
pub fn string_from_range(v: &Vec<char>, from: usize, to: usize) -> (s: String)
    requires
        from <= to <= v.len(),
    ensures
        s@ == v@.subrange(from as int, to as int),
{
    let mut s = String::new();
    let mut i = from;
    while i < to
        invariant
            from <= i <= to <= v.len(),
            s@ == v@.subrange(from as int, i as int),
        decreases to - i,
    {
        s.push(v[i]);
        i = i + 1;
    }
    s
}

/// A string made of all the characters of `v`.
pub fn string_from_chars(v: &Vec<char>) -> (s: String)
    ensures
        s@ == v@,
{
    let s = string_from_range(v, 0, v.len());
    assert(v@.subrange(0, v@.len() as int) =~= v@);
    s
}

/// Appends every character of `v` to `s`.
pub fn push_all(s: &mut String, v: &Vec<char>)
    ensures
        final(s)@ == old(s)@ + v@,
{
    let mut i: usize = 0;
    while i < v.len()
        invariant
            i <= v.len(),
            s@ == old(s)@ + v@.subrange(0, i as int),
        decreases v.len() - i,
    {
        s.push(v[i]);
        i = i + 1;
        assert(old(s)@ + v@.subrange(0, i as int) =~= (old(s)@ + v@.subrange(0, i - 1)).push(
            v@[i - 1],
        ));
    }
    assert(v@.subrange(0, v@.len() as int) =~= v@);
}

/// Appends every character of the string slice `t` to `s`.
pub fn push_str_chars(s: &mut String, t: &str)
    ensures
        final(s)@ == old(s)@ + t@,
{
    let v = chars_of(t);
    push_all(s, &v);
}

// ---------------------------------------------------------------------
// Unicode white space and trimming
// ---------------------------------------------------------------------

/// The characters with the Unicode property `White_Space`, which is what
/// `char::is_whitespace` and `str::trim` go by.
pub open spec fn is_white_space(c: char) -> bool {
    let u = c as u32;
    ||| 0x9 <= u <= 0xd
    ||| u == 0x20
    ||| u == 0x85
    ||| u == 0xa0
    ||| u == 0x1680
    ||| 0x2000 <= u <= 0x200a
    ||| u == 0x2028
    ||| u == 0x2029
    ||| u == 0x202f
    ||| u == 0x205f
    ||| u == 0x3000
}

/// `s` without its leading white space.
pub open spec fn trim_start(s: Seq<char>) -> Seq<char>
    decreases s.len(),
{
    if s.len() > 0 && is_white_space(s[0]) {
        trim_start(s.drop_first())
    } else {
        s
    }
}

/// `s` without its trailing white space.
pub open spec fn trim_end(s: Seq<char>) -> Seq<char>
    decreases s.len(),
{
    if s.len() > 0 && is_white_space(s.last()) {
        trim_end(s.drop_last())
    } else {
        s
    }
}

/// `s` without leading and trailing white space, as `str::trim` gives it.
pub open spec fn trim(s: Seq<char>) -> Seq<char> {
    trim_end(trim_start(s))
}

/// Whether `c` is white space, by the `White_Space` property.
pub fn is_white_space_char(c: char) -> (r: bool)
    ensures
        r == is_white_space(c),
{
    let u = c as u32;
    (0x9 <= u && u <= 0xd) || u == 0x20 || u == 0x85 || u == 0xa0 || u == 0x1680 || (0x2000 <= u
        && u <= 0x200a) || u == 0x2028 || u == 0x2029 || u == 0x202f || u == 0x205f || u == 0x3000
}

/// The string slice `s` with leading and trailing white space removed.
pub fn trim_text(s: &str) -> (r: String)
    ensures
        r@ == trim(s@),
{
    let v = chars_of(s);
    let n = v.len();
    let mut i: usize = 0;
    assert(v@.subrange(0, n as int) =~= v@);
    while i < n && is_white_space_char(v[i])
        invariant
            n == v@.len(),
            i <= n,
            trim_start(v@) == trim_start(v@.subrange(i as int, n as int)),
        decreases n - i,
    {
        assert(v@.subrange(i as int, n as int).drop_first() =~= v@.subrange(i + 1, n as int));
        i = i + 1;
    }
    assert(trim_start(v@) == v@.subrange(i as int, n as int));
    let mut j: usize = n;
    while j > i && is_white_space_char(v[j - 1])
        invariant
            n == v@.len(),
            i <= j <= n,
            trim_end(v@.subrange(i as int, n as int)) == trim_end(v@.subrange(i as int, j as int)),
        decreases j - i,
    {
        assert(v@.subrange(i as int, j as int).drop_last() =~= v@.subrange(i as int, j - 1));
        j = j - 1;
    }
    string_from_range(&v, i, j)
}

// ---------------------------------------------------------------------
// Splitting on a separator
// ---------------------------------------------------------------------

/// Splitting `s` at each `sep`: the finished pieces and the piece in
/// progress.
pub open spec fn split_state(s: Seq<char>, sep: char) -> (Seq<Seq<char>>, Seq<char>)
    decreases s.len(),
{
    if s.len() == 0 {
        (Seq::empty(), Seq::empty())
    } else {
        let (done, cur) = split_state(s.drop_last(), sep);
        if s.last() == sep {
            (done.push(cur), Seq::empty())
        } else {
            (done, cur.push(s.last()))
        }
    }
}

/// The pieces of `s` between the separators `sep`, as `str::split` with a
/// character pattern yields them; there is always at least one.
pub open spec fn split_on(s: Seq<char>, sep: char) -> Seq<Seq<char>> {
    split_state(s, sep).0.push(split_state(s, sep).1)
}

/// Text without the separator only extends the piece in progress.
pub proof fn lemma_split_state_append_plain(a: Seq<char>, b: Seq<char>, sep: char)
    requires
        !b.contains(sep),
    ensures
        split_state(a + b, sep) == (split_state(a, sep).0, split_state(a, sep).1 + b),
    decreases b.len(),
{
    if b.len() == 0 {
        assert(a + b =~= a);
        assert(split_state(a, sep).1 + b =~= split_state(a, sep).1);
    } else {
        let b0 = b.drop_last();
        assert(!b0.contains(sep)) by {
            if b0.contains(sep) {
                let i = choose|i: int| 0 <= i < b0.len() && b0[i] == sep;
                assert(b[i] == sep);
            }
        }
        lemma_split_state_append_plain(a, b0, sep);
        assert((a + b).drop_last() =~= a + b0);
        assert((a + b).last() == b.last());
        assert(b.last() != sep) by {
            assert(b[b.len() - 1] == b.last());
        }
        assert(split_state(a, sep).1 + b =~= (split_state(a, sep).1 + b0).push(b.last()));
    }
}

/// Joining `a` and `b` with the separator, where `b` holds no separator,
/// gives the pieces of `a` followed by `b`.
pub proof fn lemma_split_on_join(a: Seq<char>, b: Seq<char>, sep: char)
    requires
        !b.contains(sep),
    ensures
        split_on(a + seq![sep] + b, sep) == split_on(a, sep).push(b),
{
    let x = a + seq![sep];
    assert(x.drop_last() =~= a);
    assert(x.last() == sep);
    assert(split_state(x, sep) == (split_on(a, sep), Seq::<char>::empty()));
    lemma_split_state_append_plain(x, b, sep);
    assert(Seq::<char>::empty() + b =~= b);
}

/// Text without the separator is a single piece.
pub proof fn lemma_split_on_plain(b: Seq<char>, sep: char)
    requires
        !b.contains(sep),
    ensures
        split_on(b, sep) == seq![b],
{
    lemma_split_state_append_plain(Seq::empty(), b, sep);
    assert(Seq::<char>::empty() + b =~= b);
    assert(split_on(b, sep) =~= seq![b]);
}

/// The pieces of `v` between the separators `sep`.
pub fn split_chars(v: &Vec<char>, sep: char) -> (parts: Vec<Vec<char>>)
    ensures
        parts@.map_values(|p: Vec<char>| p@) == split_on(v@, sep),
{
    let mut done: Vec<Vec<char>> = Vec::new();
    let mut cur: Vec<char> = Vec::new();
    let mut i: usize = 0;
    while i < v.len()
        invariant
            i <= v.len(),
            done@.map_values(|p: Vec<char>| p@) == split_state(v@.take(i as int), sep).0,
            cur@ == split_state(v@.take(i as int), sep).1,
        decreases v.len() - i,
    {
        assert(v@.take(i + 1).drop_last() =~= v@.take(i as int));
        let c = v[i];
        if c == sep {
            let finished = cur;
            cur = Vec::new();
            done.push(finished);
        } else {
            cur.push(c);
        }
        assert(done@.map_values(|p: Vec<char>| p@) =~= split_state(v@.take(i + 1), sep).0);
        i = i + 1;
    }
    assert(v@.take(v@.len() as int) =~= v@);
    done.push(cur);
    assert(done@.map_values(|p: Vec<char>| p@) =~= split_on(v@, sep));
    done
}

// ---------------------------------------------------------------------
// Decimal numbers
// ---------------------------------------------------------------------

/// Whether `c` is one of the ASCII digits `0` to `9`.
pub open spec fn is_digit(c: char) -> bool {
    '0' <= c <= '9'
}

/// The value of the ASCII digit `c`.
pub open spec fn digit_value(c: char) -> int {
    (c as u32) - ('0' as u32)
}

/// Whether every character of `s` is an ASCII digit.
pub open spec fn all_digits(s: Seq<char>) -> bool {
    forall|i: int| 0 <= i < s.len() ==> is_digit(#[trigger] s[i])
}

/// The number that the digits `s` write in base 10.
pub open spec fn decimal_value(s: Seq<char>) -> int
    decreases s.len(),
{
    if s.len() == 0 {
        0
    } else {
        decimal_value(s.drop_last()) * 10 + digit_value(s.last())
    }
}

/// The part of `s` after an optional leading `+`.
pub open spec fn unsigned_digits(s: Seq<char>) -> Seq<char> {
    if s.len() > 0 && s[0] == '+' {
        s.drop_first()
    } else {
        s
    }
}

/// What `str::parse::<u32>` gives: an optional `+` followed by at least one
/// ASCII digit, whose value fits in a `u32`; anything else is an error.
pub open spec fn parse_u32_spec(s: Seq<char>) -> Option<u32> {
    let d = unsigned_digits(s);
    if d.len() > 0 && all_digits(d) && decimal_value(d) <= u32::MAX {
        Some(decimal_value(d) as u32)
    } else {
        None
    }
}

proof fn lemma_decimal_value_grows(s: Seq<char>, k: int)
    requires
        all_digits(s),
        0 <= k <= s.len(),
    ensures
        0 <= decimal_value(s.take(k)) <= decimal_value(s),
    decreases s.len(),
{
    if s.len() > 0 {
        let p = s.drop_last();
        assert(all_digits(p)) by {
            assert forall|i: int| 0 <= i < p.len() implies is_digit(#[trigger] p[i]) by {
                assert(p[i] == s[i]);
            }
        }
        assert(is_digit(s[s.len() - 1]));
        if k == s.len() {
            assert(s.take(k) =~= s);
            lemma_decimal_value_grows(p, 0);
        } else {
            assert(p.take(k) =~= s.take(k));
            lemma_decimal_value_grows(p, k);
        }
        let dp = decimal_value(p);
        assert(dp * 10 + digit_value(s.last()) >= dp) by (nonlinear_arith)
            requires
                dp >= 0,
                digit_value(s.last()) >= 0,
        ;
    } else {
        assert(s.take(k) =~= s);
    }
}

/// Parses the characters `s` as `str::parse::<u32>` does.
pub fn parse_u32_chars(s: &Vec<char>) -> (r: Option<u32>)
    ensures
        r == parse_u32_spec(s@),
{
    let n = s.len();
    let start: usize = if n > 0 && s[0] == '+' {
        1
    } else {
        0
    };
    let ghost d = unsigned_digits(s@);
    assert(d =~= s@.subrange(start as int, n as int));
    if start == n {
        return None;
    }
    let mut acc: u64 = 0;
    let mut i: usize = start;
    while i < n
        invariant
            start <= i <= n == s@.len(),
            d == unsigned_digits(s@),
            d =~= s@.subrange(start as int, n as int),
            all_digits(d.take(i - start)),
            acc == decimal_value(d.take(i - start)),
            acc <= u32::MAX,
        decreases n - i,
    {
        let c = s[i];
        assert(d[i - start] == c);
        if !('0' <= c && c <= '9') {
            assert(!is_digit(d[i - start]));
            assert(!all_digits(d));
            return None;
        }
        let dv = (c as u32 - '0' as u32) as u64;
        assert(dv == digit_value(c));
        assert(d.take(i - start + 1).drop_last() =~= d.take(i - start));
        assert(d.take(i - start + 1).last() == c);
        let next = acc * 10 + dv;
        assert(all_digits(d.take(i - start + 1))) by {
            let t = d.take(i - start + 1);
            assert forall|k: int| 0 <= k < t.len() implies is_digit(#[trigger] t[k]) by {
                if k < i - start {
                    assert(t[k] == d.take(i - start)[k]);
                }
            }
        }
        assert(next == decimal_value(d.take(i - start + 1)));
        if next > 0xffff_ffff {
            proof {
                if all_digits(d) {
                    lemma_decimal_value_grows(d, i - start + 1);
                    assert(decimal_value(d) > u32::MAX);
                }
            }
            return None;
        }
        acc = next;
        i = i + 1;
    }
    assert(d.take(n - start) =~= d);
    Some(acc as u32)
}

/// Parses the string slice `s` as `str::parse::<u32>` does.
pub fn parse_u32(s: &str) -> (r: Option<u32>)
    ensures
        r == parse_u32_spec(s@),
{
    let v = chars_of(s);
    parse_u32_chars(&v)
}

/// The character of the digit `d`.
pub open spec fn digit_char(d: nat) -> char {
    (('0' as u32) + d) as char
}

/// The base-10 digits of `n`, without leading zeros, as `Display` writes an
/// unsigned integer.
pub open spec fn decimal_string(n: nat) -> Seq<char>
    decreases n,
{
    if n < 10 {
        seq![digit_char(n)]
    } else {
        decimal_string(n / 10).push(digit_char(n % 10))
    }
}

/// Appends the base-10 digits of `n` to `out`.
pub fn push_decimal(out: &mut String, n: u64)
    ensures
        final(out)@ == old(out)@ + decimal_string(n as nat),
    decreases n,
{
    if n >= 10 {
        push_decimal(out, n / 10);
    }
    let d = (n % 10) as u32;
    let c = char_of_digit(d);
    out.push(c);
    proof {
        if n >= 10 {
            assert(decimal_string(n as nat) == decimal_string((n / 10) as nat).push(
                digit_char((n % 10) as nat),
            ));
        }
    }
}

fn char_of_digit(d: u32) -> (c: char)
    requires
        d < 10,
    ensures
        c == digit_char(d as nat),
{
    if d == 0 {
        '0'
    } else if d == 1 {
        '1'
    } else if d == 2 {
        '2'
    } else if d == 3 {
        '3'
    } else if d == 4 {
        '4'
    } else if d == 5 {
        '5'
    } else if d == 6 {
        '6'
    } else if d == 7 {
        '7'
    } else if d == 8 {
        '8'
    } else {
        '9'
    }
}

/// The base-10 digits of `n`, as `n.to_string()` gives them.
pub fn decimal_text(n: u64) -> (s: String)
    ensures
        s@ == decimal_string(n as nat),
{
    let mut s = String::new();
    push_decimal(&mut s, n);
    assert(s@ =~= decimal_string(n as nat));
    s
}

// ---------------------------------------------------------------------
// Searching
// ---------------------------------------------------------------------

/// Whether `needle` occurs in `hay` as a contiguous run, as `str::contains`
/// with a string pattern asks.
pub open spec fn contains_run(hay: Seq<char>, needle: Seq<char>) -> bool {
    exists|i: int|
        0 <= i && i + needle.len() <= hay.len() && #[trigger] hay.subrange(i, i + needle.len())
            == needle
}

fn matches_at(hay: &Vec<char>, needle: &Vec<char>, i: usize) -> (r: bool)
    requires
        i + needle.len() <= hay.len(),
    ensures
        r == (hay@.subrange(i as int, i + needle.len()) == needle@),
{
    let mut k: usize = 0;
    while k < needle.len()
        invariant
            i + needle.len() <= hay.len(),
            k <= needle.len(),
            forall|j: int| 0 <= j < k ==> hay@[i + j] == needle@[j],
        decreases needle.len() - k,
    {
        if hay[i + k] != needle[k] {
            assert(hay@.subrange(i as int, i + needle.len())[k as int] != needle@[k as int]);
            return false;
        }
        k = k + 1;
    }
    assert(hay@.subrange(i as int, i + needle.len()) =~= needle@);
    true
}

/// Whether `needle` occurs in `hay`.
pub fn contains_chars(hay: &Vec<char>, needle: &Vec<char>) -> (r: bool)
    ensures
        r == contains_run(hay@, needle@),
{
    if needle.len() == 0 {
        assert(hay@.subrange(0, 0 + needle@.len() as int) =~= needle@);
        return true;
    }
    if needle.len() > hay.len() {
        return false;
    }
    let last = hay.len() - needle.len();
    let mut i: usize = 0;
    while i <= last
        invariant
            last + needle.len() == hay.len(),
            needle.len() >= 1,
            i <= last + 1,
            forall|j: int|
                0 <= j < i ==> #[trigger] hay@.subrange(j, j + needle.len()) != needle@,
        decreases last + 1 - i,
    {
        if matches_at(hay, needle, i) {
            return true;
        }
        i = i + 1;
    }
    false
}

// ---------------------------------------------------------------------
// UTF-8 byte positions
// ---------------------------------------------------------------------

/// The number of bytes that UTF-8 takes for `c`.
pub open spec fn utf8_width(c: char) -> nat {
    let u = c as u32;
    if u < 0x80 {
        1
    } else if u < 0x800 {
        2
    } else if u < 0x10000 {
        3
    } else {
        4
    }
}

/// The number of bytes that UTF-8 takes for `s`, as `str::len` counts them.
pub open spec fn utf8_len(s: Seq<char>) -> nat
    decreases s.len(),
{
    if s.len() == 0 {
        0
    } else {
        utf8_len(s.drop_first()) + utf8_width(s[0])
    }
}

/// `o` with `k` added to the number it holds.
pub open spec fn shift(o: Option<nat>, k: nat) -> Option<nat> {
    match o {
        Some(m) => Some(m + k),
        None => None,
    }
}

/// How many leading characters of `s` take exactly `n` bytes, when some do:
/// `None` when byte `n` is past the end of `s` or falls inside a character.
/// `str::get(..n)` gives those characters exactly when this is `Some`.
pub open spec fn byte_prefix_len(s: Seq<char>, n: nat) -> Option<nat>
    decreases s.len(),
{
    if n == 0 {
        Some(0)
    } else if s.len() == 0 || utf8_width(s[0]) > n {
        None
    } else {
        shift(byte_prefix_len(s.drop_first(), (n - utf8_width(s[0])) as nat), 1)
    }
}

/// How many trailing characters of `s` take exactly `n` bytes, when some do.
pub open spec fn byte_suffix_len(s: Seq<char>, n: nat) -> Option<nat>
    decreases s.len(),
{
    if n == 0 {
        Some(0)
    } else if s.len() == 0 || utf8_width(s.last()) > n {
        None
    } else {
        shift(byte_suffix_len(s.drop_last(), (n - utf8_width(s.last())) as nat), 1)
    }
}

/// The view of an optional `usize` as an optional natural number.
pub open spec fn opt_nat(o: Option<usize>) -> Option<nat> {
    match o {
        Some(k) => Some(k as nat),
        None => None,
    }
}

/// The number of bytes that UTF-8 takes for `c`.
pub fn utf8_width_of(c: char) -> (w: usize)
    ensures
        w == utf8_width(c),
{
    let u = c as u32;
    if u < 0x80 {
        1
    } else if u < 0x800 {
        2
    } else if u < 0x10000 {
        3
    } else {
        4
    }
}

proof fn lemma_byte_prefix_len_bound(s: Seq<char>, n: nat)
    ensures
        byte_prefix_len(s, n) matches Some(k) ==> k <= s.len(),
    decreases s.len(),
{
    if n != 0 && s.len() != 0 && utf8_width(s[0]) <= n {
        lemma_byte_prefix_len_bound(s.drop_first(), (n - utf8_width(s[0])) as nat);
    }
}

proof fn lemma_byte_suffix_len_bound(s: Seq<char>, n: nat)
    ensures
        byte_suffix_len(s, n) matches Some(k) ==> k <= s.len(),
    decreases s.len(),
{
    if n != 0 && s.len() != 0 && utf8_width(s.last()) <= n {
        lemma_byte_suffix_len_bound(s.drop_last(), (n - utf8_width(s.last())) as nat);
    }
}

/// The first `n` bytes of text whose first `n` characters are ASCII are
/// those `n` characters.
pub proof fn lemma_ascii_byte_prefix(s: Seq<char>, n: nat)
    requires
        n <= s.len(),
        forall|i: int| 0 <= i < n ==> (#[trigger] s[i] as u32) < 0x80,
    ensures
        byte_prefix_len(s, n) == Some(n),
    decreases n,
{
    if n > 0 {
        assert((s[0] as u32) < 0x80);
        let t = s.drop_first();
        assert forall|i: int| 0 <= i < n - 1 implies (#[trigger] t[i] as u32) < 0x80 by {
            assert(t[i] == s[i + 1]);
        }
        lemma_ascii_byte_prefix(t, (n - 1) as nat);
    }
}

/// How many leading characters of `v` take exactly `n` bytes, if any do.
pub fn byte_prefix_count(v: &Vec<char>, n: usize) -> (r: Option<usize>)
    ensures
        opt_nat(r) == byte_prefix_len(v@, n as nat),
        r matches Some(k) ==> k <= v.len(),
{
    let mut i: usize = 0;
    let mut rem: usize = n;
    assert(v@.skip(0) =~= v@);
    while rem > 0
        invariant
            i <= v.len(),
            byte_prefix_len(v@, n as nat) == shift(byte_prefix_len(v@.skip(i as int), rem as nat), i as nat),
        decreases v.len() - i,
    {
        if i >= v.len() {
            return None;
        }
        let w = utf8_width_of(v[i]);
        assert(v@.skip(i as int)[0] == v@[i as int]);
        if w > rem {
            return None;
        }
        assert(v@.skip(i as int).drop_first() =~= v@.skip(i + 1));
        rem = rem - w;
        i = i + 1;
    }
    Some(i)
}

/// How many trailing characters of `v` take exactly `n` bytes, if any do.
pub fn byte_suffix_count(v: &Vec<char>, n: usize) -> (r: Option<usize>)
    ensures
        opt_nat(r) == byte_suffix_len(v@, n as nat),
        r matches Some(k) ==> k <= v.len(),
{
    let mut i: usize = 0;
    let mut rem: usize = n;
    assert(v@.take(v@.len() as int) =~= v@);
    while rem > 0
        invariant
            i <= v.len(),
            byte_suffix_len(v@, n as nat) == shift(
                byte_suffix_len(v@.take(v.len() - i), rem as nat),
                i as nat,
            ),
        decreases v.len() - i,
    {
        if i >= v.len() {
            return None;
        }
        let c = v[v.len() - 1 - i];
        let w = utf8_width_of(c);
        assert(v@.take(v.len() - i).last() == c);
        if w > rem {
            return None;
        }
        assert(v@.take(v.len() - i).drop_last() =~= v@.take(v.len() - (i + 1)));
        rem = rem - w;
        i = i + 1;
    }
    Some(i)
}

/// Whether `v` takes at least `n` bytes in UTF-8.
pub fn utf8_len_at_least(v: &Vec<char>, n: usize) -> (r: bool)
    ensures
        r == (utf8_len(v@) >= n),
{
    if n == 0 {
        return true;
    }
    let mut i: usize = v.len();
    let mut acc: usize = 0;
    assert(v@.skip(v@.len() as int) =~= Seq::<char>::empty());
    while i > 0
        invariant
            i <= v.len(),
            acc == utf8_len(v@.skip(i as int)),
            acc < n,
        decreases i,
    {
        let w = utf8_width_of(v[i - 1]);
        assert(v@.skip(i - 1).drop_first() =~= v@.skip(i as int));
        if w >= n - acc {
            proof {
                lemma_utf8_len_skip_le(v@, i - 1);
            }
            return true;
        }
        acc = acc + w;
        i = i - 1;
    }
    assert(v@.skip(0) =~= v@);
    false
}

proof fn lemma_utf8_len_skip_le(s: Seq<char>, i: int)
    requires
        0 <= i <= s.len(),
    ensures
        utf8_len(s.skip(i)) <= utf8_len(s),
    decreases i,
{
    if i > 0 {
        lemma_utf8_len_skip_le(s.drop_first(), i - 1);
        assert(s.drop_first().skip(i - 1) =~= s.skip(i));
    } else {
        assert(s.skip(0) =~= s);
    }
}

/// Whether the two string slices hold the same characters.
pub fn same_text(a: &str, b: &str) -> (r: bool)
    ensures
        r == (a@ == b@),
{
    let x = chars_of(a);
    let y = chars_of(b);
    if x.len() != y.len() {
        return false;
    }
    let mut i: usize = 0;
    while i < x.len()
        invariant
            x.len() == y.len(),
            x@ == a@,
            y@ == b@,
            i <= x.len(),
            forall|j: int| 0 <= j < i ==> x@[j] == y@[j],
        decreases x.len() - i,
    {
        if x[i] != y[i] {
            return false;
        }
        i = i + 1;
    }
    assert(x@ =~= y@);
    true
}

/// The digits of a number are ASCII digits, there is at least one, and they
/// read back as the number.
pub proof fn lemma_decimal_string_reads_back(n: nat)
    ensures
        decimal_string(n).len() > 0,
        all_digits(decimal_string(n)),
        decimal_value(decimal_string(n)) == n,
    decreases n,
{
    if n >= 10 {
        lemma_decimal_string_reads_back(n / 10);
        let p = decimal_string(n / 10);
        let s = decimal_string(n);
        assert(s == p.push(digit_char(n % 10)));
        assert(s.drop_last() =~= p);
        assert(digit_value(digit_char(n % 10)) == n % 10);
        assert(n == (n / 10) * 10 + n % 10);
        assert(decimal_value(s) == decimal_value(s.drop_last()) * 10 + digit_value(s.last()));
        assert forall|i: int| 0 <= i < s.len() implies is_digit(#[trigger] s[i]) by {
            if i < p.len() {
                assert(s[i] == p[i]);
            }
        }
    } else {
        let s = decimal_string(n);
        assert(s.drop_last() =~= Seq::<char>::empty());
        assert(digit_value(digit_char(n)) == n);
        assert(decimal_value(s.drop_last()) == 0);
        assert(decimal_value(s) == decimal_value(s.drop_last()) * 10 + digit_value(s.last()));
    }
}

/// Text that neither starts nor ends with white space is its own trim.
pub proof fn lemma_trim_unchanged(s: Seq<char>)
    requires
        s.len() > 0,
        !is_white_space(s[0]),
        !is_white_space(s.last()),
    ensures
        trim(s) == s,
{
}

} // verus!
