//! Text helpers: searching, trimming, splitting and number formatting over
//! sequences of characters.

use vstd::prelude::*;
use vstd::string::*;

verus! {

/// `String::push` of the standard library: appends one character.
pub assume_specification[ String::push ](s: &mut String, c: char)
    ensures
        final(s)@ == old(s)@.push(c),
;

/// The lowercase form that `str::to_lowercase` of the standard library gives.
pub uninterp spec fn lowercase(s: Seq<char>) -> Seq<char>;

/// `str::to_lowercase` of the standard library: the result depends on the
/// text alone and is named [`lowercase`].
pub assume_specification[ str::to_lowercase ](s: &str) -> (r: String)
    ensures
        r@ == lowercase(s@),
;

/// The uppercase form that `str::to_uppercase` of the standard library gives.
pub uninterp spec fn uppercase(s: Seq<char>) -> Seq<char>;

/// `str::to_uppercase` of the standard library: the result depends on the
/// text alone and is named [`uppercase`].
pub assume_specification[ str::to_uppercase ](s: &str) -> (r: String)
    ensures
        r@ == uppercase(s@),
;

/// The characters of `s`, one by one.
pub fn chars_of(s: &str) -> (v: Vec<char>)
    ensures
        v@ == s@,
{
    let mut v: Vec<char> = Vec::new();
    for c in it: s.chars()
        invariant
            it.seq() == s@,
            v@ == s@.take(it.index()),
    {
        v.push(c);
    }
    v
}

/// A string of the characters `v[from..to]`.
pub fn string_of(v: &Vec<char>, from: usize, to: usize) -> (s: String)
    requires
        from <= to <= v.len(),
    ensures
        s@ == v@.subrange(from as int, to as int),
{
    let mut s = String::new();
    let mut i: usize = from;
    while i < to
        invariant
            from <= i <= to <= v.len(),
            s@ == v@.subrange(from as int, i as int),
        decreases to - i,
    {
        s.push(v[i]);
        i += 1;
    }
    s
}

/// `a` followed by `b`.
pub fn join(a: &str, b: &str) -> (s: String)
    ensures
        s@ == a@ + b@,
{
    let mut s = String::from_str(a);
    s.append(b);
    s
}

// ---------------------------------------------------------------------------
// Searching
// ---------------------------------------------------------------------------

/// `needle` stands in `hay` at position `i`.
pub open spec fn occurs_at(hay: Seq<char>, needle: Seq<char>, i: int) -> bool {
    &&& 0 <= i
    &&& i + needle.len() <= hay.len()
    &&& hay.subrange(i, i + needle.len()) == needle
}

/// `needle` stands somewhere in `hay`.
pub open spec fn has(hay: Seq<char>, needle: Seq<char>) -> bool {
    exists|i: int| occurs_at(hay, needle, i)
}

fn occurs_here(hay: &Vec<char>, needle: &Vec<char>, i: usize) -> (r: bool)
    requires
        i + needle.len() <= hay.len(),
    ensures
        r == occurs_at(hay@, needle@, i as int),
{
    let mut k: usize = 0;
    while k < needle.len()
        invariant
            i + needle.len() <= hay.len(),
            k <= needle.len(),
            forall|j: int| 0 <= j < k ==> hay@[i + j] == needle@[j],
        decreases needle.len() - k,
    {
        if hay[i + k] != needle[k] {
            assert(hay@.subrange(i as int, i + needle@.len())[k as int] != needle@[k as int]);
            return false;
        }
        k += 1;
    }
    assert(hay@.subrange(i as int, i + needle@.len()) =~= needle@);
    true
}

/// Whether `needle` stands somewhere in `hay`.
pub fn contains(hay: &str, needle: &str) -> (r: bool)
    ensures
        r == has(hay@, needle@),
{
    let h = chars_of(hay);
    let n = chars_of(needle);
    if n.len() > h.len() {
        return false;
    }
    let last = h.len() - n.len();
    let mut i: usize = 0;
    while i <= last
        invariant
            h@ == hay@,
            n@ == needle@,
            last == h.len() - n.len(),
            i <= last + 1,
            forall|j: int| 0 <= j < i ==> !occurs_at(h@, n@, j),
        decreases last + 1 - i,
    {
        if occurs_here(&h, &n, i) {
            return true;
        }
        if i == last {
            return false;
        }
        i += 1;
    }
    false
}

// ---------------------------------------------------------------------------
// Trimming
// ---------------------------------------------------------------------------

/// A set of characters that trimming takes off both ends of a text.
#[derive(Clone, Copy, Debug, PartialEq, Eq, Structural)]
pub enum TrimSet {
    /// Characters with the Unicode property White_Space.
    Whitespace,
    /// Double quotes, commas and spaces.
    Quotes,
    /// Curly braces.
    Braces,
}

impl TrimSet {
    /// `c` belongs to the set.
    pub open spec fn has_char(self, c: char) -> bool {
        let u = c as u32;
        match self {
            TrimSet::Whitespace => {
                ||| 0x9 <= u <= 0xD
                ||| u == 0x20
                ||| u == 0x85
                ||| u == 0xA0
                ||| u == 0x1680
                ||| 0x2000 <= u <= 0x200A
                ||| u == 0x2028
                ||| u == 0x2029
                ||| u == 0x202F
                ||| u == 0x205F
                ||| u == 0x3000
            },
            TrimSet::Quotes => c == '"' || c == ',' || c == ' ',
            TrimSet::Braces => c == '{' || c == '}',
        }
    }

    /// Whether `c` belongs to the set.
    pub fn includes(&self, c: char) -> (r: bool)
        ensures
            r == self.has_char(c),
    {
        let u = c as u32;
        match self {
            TrimSet::Whitespace => (0x9 <= u && u <= 0xD) || u == 0x20 || u == 0x85 || u == 0xA0
                || u == 0x1680 || (0x2000 <= u && u <= 0x200A) || u == 0x2028 || u == 0x2029
                || u == 0x202F || u == 0x205F || u == 0x3000,
            TrimSet::Quotes => c == '"' || c == ',' || c == ' ',
            TrimSet::Braces => c == '{' || c == '}',
        }
    }
}

/// `s` without the leading characters of `set`.
pub open spec fn trim_start(s: Seq<char>, set: TrimSet) -> Seq<char>
    decreases s.len(),
{
    if s.len() > 0 && set.has_char(s[0]) {
        trim_start(s.drop_first(), set)
    } else {
        s
    }
}

/// `s` without the trailing characters of `set`.
pub open spec fn trim_end(s: Seq<char>, set: TrimSet) -> Seq<char>
    decreases s.len(),
{
    if s.len() > 0 && set.has_char(s.last()) {
        trim_end(s.drop_last(), set)
    } else {
        s
    }
}

/// `s` without the characters of `set` at either end.
pub open spec fn trimmed(s: Seq<char>, set: TrimSet) -> Seq<char> {
    trim_end(trim_start(s, set), set)
}

/// The bounds of what is left of `v[from..to]` after trimming.
pub fn trim_range(v: &Vec<char>, from: usize, to: usize, set: TrimSet) -> (r: (usize, usize))
    requires
        from <= to <= v.len(),
    ensures
        from <= r.0 <= r.1 <= to,
        v@.subrange(r.0 as int, r.1 as int) == trimmed(
            v@.subrange(from as int, to as int),
            set,
        ),
{
    let mut a: usize = from;
    while a < to && set.includes(v[a])
        invariant
            from <= a <= to <= v.len(),
            trim_start(v@.subrange(a as int, to as int), set) == trim_start(
                v@.subrange(from as int, to as int),
                set,
            ),
        decreases to - a,
    {
        assert(v@.subrange(a as int, to as int).drop_first() =~= v@.subrange(a + 1, to as int));
        a += 1;
    }
    let ghost left = v@.subrange(a as int, to as int);
    let mut b: usize = to;
    while a < b && set.includes(v[b - 1])
        invariant
            from <= a <= b <= to <= v.len(),
            left == v@.subrange(a as int, to as int),
            trim_end(v@.subrange(a as int, b as int), set) == trim_end(left, set),
        decreases b - a,
    {
        assert(v@.subrange(a as int, b as int).drop_last() =~= v@.subrange(a as int, b - 1));
        b -= 1;
    }
    (a, b)
}

// ---------------------------------------------------------------------------
// Splitting
// ---------------------------------------------------------------------------

/// The position of the first `c` in `s`, or the length of `s` if there is none.
pub open spec fn position(s: Seq<char>, c: char) -> int
    decreases s.len(),
{
    if s.len() == 0 || s[0] == c {
        0
    } else {
        1 + position(s.drop_first(), c)
    }
}

/// What [`position`] gives is the first place of `c`, and no earlier one.
pub proof fn lemma_position(s: Seq<char>, c: char)
    ensures
        0 <= position(s, c) <= s.len(),
        position(s, c) < s.len() ==> s[position(s, c)] == c,
        forall|i: int| 0 <= i < position(s, c) ==> s[i] != c,
    decreases s.len(),
{
    if s.len() > 0 && s[0] != c {
        let t = s.drop_first();
        lemma_position(t, c);
        assert forall|i: int| 0 <= i < position(s, c) implies s[i] != c by {
            if i > 0 {
                assert(t[i - 1] == s[i]);
            }
        }
    }
}

/// A place of `c` with none before it is what [`position`] gives.
pub proof fn lemma_position_is(s: Seq<char>, c: char, k: int)
    requires
        0 <= k <= s.len(),
        k < s.len() ==> s[k] == c,
        forall|i: int| 0 <= i < k ==> s[i] != c,
    ensures
        position(s, c) == k,
{
    lemma_position(s, c);
    let p = position(s, c);
    if p < k {
        assert(s[p] != c);
    } else if k < p {
        assert(s[k] != c);
    }
}

/// The position of the first `c` in `v[from..]`, or the length of `v`.
pub fn find_from(v: &Vec<char>, from: usize, c: char) -> (r: usize)
    requires
        from <= v.len(),
    ensures
        from <= r <= v.len(),
        r - from == position(v@.skip(from as int), c),
{
    let mut i: usize = from;
    while i < v.len() && v[i] != c
        invariant
            from <= i <= v.len(),
            forall|j: int| from <= j < i ==> v@[j] != c,
        decreases v.len() - i,
    {
        i += 1;
    }
    proof {
        let t = v@.skip(from as int);
        assert forall|j: int| 0 <= j < i - from implies t[j] != c by {
            assert(t[j] == v@[from + j]);
        }
        lemma_position_is(t, c, i - from);
    }
    i
}

/// The parts of `s` between the separators `c`.
pub open spec fn split(s: Seq<char>, c: char) -> Seq<Seq<char>>
    decreases s.len(),
{
    let p = position(s, c);
    if 0 <= p < s.len() {
        seq![s.take(p)] + split(s.skip(p + 1), c)
    } else {
        seq![s]
    }
}

/// The parts of `v[from..to]` between the separators `c`.
pub fn split_chars(v: &Vec<char>, from: usize, to: usize, c: char) -> (r: Vec<Vec<char>>)
    requires
        from <= to <= v.len(),
    ensures
        r@.map_values(|p: Vec<char>| p@) == split(v@.subrange(from as int, to as int), c),
{
    let mut r: Vec<Vec<char>> = Vec::new();
    let mut part: Vec<char> = Vec::new();
    let mut i: usize = from;
    let ghost all = split(v@.subrange(from as int, to as int), c);
    let ghost mut start = from as int;
    assert(r@.map_values(|p: Vec<char>| p@) =~= Seq::empty());
    assert(Seq::<Seq<char>>::empty() + all =~= all);
    while i < to
        invariant
            from <= start <= i <= to <= v.len(),
            part@ == v@.subrange(start, i as int),
            forall|j: int| start <= j < i ==> v@[j] != c,
            r@.map_values(|p: Vec<char>| p@) + split(v@.subrange(start, to as int), c) == all,
        decreases to - i,
    {
        if v[i] == c {
            let ghost before = r@.map_values(|p: Vec<char>| p@);
            let ghost rest = v@.subrange(start, to as int);
            let ghost whole = part@;
            proof {
                lemma_position_is(rest, c, i - start);
                assert(rest.take(i - start) =~= whole);
                assert(rest.skip(i - start + 1) =~= v@.subrange(i + 1, to as int));
            }
            r.push(part);
            part = Vec::new();
            assert(r@.map_values(|p: Vec<char>| p@) =~= before.push(whole));
            proof {
                start = i + 1;
                assert(before.push(whole) + split(v@.subrange(start, to as int), c) =~= before
                    + split(rest, c));
            }
        } else {
            part.push(v[i]);
        }
        i += 1;
        assert(part@ =~= v@.subrange(start, i as int));
    }
    let ghost before = r@.map_values(|p: Vec<char>| p@);
    let ghost last = part@;
    proof {
        lemma_position_is(last, c, last.len() as int);
    }
    r.push(part);
    assert(r@.map_values(|p: Vec<char>| p@) =~= before + seq![last]);
    r
}

/// `s` without one carriage return at its end.
pub open spec fn strip_cr(s: Seq<char>) -> Seq<char> {
    if s.len() > 0 && s.last() == '\r' {
        s.drop_last()
    } else {
        s
    }
}

/// The lines of `s`. A line ends at a line feed, of which a carriage return
/// before it is a part; the last line needs no end.
pub open spec fn lines(s: Seq<char>) -> Seq<Seq<char>>
    decreases s.len(),
{
    let p = position(s, '\n');
    if s.len() == 0 {
        Seq::empty()
    } else if 0 <= p < s.len() {
        seq![strip_cr(s.take(p))] + lines(s.skip(p + 1))
    } else {
        seq![s]
    }
}

// ---------------------------------------------------------------------------
// Numbers
// ---------------------------------------------------------------------------

/// The digit of value `d`, for `d` below sixteen.
pub open spec fn digit_char(d: int) -> char {
    if d < 10 {
        (0x30 + d) as char
    } else {
        (0x37 + d) as char
    }
}

/// `n` in decimal digits.
pub open spec fn decimal(n: nat) -> Seq<char>
    decreases n,
{
    if n < 10 {
        seq![digit_char(n as int)]
    } else {
        decimal(n / 10).push(digit_char((n % 10) as int))
    }
}

/// `n` in decimal digits, after a minus sign if it is negative.
pub open spec fn signed_decimal(n: int) -> Seq<char> {
    if n < 0 {
        seq!['-'] + decimal((-n) as nat)
    } else {
        decimal(n as nat)
    }
}

/// `n` in uppercase hexadecimal digits.
pub open spec fn hex(n: nat) -> Seq<char>
    decreases n,
{
    if n < 16 {
        seq![digit_char(n as int)]
    } else {
        hex(n / 16).push(digit_char((n % 16) as int))
    }
}

/// `n` in uppercase hexadecimal digits, with zeros in front up to four digits.
pub open spec fn hex4(n: nat) -> Seq<char> {
    let d = hex(n);
    if d.len() < 4 {
        Seq::new((4 - d.len()) as nat, |i: int| '0') + d
    } else {
        d
    }
}

/// The value of a hexadecimal digit.
pub open spec fn digit_value(c: char) -> Option<int> {
    let u = c as int;
    if 0x30 <= u <= 0x39 {
        Some(u - 0x30)
    } else if 0x41 <= u <= 0x46 {
        Some(u - 0x37)
    } else if 0x61 <= u <= 0x66 {
        Some(u - 0x57)
    } else {
        None
    }
}

/// The value of hexadecimal digits; none if another character is among them.
pub open spec fn digits_value(s: Seq<char>) -> Option<int>
    decreases s.len(),
{
    if s.len() == 0 {
        Some(0)
    } else {
        match (digits_value(s.drop_last()), digit_value(s.last())) {
            (Some(n), Some(d)) => Some(16 * n + d),
            _ => None,
        }
    }
}

/// `s` without one plus sign at its start.
pub open spec fn strip_plus(s: Seq<char>) -> Seq<char> {
    if s.len() > 0 && s[0] == '+' {
        s.skip(1)
    } else {
        s
    }
}

/// The number below `bound` that `s` writes in hexadecimal digits, of which
/// there is at least one; a plus sign may stand before them.
pub open spec fn hex_number(s: Seq<char>, bound: int) -> Option<int> {
    let d = strip_plus(s);
    match digits_value(d) {
        Some(n) => if d.len() > 0 && n < bound {
            Some(n)
        } else {
            None
        },
        None => None,
    }
}

proof fn lemma_digits_grow(s: Seq<char>, k: int)
    requires
        0 <= k <= s.len(),
    ensures
        digits_value(s) matches Some(n) ==> (digits_value(s.take(k)) matches Some(m) && 0 <= m
            <= n),
    decreases s.len(),
{
    if k < s.len() {
        lemma_digits_grow(s.drop_last(), k);
        assert(s.drop_last().take(k) =~= s.take(k));
    } else {
        assert(s.take(k) =~= s);
        if s.len() > 0 {
            lemma_digits_grow(s.drop_last(), s.len() - 1);
        }
    }
}

fn read_digit(c: char) -> (r: Option<u64>)
    ensures
        match digit_value(c) {
            Some(d) => r == Some(d as u64) && 0 <= d < 16,
            None => r is None,
        },
{
    let u = c as u32;
    if 0x30 <= u && u <= 0x39 {
        Some((u - 0x30) as u64)
    } else if 0x41 <= u && u <= 0x46 {
        Some((u - 0x37) as u64)
    } else if 0x61 <= u && u <= 0x66 {
        Some((u - 0x57) as u64)
    } else {
        None
    }
}

/// Reads the number below `bound` that `v[from..to]` writes in hexadecimal
/// digits; see [`hex_number`].
pub fn read_hex(v: &Vec<char>, from: usize, to: usize, bound: u64) -> (r: Option<u64>)
    requires
        from <= to <= v.len(),
        bound <= 0x1_0000_0000,
    ensures
        match hex_number(v@.subrange(from as int, to as int), bound as int) {
            Some(n) => r == Some(n as u64) && 0 <= n < bound,
            None => r is None,
        },
{
    let ghost all = v@.subrange(from as int, to as int);
    let start: usize = if from < to && v[from] == '+' {
        from + 1
    } else {
        from
    };
    let ghost d = strip_plus(all);
    assert(d =~= v@.subrange(start as int, to as int));
    if start == to {
        return None;
    }
    let mut n: u64 = 0;
    let mut i: usize = start;
    assert(d.take(0) =~= Seq::empty());
    while i < to
        invariant
            from <= start <= i <= to <= v.len(),
            start < to,
            d == v@.subrange(start as int, to as int),
            d == strip_plus(v@.subrange(from as int, to as int)),
            bound <= 0x1_0000_0000,
            n < bound || i == start && n == 0,
            digits_value(d.take(i - start)) == Some(n as int),
        decreases to - i,
    {
        let ghost k = i - start;
        assert(d.take(k + 1).drop_last() =~= d.take(k));
        assert(d.take(k + 1).last() == v@[i as int]);
        proof {
            lemma_digits_grow(d, k + 1);
        }
        match read_digit(v[i]) {
            None => {
                return None;
            },
            Some(x) => {
                n = 16 * n + x;
            },
        }
        if n >= bound {
            return None;
        }
        i += 1;
    }
    assert(d.take(to - start) =~= d);
    Some(n)
}

fn digit(d: u8) -> (c: char)
    requires
        d < 16,
    ensures
        c == digit_char(d as int),
{
    if d < 10 {
        (0x30 + d) as char
    } else {
        (0x37 + d) as char
    }
}

/// Appends `n` in decimal digits.
pub fn push_decimal(s: &mut String, n: u64)
    ensures
        final(s)@ == old(s)@ + decimal(n as nat),
    decreases n,
{
    if n >= 10 {
        push_decimal(s, n / 10);
    }
    s.push(digit((n % 10) as u8));
}

/// Appends `n` in decimal digits, after a minus sign if it is negative.
pub fn push_signed(s: &mut String, n: i32)
    ensures
        final(s)@ == old(s)@ + signed_decimal(n as int),
{
    if n < 0 {
        s.push('-');
        push_decimal(s, (-(n as i64)) as u64);
    } else {
        push_decimal(s, n as u64);
    }
}

fn hex_digits(n: u32) -> (v: Vec<char>)
    ensures
        v@ == hex(n as nat),
    decreases n,
{
    let mut v: Vec<char> = if n >= 16 {
        hex_digits(n / 16)
    } else {
        Vec::new()
    };
    v.push(digit((n % 16) as u8));
    v
}

/// Appends `n` in uppercase hexadecimal digits, at least four of them.
pub fn push_hex4(s: &mut String, n: u32)
    ensures
        final(s)@ == old(s)@ + hex4(n as nat),
{
    let d = hex_digits(n);
    let ghost before = s@;
    let mut k: usize = d.len();
    while k < 4
        invariant
            d.len() <= k,
            d.len() < 4 ==> k <= 4,
            d.len() >= 4 ==> k == d.len(),
            s@ == before + Seq::new((k - d.len()) as nat, |i: int| '0'),
        decreases 4 - k,
    {
        s.push('0');
        k += 1;
    }
    let digits = string_of(&d, 0, d.len());
    s.append(digits.as_str());
}

// ---------------------------------------------------------------------------
// Laws
// ---------------------------------------------------------------------------

/// A text is found wherever it stands, and found only where every character of it
/// stands in a row.
pub proof fn law_search(a: Seq<char>, needle: Seq<char>, b: Seq<char>, hay: Seq<char>)
    ensures
        has(a + needle + b, needle),
        has(hay, needle) <==> exists|i: int|
            0 <= i <= hay.len() - needle.len() && #[trigger] hay.subrange(i, i + needle.len())
                == needle,
{
    let whole = a + needle + b;
    let i = a.len() as int;
    assert(whole.subrange(i, i + needle.len()) =~= needle);
    assert(occurs_at(whole, needle, i));
    if exists|i: int|
        0 <= i <= hay.len() - needle.len() && #[trigger] hay.subrange(i, i + needle.len())
            == needle {
        let i = choose|i: int|
            0 <= i <= hay.len() - needle.len() && #[trigger] hay.subrange(i, i + needle.len())
                == needle;
        assert(occurs_at(hay, needle, i));
    }
    if has(hay, needle) {
        let i = choose|i: int| occurs_at(hay, needle, i);
        assert(hay.subrange(i, i + needle.len()) == needle);
    }
}

/// The characters of the smaller sets.
pub proof fn law_trim_sets(c: char)
    ensures
        TrimSet::Quotes.has_char(c) <==> c == '"' || c == ',' || c == ' ',
        TrimSet::Braces.has_char(c) <==> c == '{' || c == '}',
        (c as u32) < 0x80 ==> (TrimSet::Whitespace.has_char(c) <==> c == ' ' || 9 <= c as u32 <= 13),
{
}

/// Trimming takes off characters of the set alone, from both ends and as many as
/// there are.
pub proof fn law_trimmed(s: Seq<char>, set: TrimSet)
    ensures
        exists|a: int, b: int|
            {
                &&& 0 <= a <= b <= s.len()
                &&& trimmed(s, set) == #[trigger] s.subrange(a, b)
                &&& forall|i: int| 0 <= i < a ==> set.has_char(#[trigger] s[i])
                &&& forall|i: int| b <= i < s.len() ==> set.has_char(#[trigger] s[i])
            },
        trimmed(s, set).len() > 0 ==> !set.has_char(trimmed(s, set)[0]) && !set.has_char(
            trimmed(s, set).last(),
        ),
{
    let a = lemma_trim_start(s, set);
    let t = trim_start(s, set);
    let n = lemma_trim_end(t, set);
    let b = a + n;
    assert(t.take(n) =~= s.subrange(a, b));
    assert forall|i: int| b <= i < s.len() implies set.has_char(#[trigger] s[i]) by {
        assert(t[i - a] == s[i]);
    }
    if n > 0 {
        assert(trimmed(s, set)[0] == t[0]);
    }
}

proof fn lemma_trim_start(s: Seq<char>, set: TrimSet) -> (a: int)
    ensures
        0 <= a <= s.len(),
        trim_start(s, set) == s.skip(a),
        forall|i: int| 0 <= i < a ==> set.has_char(#[trigger] s[i]),
        a < s.len() ==> !set.has_char(s[a]),
    decreases s.len(),
{
    if s.len() > 0 && set.has_char(s[0]) {
        let t = s.drop_first();
        let a = lemma_trim_start(t, set);
        assert(t.skip(a) =~= s.skip(a + 1));
        assert forall|i: int| 0 <= i < a + 1 implies set.has_char(#[trigger] s[i]) by {
            if i > 0 {
                assert(t[i - 1] == s[i]);
            }
        }
        if a < t.len() {
            assert(t[a] == s[a + 1]);
        }
        a + 1
    } else {
        assert(s.skip(0) =~= s);
        0
    }
}

proof fn lemma_trim_end(s: Seq<char>, set: TrimSet) -> (n: int)
    ensures
        0 <= n <= s.len(),
        trim_end(s, set) == s.take(n),
        forall|i: int| n <= i < s.len() ==> set.has_char(#[trigger] s[i]),
        n > 0 ==> !set.has_char(s[n - 1]),
    decreases s.len(),
{
    if s.len() > 0 && set.has_char(s.last()) {
        let t = s.drop_last();
        let n = lemma_trim_end(t, set);
        assert(t.take(n) =~= s.take(n));
        assert forall|i: int| n <= i < s.len() implies set.has_char(#[trigger] s[i]) by {
            if i < t.len() {
                assert(t[i] == s[i]);
            }
        }
        n
    } else {
        assert(s.take(s.len() as int) =~= s);
        s.len() as int
    }
}

/// The texts with a separator between each two of them.
pub open spec fn joined(parts: Seq<Seq<char>>, c: char) -> Seq<char>
    decreases parts.len(),
{
    if parts.len() == 0 {
        Seq::empty()
    } else if parts.len() == 1 {
        parts[0]
    } else {
        parts[0] + seq![c] + joined(parts.skip(1), c)
    }
}

/// The parts of a text hold no separator and, put together with separators, give
/// the text back.
pub proof fn law_split(s: Seq<char>, c: char)
    ensures
        split(s, c).len() > 0,
        joined(split(s, c), c) == s,
        forall|i: int| 0 <= i < split(s, c).len() ==> !(#[trigger] split(s, c)[i]).contains(c),
    decreases s.len(),
{
    lemma_position(s, c);
    let p = position(s, c);
    let parts = split(s, c);
    if p < s.len() {
        let rest = s.skip(p + 1);
        law_split(rest, c);
        assert(parts.skip(1) =~= split(rest, c));
        assert(s =~= s.take(p) + seq![c] + rest);
        assert forall|i: int| 0 <= i < parts.len() implies !(#[trigger] parts[i]).contains(c) by {
            if i > 0 {
                assert(parts[i] == split(rest, c)[i - 1]);
            }
        }
    }
}

/// A line ends at a line feed, with or without a carriage return before it, and is
/// followed by the lines of the rest; the last line needs no end, and nothing has
/// no lines.
pub proof fn law_lines(line: Seq<char>, rest: Seq<char>)
    requires
        !line.contains('\n'),
    ensures
        lines(Seq::<char>::empty()).len() == 0,
        line.len() > 0 ==> lines(line) == seq![line],
        lines(line + seq!['\r', '\n'] + rest) == seq![line] + lines(rest),
        line.len() == 0 || line.last() != '\r' ==> lines(line + seq!['\n'] + rest) == seq![line]
            + lines(rest),
{
    let n = line.len() as int;
    assert forall|i: int| 0 <= i < n implies line[i] != '\n' by {
        assert(line.contains(line[i]));
    }
    lemma_position_is(line, '\n', n);
    let a = line + seq!['\r', '\n'] + rest;
    lemma_position_is(a, '\n', n + 1);
    assert(a.take(n + 1) =~= line.push('\r'));
    assert(line.push('\r').drop_last() =~= line);
    assert(a.skip(n + 2) =~= rest);
    let b = line + seq!['\n'] + rest;
    lemma_position_is(b, '\n', n);
    assert(b.take(n) =~= line);
    assert(b.skip(n + 1) =~= rest);
}

/// The number that decimal digits write.
pub open spec fn decimal_value(s: Seq<char>) -> int
    decreases s.len(),
{
    if s.len() == 0 {
        0
    } else {
        10 * decimal_value(s.drop_last()) + (s.last() as int - 0x30)
    }
}

/// Decimal digits write the number, without zeros in front; a negative number has
/// a minus sign before the digits of its amount.
pub proof fn law_decimal(n: nat)
    ensures
        decimal_value(decimal(n)) == n,
        decimal(n).len() > 0,
        forall|i: int| 0 <= i < decimal(n).len() ==> '0' <= #[trigger] decimal(n)[i] <= '9',
        n > 0 ==> decimal(n)[0] != '0',
        n == 0 ==> decimal(n).len() == 1,
        signed_decimal(n as int) == decimal(n),
        n > 0 ==> signed_decimal(-n) == seq!['-'] + decimal(n),
    decreases n,
{
    if n >= 10 {
        law_decimal(n / 10);
        let d = decimal(n / 10);
        assert(decimal(n).drop_last() =~= d);
        assert forall|i: int| 0 <= i < decimal(n).len() implies '0' <= #[trigger] decimal(n)[i]
            <= '9' by {
            if i < d.len() {
                assert(decimal(n)[i] == d[i]);
            }
        }
        assert(decimal(n)[0] == d[0]);
    } else {
        assert(decimal(n).drop_last() =~= Seq::empty());
        reveal_with_fuel(decimal_value, 2);
    }
}

/// The value of every digit, in either case; no other character has one.
pub proof fn law_digit_values(c: char)
    ensures
        '0' <= c <= '9' ==> digit_value(c) == Some(c as int - '0' as int),
        'A' <= c <= 'F' ==> digit_value(c) == Some(10 + (c as int - 'A' as int)),
        'a' <= c <= 'f' ==> digit_value(c) == Some(10 + (c as int - 'a' as int)),
        digit_value(c) is Some ==> '0' <= c <= '9' || 'A' <= c <= 'F' || 'a' <= c <= 'f',
{
}

proof fn lemma_digits_push(s: Seq<char>, c: char)
    ensures
        digits_value(s.push(c)) == (match (digits_value(s), digit_value(c)) {
            (Some(n), Some(d)) => Some(16 * n + d),
            _ => None,
        }),
{
    assert(s.push(c).drop_last() =~= s);
}

proof fn lemma_zeros_in_front(k: nat, d: Seq<char>)
    ensures
        digits_value(Seq::new(k, |i: int| '0') + d) == digits_value(d),
    decreases k + d.len(),
{
    let z = Seq::new(k, |i: int| '0');
    if d.len() > 0 {
        lemma_zeros_in_front(k, d.drop_last());
        assert((z + d).drop_last() =~= z + d.drop_last());
    } else if k > 0 {
        let y = Seq::new((k - 1) as nat, |i: int| '0');
        lemma_zeros_in_front((k - 1) as nat, d);
        assert((z + d).drop_last() =~= y + d);
    } else {
        assert(z + d =~= d);
    }
}

/// Hexadecimal digits write the number in uppercase, and with zeros in front up to
/// four digits it is the same number.
pub proof fn law_hex(n: nat)
    ensures
        digits_value(hex(n)) == Some(n as int),
        digits_value(hex4(n)) == Some(n as int),
        hex4(n).len() >= 4,
        hex4(n).len() == 4 || hex4(n)[0] != '0',
        forall|i: int|
            0 <= i < hex(n).len() ==> '0' <= #[trigger] hex(n)[i] <= '9' || 'A' <= hex(n)[i] <= 'F',
        n > 0 ==> hex(n)[0] != '0',
        hex(n).len() > 0,
    decreases n,
{
    if n >= 16 {
        law_hex(n / 16);
        let d = hex(n / 16);
        lemma_digits_push(d, digit_char((n % 16) as int));
        assert(hex(n)[0] == d[0]);
        assert forall|i: int| 0 <= i < hex(n).len() implies '0' <= #[trigger] hex(n)[i] <= '9' || 'A'
            <= hex(n)[i] <= 'F' by {
            if i < d.len() {
                assert(hex(n)[i] == d[i]);
            }
        }
    } else {
        lemma_digits_push(Seq::empty(), digit_char(n as int));
        assert(hex(n) =~= Seq::<char>::empty().push(digit_char(n as int)));
    }
    let d = hex(n);
    if d.len() < 4 {
        lemma_zeros_in_front((4 - d.len()) as nat, d);
    }
}

/// Reading digits gives the number they write, with or without a plus sign before
/// them, if it is below the bound; no digits write nothing.
pub proof fn law_hex_number(d: Seq<char>, bound: int)
    requires
        d.len() > 0 ==> d[0] != '+',
    ensures
        hex_number(d, bound) == hex_number(seq!['+'] + d, bound),
        d.len() == 0 ==> hex_number(d, bound) is None,
        d.len() > 0 && digits_value(d) is Some && digits_value(d)->0 < bound ==> hex_number(d, bound)
            == digits_value(d),
        d.len() > 0 && digits_value(d) is Some && digits_value(d)->0 >= bound ==> hex_number(
            d,
            bound,
        ) is None,
        digits_value(d) is None ==> hex_number(d, bound) is None,
{
    assert((seq!['+'] + d).skip(1) =~= d);
}

} // verus!
