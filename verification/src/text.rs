//! Text as sequences of characters: searching, trimming, splitting, joining and
//! formatting, each with the sequence it computes.

use vstd::prelude::*;
use vstd::utf8;

verus! {

/// `String::push` puts one character at the end.
pub assume_specification[ String::push ](s: &mut String, c: char)
    ensures
        final(s)@ == old(s)@.push(c),
;

/// `String::push_str` puts a text at the end.
pub assume_specification[ String::push_str ](s: &mut String, t: &str)
    ensures
        final(s)@ == old(s)@ + t@,
;

/// The characters of a text.
pub fn to_chars(s: &str) -> (v: Vec<char>)
    ensures
        v@ == s@,
{
    let mut v: Vec<char> = Vec::new();
    for c in it: s.chars()
        invariant
            v@ == it.seq().take(it.index()),
            it.seq() == s@,
    {
        v.push(c);
        proof {
            assert(it.seq().take(it.index() + 1) == it.seq().take(it.index()).push(c));
        }
    }
    proof {
        assert(s@.take(s@.len() as int) == s@);
    }
    v
}

/// The text of the characters of `v` from position `from` up to `to`.
pub fn from_chars(v: &Vec<char>, from: usize, to: usize) -> (s: String)
    requires
        from <= to <= v@.len(),
    ensures
        s@ == v@.subrange(from as int, to as int),
{
    let mut s = String::new();
    let mut i: usize = from;
    while i < to
        invariant
            from <= i <= to <= v@.len(),
            s@ == v@.subrange(from as int, i as int),
        decreases to - i,
    {
        s.push(v[i]);
        proof {
            assert(v@.subrange(from as int, i + 1) == v@.subrange(from as int, i as int).push(
                v@[i as int],
            ));
        }
        i += 1;
    }
    s
}

/// Whether two texts are the same.
pub fn str_eq(a: &str, b: &str) -> (r: bool)
    ensures
        r == (a@ == b@),
{
    let x = a.as_bytes();
    let y = b.as_bytes();
    if x.len() != y.len() {
        return false;
    }
    let mut i: usize = 0;
    while i < x.len()
        invariant
            x@ == utf8::encode_utf8(a@),
            y@ == utf8::encode_utf8(b@),
            x@.len() == y@.len(),
            i <= x@.len(),
            forall|j: int| 0 <= j < i ==> x@[j] == y@[j],
        decreases x@.len() - i,
    {
        if x[i] != y[i] {
            return false;
        }
        i += 1;
    }
    proof {
        assert(x@ =~= y@);
        utf8::encode_utf8_decode_utf8(a@);
        utf8::encode_utf8_decode_utf8(b@);
    }
    true
}

/// A copy of a text.
pub fn copy(s: &str) -> (r: String)
    ensures
        r@ == s@,
{
    s.to_owned()
}

/// Two texts, one behind the other.
pub fn cat2(a: &str, b: &str) -> (r: String)
    ensures
        r@ == a@ + b@,
{
    let mut r = a.to_owned();
    r.push_str(b);
    r
}

/// Three texts, one behind the other.
pub fn cat3(a: &str, b: &str, c: &str) -> (r: String)
    ensures
        r@ == a@ + b@ + c@,
{
    let mut r = cat2(a, b);
    r.push_str(c);
    r
}

/// Four texts, one behind the other.
pub fn cat4(a: &str, b: &str, c: &str, d: &str) -> (r: String)
    ensures
        r@ == a@ + b@ + c@ + d@,
{
    let mut r = cat3(a, b, c);
    r.push_str(d);
    r
}

/// Five texts, one behind the other.
pub fn cat5(a: &str, b: &str, c: &str, d: &str, e: &str) -> (r: String)
    ensures
        r@ == a@ + b@ + c@ + d@ + e@,
{
    let mut r = cat4(a, b, c, d);
    r.push_str(e);
    r
}

/// Seven texts, one behind the other.
pub fn cat7(a: &str, b: &str, c: &str, d: &str, e: &str, f: &str, g: &str) -> (r: String)
    ensures
        r@ == a@ + b@ + c@ + d@ + e@ + f@ + g@,
{
    let mut r = cat5(a, b, c, d, e);
    r.push_str(f);
    r.push_str(g);
    r
}

/// Whether `needle` stands in `hay` at position `i`.
pub open spec fn occurs_at(hay: Seq<char>, needle: Seq<char>, i: int) -> bool {
    0 <= i && i + needle.len() <= hay.len() && hay.subrange(i, i + needle.len()) == needle
}

/// Whether `needle` stands somewhere in `hay`.
pub open spec fn contains_text(hay: Seq<char>, needle: Seq<char>) -> bool {
    exists|i: int| occurs_at(hay, needle, i)
}

/// Whether `i` is the first position of `hay`, from `from` on, where `needle` stands.
pub open spec fn first_at(hay: Seq<char>, needle: Seq<char>, from: int, i: int) -> bool {
    from <= i && occurs_at(hay, needle, i) && forall|j: int|
        from <= j < i ==> !occurs_at(hay, needle, j)
}

/// Whether `hay` begins with `p`.
pub open spec fn has_prefix(hay: Seq<char>, p: Seq<char>) -> bool {
    occurs_at(hay, p, 0)
}

/// A text that stands in a part of a text stands in the whole.
pub proof fn lemma_contains_in_whole(
    front: Seq<char>,
    middle: Seq<char>,
    back: Seq<char>,
    needle: Seq<char>,
)
    requires
        contains_text(middle, needle),
    ensures
        contains_text(front + middle + back, needle),
{
    let i = choose|i: int| occurs_at(middle, needle, i);
    let whole = front + middle + back;
    let j = front.len() + i;
    assert(whole.subrange(j, j + needle.len()) =~= middle.subrange(i, i + needle.len()));
    assert(occurs_at(whole, needle, j));
}

/// Whether `needle` stands in `hay` at position `i`.
fn stands_at(hay: &Vec<char>, needle: &Vec<char>, i: usize) -> (r: bool)
    requires
        i <= hay@.len(),
    ensures
        r == occurs_at(hay@, needle@, i as int),
{
    if needle.len() > hay.len() - i {
        return false;
    }
    let mut k: usize = 0;
    while k < needle.len()
        invariant
            i + needle.len() <= hay.len(),
            k <= needle@.len(),
            forall|j: int| 0 <= j < k ==> hay@[i + j] == needle@[j],
        decreases needle@.len() - k,
    {
        if hay[i + k] != needle[k] {
            proof {
                assert(hay@.subrange(i as int, i + needle@.len())[k as int] != needle@[k as int]);
            }
            return false;
        }
        k += 1;
    }
    proof {
        assert(hay@.subrange(i as int, i + needle@.len()) =~= needle@);
    }
    true
}

/// The first position, from `from` on, where `needle` stands in `hay`.
pub fn find_from(hay: &Vec<char>, needle: &Vec<char>, from: usize) -> (r: Option<usize>)
    requires
        from <= hay@.len(),
    ensures
        match r {
            Some(i) => first_at(hay@, needle@, from as int, i as int),
            None => forall|j: int| from <= j ==> !occurs_at(hay@, needle@, j),
        },
{
    let mut i: usize = from;
    loop
        invariant
            from <= i <= hay@.len(),
            forall|j: int| from <= j < i ==> !occurs_at(hay@, needle@, j),
        decreases hay@.len() - i,
    {
        if stands_at(hay, needle, i) {
            return Some(i);
        }
        if i == hay.len() {
            return None;
        }
        i += 1;
    }
}

/// Whether `needle` stands somewhere in `hay`.
pub fn contains(hay: &str, needle: &str) -> (r: bool)
    ensures
        r == contains_text(hay@, needle@),
{
    let h = to_chars(hay);
    let n = to_chars(needle);
    let found = find_from(&h, &n, 0);
    proof {
        if contains_text(hay@, needle@) {
            let i = choose|i: int| occurs_at(hay@, needle@, i);
            assert(occurs_at(h@, n@, i));
        }
    }
    found.is_some()
}

/// Whether `s` begins with `p`.
pub fn starts_with(s: &str, p: &str) -> (r: bool)
    ensures
        r == has_prefix(s@, p@),
{
    let h = to_chars(s);
    let n = to_chars(p);
    stands_at(&h, &n, 0)
}

/// What is left of `s` behind the prefix `p`, if it begins with it.
pub fn strip_prefix(s: &str, p: &str) -> (r: Option<String>)
    ensures
        r is Some == has_prefix(s@, p@),
        r is Some ==> r->0@ == s@.skip(p@.len() as int),
{
    let h = to_chars(s);
    let n = to_chars(p);
    if stands_at(&h, &n, 0) {
        let rest = from_chars(&h, n.len(), h.len());
        proof {
            assert(h@.subrange(n@.len() as int, h@.len() as int) =~= s@.skip(p@.len() as int));
        }
        Some(rest)
    } else {
        None
    }
}

/// The characters that count as white space: those with the Unicode property White_Space.
pub open spec fn white_space(c: char) -> bool {
    let n = c as u32;
    ||| 0x9 <= n <= 0xd
    ||| n == 0x20
    ||| n == 0x85
    ||| n == 0xa0
    ||| n == 0x1680
    ||| 0x2000 <= n <= 0x200a
    ||| n == 0x2028
    ||| n == 0x2029
    ||| n == 0x202f
    ||| n == 0x205f
    ||| n == 0x3000
}

/// Whether a character counts as white space.
pub fn is_white_space(c: char) -> (r: bool)
    ensures
        r == white_space(c),
{
    let n: u32 = c as u32;
    (0x9 <= n && n <= 0xd) || n == 0x20 || n == 0x85 || n == 0xa0 || n == 0x1680 || (0x2000 <= n
        && n <= 0x200a) || n == 0x2028 || n == 0x2029 || n == 0x202f || n == 0x205f || n == 0x3000
}

/// A text without the white space in front.
pub open spec fn trim_start(s: Seq<char>) -> Seq<char>
    decreases s.len(),
{
    if s.len() > 0 && white_space(s[0]) {
        trim_start(s.drop_first())
    } else {
        s
    }
}

/// A text without the white space at its end.
pub open spec fn trim_end(s: Seq<char>) -> Seq<char>
    decreases s.len(),
{
    if s.len() > 0 && white_space(s.last()) {
        trim_end(s.drop_last())
    } else {
        s
    }
}

/// A text without the white space at either end.
pub open spec fn trimmed(s: Seq<char>) -> Seq<char> {
    trim_end(trim_start(s))
}

/// A text without the white space at either end.
pub fn trim(s: &str) -> (r: String)
    ensures
        r@ == trimmed(s@),
{
    let v = to_chars(s);
    let mut a: usize = 0;
    proof {
        assert(v@.skip(0) =~= v@);
    }
    while a < v.len() && is_white_space(v[a])
        invariant
            a <= v@.len(),
            trim_start(v@.skip(a as int)) == trim_start(v@),
        decreases v@.len() - a,
    {
        proof {
            assert(v@.skip(a as int).drop_first() =~= v@.skip(a + 1));
        }
        a += 1;
    }
    let mut b: usize = v.len();
    proof {
        assert(trim_start(v@) == v@.skip(a as int));
        assert(v@.skip(a as int) =~= v@.subrange(a as int, b as int));
    }
    while b > a && is_white_space(v[b - 1])
        invariant
            a <= b <= v@.len(),
            trim_end(v@.subrange(a as int, b as int)) == trimmed(v@),
        decreases b,
    {
        proof {
            assert(v@.subrange(a as int, b as int).drop_last() =~= v@.subrange(a as int, b - 1));
        }
        b -= 1;
    }
    from_chars(&v, a, b)
}

/// A text without the characters `c` at its end.
pub open spec fn trim_end_of(s: Seq<char>, c: char) -> Seq<char>
    decreases s.len(),
{
    if s.len() > 0 && s.last() == c {
        trim_end_of(s.drop_last(), c)
    } else {
        s
    }
}

/// What trimming leaves is the front of the text, and does not end in what is trimmed.
pub proof fn lemma_trim_end_of(s: Seq<char>, c: char)
    ensures
        trim_end_of(s, c).len() <= s.len(),
        trim_end_of(s, c) == s.take(trim_end_of(s, c).len() as int),
        trim_end_of(s, c).len() > 0 ==> trim_end_of(s, c).last() != c,
    decreases s.len(),
{
    if s.len() > 0 && s.last() == c {
        lemma_trim_end_of(s.drop_last(), c);
        let n = trim_end_of(s, c).len() as int;
        assert(s.drop_last().take(n) =~= s.take(n));
    } else {
        assert(s.take(s.len() as int) =~= s);
    }
}

/// The text of `v` without the characters `c` at its end.
pub fn trim_end_matches(v: &Vec<char>, c: char) -> (r: String)
    ensures
        r@ == trim_end_of(v@, c),
{
    let mut b: usize = v.len();
    proof {
        assert(v@.subrange(0, b as int) =~= v@);
    }
    while b > 0 && v[b - 1] == c
        invariant
            b <= v@.len(),
            trim_end_of(v@.subrange(0, b as int), c) == trim_end_of(v@, c),
        decreases b,
    {
        proof {
            assert(v@.subrange(0, b as int).drop_last() =~= v@.subrange(0, b - 1));
        }
        b -= 1;
    }
    from_chars(v, 0, b)
}

/// A line as it stands in front of a newline: without the carriage return at its end.
pub open spec fn without_cr(s: Seq<char>) -> Seq<char> {
    if s.len() > 0 && s.last() == '\r' {
        s.drop_last()
    } else {
        s
    }
}

/// The position of the first `c` in a text; its length, where there is none.
pub open spec fn char_at(s: Seq<char>, c: char) -> nat
    decreases s.len(),
{
    if s.len() == 0 || s[0] == c {
        0
    } else {
        1 + char_at(s.drop_first(), c)
    }
}

/// The position of the first `c` is the one with no `c` in front of it.
pub proof fn lemma_char_at(s: Seq<char>, c: char, i: int)
    requires
        0 <= i <= s.len(),
        i < s.len() ==> s[i] == c,
        forall|j: int| 0 <= j < i ==> s[j] != c,
    ensures
        char_at(s, c) == i,
    decreases s.len(),
{
    if i > 0 {
        lemma_char_at(s.drop_first(), c, i - 1);
    }
}

/// The lines of a text. A newline ends a line, and so does a carriage return followed by
/// a newline; the last line need not be ended.
pub open spec fn lines_of(s: Seq<char>) -> Seq<Seq<char>>
    decreases s.len(),
{
    if s.len() == 0 {
        Seq::empty()
    } else {
        let i = char_at(s, '\n') as int;
        if i < s.len() {
            seq![without_cr(s.take(i))] + lines_of(s.skip(i + 1))
        } else {
            seq![s]
        }
    }
}

/// The text of a string that may be missing.
pub open spec fn opt_text(s: Option<String>) -> Option<Seq<char>> {
    match s {
        Some(t) => Some(t@),
        None => None,
    }
}

/// The texts of a sequence of strings.
pub open spec fn texts(v: Seq<String>) -> Seq<Seq<char>> {
    Seq::new(v.len(), |i: int| v[i]@)
}

/// One string more is one text more.
pub proof fn lemma_texts_push(v: Seq<String>, s: String)
    ensures
        texts(v.push(s)) == texts(v).push(s@),
{
    assert(texts(v.push(s)) =~= texts(v).push(s@));
}

/// The lines of a text.
pub fn lines(s: &str) -> (r: Vec<String>)
    ensures
        texts(r@) == lines_of(s@),
{
    let v = to_chars(s);
    let mut r: Vec<String> = Vec::new();
    let mut start: usize = 0;
    let mut i: usize = 0;
    proof {
        assert(v@.skip(0) =~= v@);
        assert(texts(r@) + lines_of(v@) =~= lines_of(v@));
    }
    while i < v.len()
        invariant
            start <= i <= v@.len(),
            texts(r@) + lines_of(v@.skip(start as int)) == lines_of(v@),
            forall|j: int| start <= j < i ==> v@[j] != '\n',
        decreases v@.len() - i,
    {
        if v[i] == '\n' {
            let end: usize = if i > start && v[i - 1] == '\r' {
                i - 1
            } else {
                i
            };
            let line = from_chars(&v, start, end);
            let ghost rest = v@.skip(start as int);
            let ghost before = r@;
            proof {
                lemma_char_at(rest, '\n', i - start);
                assert(rest.take(i - start) =~= v@.subrange(start as int, i as int));
                assert(line@ =~= without_cr(rest.take(i - start)));
                assert(rest.skip(i - start + 1) =~= v@.skip(i + 1));
                lemma_texts_push(before, line);
            }
            r.push(line);
            proof {
                assert(texts(r@) + lines_of(v@.skip(i + 1)) =~= texts(before) + (seq![line@]
                    + lines_of(v@.skip(i + 1))));
            }
            start = i + 1;
        }
        i += 1;
    }
    if start < v.len() {
        let line = from_chars(&v, start, v.len());
        proof {
            let rest = v@.skip(start as int);
            assert(line@ =~= rest);
            lemma_char_at(rest, '\n', rest.len() as int);
            lemma_texts_push(r@, line);
            assert(texts(r@).push(line@) =~= texts(r@) + seq![rest]);
        }
        r.push(line);
    } else {
        proof {
            assert(v@.skip(start as int).len() == 0);
            assert(texts(r@) + lines_of(v@.skip(start as int)) =~= texts(r@));
        }
    }
    r
}

/// The texts of `parts` with `sep` between each and the next.
pub open spec fn joined(parts: Seq<Seq<char>>, sep: Seq<char>) -> Seq<char>
    decreases parts.len(),
{
    if parts.len() == 0 {
        Seq::empty()
    } else if parts.len() == 1 {
        parts[0]
    } else {
        joined(parts.drop_last(), sep) + sep + parts.last()
    }
}

/// The texts of `parts` with `sep` between each and the next.
pub fn join(parts: &Vec<String>, sep: &str) -> (r: String)
    ensures
        r@ == joined(texts(parts@), sep@),
{
    let mut r = String::new();
    let mut i: usize = 0;
    while i < parts.len()
        invariant
            i <= parts@.len(),
            r@ == joined(texts(parts@).take(i as int), sep@),
        decreases parts@.len() - i,
    {
        if i > 0 {
            r.push_str(sep);
        }
        r.push_str(parts[i].as_str());
        proof {
            let next = texts(parts@).take(i + 1);
            assert(next.drop_last() =~= texts(parts@).take(i as int));
            if i == 0 {
                assert(r@ =~= next[0]);
            }
        }
        i += 1;
    }
    proof {
        assert(texts(parts@).take(i as int) =~= texts(parts@));
    }
    r
}

/// The character for a decimal digit.
pub open spec fn digit(d: nat) -> char {
    (48 + d) as char
}

/// A number in decimal.
pub open spec fn decimal(n: nat) -> Seq<char>
    decreases n,
{
    if n < 10 {
        seq![digit(n)]
    } else {
        decimal(n / 10).push(digit(n % 10))
    }
}

/// A number in decimal, with a minus in front of a negative one.
pub open spec fn signed_decimal(n: int) -> Seq<char> {
    if n < 0 {
        seq!['-'] + decimal((-n) as nat)
    } else {
        decimal(n as nat)
    }
}

/// A number in decimal.
pub fn number(n: u64) -> (r: String)
    ensures
        r@ == decimal(n as nat),
    decreases n,
{
    let last: u8 = (n % 10) as u8;
    let c: char = (48 + last) as char;
    if n < 10 {
        let mut r = String::new();
        r.push(c);
        proof {
            assert(r@ =~= decimal(n as nat));
        }
        r
    } else {
        let mut r = number(n / 10);
        r.push(c);
        r
    }
}

/// A number in decimal, with a minus in front of a negative one.
pub fn signed_number(n: i64) -> (r: String)
    ensures
        r@ == signed_decimal(n as int),
{
    if n < 0 {
        let size: u64 = (-(n as i128)) as u64;
        let mut r = String::new();
        r.push('-');
        r.push_str(number(size).as_str());
        proof {
            assert(r@ =~= seq!['-'] + decimal((-n) as nat));
        }
        r
    } else {
        number(n as u64)
    }
}

/// `width` spaces.
pub open spec fn spaces(width: nat) -> Seq<char> {
    Seq::new(width, |i: int| ' ')
}

/// A text with as many spaces in front as make it `width` characters long.
pub open spec fn right_aligned(s: Seq<char>, width: nat) -> Seq<char> {
    if s.len() < width {
        spaces((width - s.len()) as nat) + s
    } else {
        s
    }
}

/// A number in decimal with as many spaces in front as make it `width` characters long.
pub fn aligned_number(n: u64, width: usize) -> (r: String)
    ensures
        r@ == right_aligned(decimal(n as nat), width as nat),
{
    let digits = to_chars(number(n).as_str());
    let mut r = String::new();
    if digits.len() < width {
        let gap: usize = width - digits.len();
        let mut i: usize = 0;
        while i < gap
            invariant
                i <= gap,
                r@ == spaces(i as nat),
            decreases gap - i,
        {
            r.push(' ');
            i += 1;
            proof {
                assert(r@ =~= spaces(i as nat));
            }
        }
    }
    r.push_str(from_chars(&digits, 0, digits.len()).as_str());
    proof {
        assert(digits@.subrange(0, digits@.len() as int) =~= digits@);
        assert(r@ =~= right_aligned(digits@, width as nat));
    }
    r
}

/// Whether a character is one of the ten decimal digits.
pub open spec fn is_digit(c: char) -> bool {
    '0' <= c <= '9'
}

/// The number that a sequence of digits writes.
pub open spec fn digits_value(s: Seq<char>) -> nat
    decreases s.len(),
{
    if s.len() == 0 {
        0
    } else {
        digits_value(s.drop_last()) * 10 + (s.last() as nat - 48) as nat
    }
}

/// A text without a plus in front.
pub open spec fn without_plus(s: Seq<char>) -> Seq<char> {
    if s.len() > 0 && s[0] == '+' {
        s.drop_first()
    } else {
        s
    }
}

/// Whether a text is made of digits alone, at least one.
pub open spec fn all_digits(s: Seq<char>) -> bool {
    s.len() > 0 && forall|i: int| 0 <= i < s.len() ==> is_digit(s[i])
}

/// The number of a text that is made of digits, with or without a plus in front, if the
/// number is at most `max`.
pub open spec fn parsed_number(s: Seq<char>, max: nat) -> Option<nat> {
    let d = without_plus(s);
    if all_digits(d) && digits_value(d) <= max {
        Some(digits_value(d))
    } else {
        None
    }
}

proof fn lemma_digits_value_grows(s: Seq<char>, i: int)
    requires
        0 <= i <= s.len(),
    ensures
        digits_value(s.take(i)) <= digits_value(s),
    decreases s.len() - i,
{
    if i < s.len() {
        let next = s.take(i + 1);
        assert(next.drop_last() =~= s.take(i));
        lemma_digits_value_grows(s, i + 1);
    } else {
        assert(s.take(i) =~= s);
    }
}

/// A number in decimal is made of digits, and they write the number.
pub proof fn lemma_decimal(n: nat)
    ensures
        all_digits(decimal(n)),
        digits_value(decimal(n)) == n,
    decreases n,
{
    if n < 10 {
        let d = decimal(n);
        assert(digits_value(d.drop_last()) == 0);
        assert(d.last() as nat == 48 + n);
    } else {
        lemma_decimal(n / 10);
        let d = decimal(n);
        assert(d.drop_last() =~= decimal(n / 10));
        assert(d.last() as nat == 48 + n % 10);
    }
}

/// Reading a number in decimal gives the number back.
pub proof fn law_decimal_is_read_back(n: nat, max: nat)
    requires
        n <= max,
    ensures
        parsed_number(decimal(n), max) == Some(n),
{
    lemma_decimal(n);
    assert(is_digit(decimal(n)[0]));
    assert(without_plus(decimal(n)) == decimal(n));
}

/// The number that a text writes in decimal, if it is one and fits.
pub fn parse_usize(s: &str) -> (r: Option<usize>)
    ensures
        match r {
            Some(n) => parsed_number(s@, usize::MAX as nat) == Some(n as nat),
            None => parsed_number(s@, usize::MAX as nat) is None,
        },
{
    let v = to_chars(s);
    let start: usize = if v.len() > 0 && v[0] == '+' {
        1
    } else {
        0
    };
    let ghost d = without_plus(s@);
    proof {
        assert(d =~= v@.skip(start as int));
    }
    if start == v.len() {
        return None;
    }
    let mut n: usize = 0;
    let mut i: usize = start;
    proof {
        assert(d.take(0).len() == 0);
    }
    while i < v.len()
        invariant
            start <= i <= v@.len(),
            start < v@.len(),
            d == v@.skip(start as int),
            v@ == s@,
            d == without_plus(s@),
            n == digits_value(d.take(i - start)),
            forall|j: int| 0 <= j < i - start ==> is_digit(d[j]),
        decreases v@.len() - i,
    {
        let c = v[i];
        proof {
            assert(d[i - start] == c);
            assert(d.take(i - start + 1).drop_last() =~= d.take(i - start));
            assert(d.take(i - start + 1).last() == c);
            lemma_digits_value_grows(d, i - start + 1);
        }
        if c < '0' || c > '9' {
            proof {
                assert(!is_digit(d[i - start]));
            }
            return None;
        }
        let digit: usize = (c as u32 - 48) as usize;
        let wide: u128 = n as u128 * 10 + digit as u128;
        if wide > usize::MAX as u128 {
            return None;
        }
        n = wide as usize;
        i += 1;
    }
    proof {
        assert(d.take(i - start) =~= d);
    }
    Some(n)
}

/// A text with `rep` in place of every `find`, taken from the front without overlap.
pub open spec fn replaced(s: Seq<char>, find: Seq<char>, rep: Seq<char>) -> Seq<char>
    decreases s.len(),
{
    if s.len() == 0 || find.len() == 0 {
        s
    } else if has_prefix(s, find) {
        rep + replaced(s.skip(find.len() as int), find, rep)
    } else {
        seq![s[0]] + replaced(s.drop_first(), find, rep)
    }
}

/// A text with `rep` in place of every `find`, taken from the front without overlap.
pub fn replace(s: &str, find: &str, rep: &str) -> (r: String)
    requires
        find@.len() > 0,
    ensures
        r@ == replaced(s@, find@, rep@),
{
    let v = to_chars(s);
    let f = to_chars(find);
    let mut r = String::new();
    let mut i: usize = 0;
    proof {
        assert(v@.skip(0) =~= v@);
        assert(r@ + replaced(v@, f@, rep@) =~= replaced(v@, f@, rep@));
    }
    while i < v.len()
        invariant
            i <= v@.len(),
            f@.len() > 0,
            r@ + replaced(v@.skip(i as int), f@, rep@) == replaced(v@, f@, rep@),
        decreases v@.len() - i,
    {
        let ghost rest = v@.skip(i as int);
        let ghost before = r@;
        let here = stands_at(&v, &f, i);
        proof {
            assert(occurs_at(rest, f@, 0) == occurs_at(v@, f@, i as int)) by {
                if i + f@.len() <= v@.len() {
                    assert(rest.subrange(0, f@.len() as int) =~= v@.subrange(
                        i as int,
                        i + f@.len(),
                    ));
                }
            }
        }
        if here {
            r.push_str(rep);
            proof {
                assert(rest.skip(f@.len() as int) =~= v@.skip(i + f@.len()));
                assert(r@ + replaced(v@.skip(i + f@.len()), f@, rep@) =~= before + (rep@ + replaced(
                    v@.skip(i + f@.len()),
                    f@,
                    rep@,
                )));
            }
            i += f.len();
        } else {
            r.push(v[i]);
            proof {
                assert(rest.drop_first() =~= v@.skip(i + 1));
                assert(r@ + replaced(v@.skip(i + 1), f@, rep@) =~= before + (seq![rest[0]]
                    + replaced(v@.skip(i + 1), f@, rep@)));
            }
            i += 1;
        }
    }
    proof {
        assert(v@.skip(i as int).len() == 0);
        assert(r@ + replaced(v@.skip(i as int), f@, rep@) =~= r@);
    }
    r
}

/// The number of bytes of a text in UTF-8.
pub open spec fn byte_len(s: Seq<char>) -> nat {
    utf8::encode_utf8(s).len()
}

/// The number of bytes of a text in UTF-8.
pub fn bytes(s: &str) -> (n: usize)
    ensures
        n == byte_len(s@),
{
    s.as_bytes().len()
}

/// The first `n` bytes of a text, where they end at a character's end.
pub open spec fn byte_prefix(s: Seq<char>, n: nat) -> Seq<char> {
    utf8::decode_utf8(utf8::encode_utf8(s).subrange(0, n as int))
}

/// Whether a text is at most `n` bytes long or has a character's end at byte `n`.
pub open spec fn can_cut(s: Seq<char>, n: nat) -> bool {
    byte_len(s) > n ==> utf8::is_char_boundary(utf8::encode_utf8(s), n as int)
}

/// Whether a text is at most `n` bytes long or has a character's end at byte `n`.
pub fn is_cuttable(s: &str, n: usize) -> (r: bool)
    ensures
        r == can_cut(s@, n as nat),
{
    bytes(s) <= n || s.is_char_boundary(n)
}

/// A text cut to its first `n` bytes, with `mark` behind it; the text itself, where it is
/// no longer than that.
pub open spec fn clipped(s: Seq<char>, n: nat, mark: Seq<char>) -> Seq<char> {
    if byte_len(s) > n {
        byte_prefix(s, n) + mark
    } else {
        s
    }
}

/// A text cut to its first `n` bytes, with `mark` behind it; the text itself, where it is
/// no longer than that.
pub fn clip(s: &str, n: usize, mark: &str) -> (r: String)
    requires
        can_cut(s@, n as nat),
    ensures
        r@ == clipped(s@, n as nat, mark@),
{
    if bytes(s) > n {
        let (front, _) = s.split_at(n);
        proof {
            utf8::encode_utf8_decode_utf8(front@);
        }
        cat2(front, mark)
    } else {
        s.to_owned()
    }
}

/// The longest beginning of a text that is at most `n` bytes long.
pub open spec fn fitting(s: Seq<char>, n: nat) -> Seq<char>
    decreases s.len(),
{
    if s.len() == 0 || byte_len(s) <= n {
        s
    } else {
        fitting(s.drop_last(), n)
    }
}

/// A text cut to the longest beginning that is at most `n` bytes long, with `mark` behind it;
/// the text itself, where it is no longer than that.
pub open spec fn cut(s: Seq<char>, n: nat, mark: Seq<char>) -> Seq<char> {
    if byte_len(s) > n {
        fitting(s, n) + mark
    } else {
        s
    }
}

/// Two texts together are as long as both.
pub proof fn lemma_bytes_add(a: Seq<char>, b: Seq<char>)
    ensures
        utf8::encode_utf8(a + b) == utf8::encode_utf8(a) + utf8::encode_utf8(b),
        byte_len(a + b) == byte_len(a) + byte_len(b),
    decreases a.len(),
{
    if a.len() == 0 {
        assert(a + b =~= b);
        assert(utf8::encode_utf8(a) + utf8::encode_utf8(b) =~= utf8::encode_utf8(b));
    } else {
        lemma_bytes_add(a.drop_first(), b);
        assert((a + b).drop_first() =~= a.drop_first() + b);
        assert(utf8::encode_utf8(a + b) =~= utf8::encode_utf8(a) + utf8::encode_utf8(b));
    }
}

proof fn lemma_fitting(s: Seq<char>, n: nat, k: int)
    requires
        0 <= k <= s.len(),
        byte_len(s.take(k)) <= n,
        k < s.len() ==> byte_len(s.take(k + 1)) > n,
    ensures
        fitting(s, n) == s.take(k),
    decreases s.len(),
{
    if k == s.len() {
        assert(s.take(k) =~= s);
    } else {
        assert(s =~= s.take(k + 1) + s.skip(k + 1));
        lemma_bytes_add(s.take(k + 1), s.skip(k + 1));
        let front = s.drop_last();
        assert(front.take(k) =~= s.take(k));
        if k < front.len() {
            assert(front.take(k + 1) =~= s.take(k + 1));
        }
        lemma_fitting(front, n, k);
    }
}

/// What fits is a beginning of the text and no longer than it may be, and one character more
/// would be too long.
pub proof fn law_fitting_is_the_longest_beginning(s: Seq<char>, n: nat)
    ensures
        has_prefix(s, fitting(s, n)),
        byte_len(fitting(s, n)) <= n,
        fitting(s, n).len() < s.len() ==> byte_len(s.take(fitting(s, n).len() as int + 1)) > n,
    decreases s.len(),
{
    if s.len() == 0 || byte_len(s) <= n {
        assert(s.subrange(0, s.len() as int) =~= s);
    } else {
        let front = s.drop_last();
        law_fitting_is_the_longest_beginning(front, n);
        let f = fitting(front, n);
        assert(front.subrange(0, f.len() as int) =~= s.subrange(0, f.len() as int));
        if f.len() < front.len() {
            assert(front.take(f.len() as int + 1) =~= s.take(f.len() as int + 1));
        } else {
            assert(s.take(f.len() as int + 1) =~= s);
        }
    }
}

/// A text cut to the longest beginning that is at most `n` bytes long, with `mark` behind it;
/// the text itself, where it is no longer than that.
pub fn cut_to(s: &str, n: usize, mark: &str) -> (r: String)
    ensures
        r@ == cut(s@, n as nat, mark@),
{
    if bytes(s) <= n {
        return copy(s);
    }
    let v = to_chars(s);
    let mut out = String::new();
    let mut i: usize = 0;
    proof {
        assert(v@.take(0) =~= Seq::empty());
        assert(utf8::encode_utf8(v@.take(0)).len() == 0);
        assert(out@ =~= v@.take(0));
    }
    while i < v.len()
        invariant
            i <= v@.len(),
            v@ == s@,
            out@ == v@.take(i as int),
            byte_len(out@) <= n,
            byte_len(s@) > n,
        decreases v@.len() - i,
    {
        let mut one = String::new();
        one.push(v[i]);
        proof {
            assert(one@ =~= seq![v@[i as int]]);
            assert(v@.take(i + 1) =~= v@.take(i as int) + one@);
            lemma_bytes_add(v@.take(i as int), one@);
        }
        if bytes(one.as_str()) > n - bytes(out.as_str()) {
            proof {
                lemma_fitting(s@, n as nat, i as int);
            }
            return cat2(out.as_str(), mark);
        }
        out.push(v[i]);
        proof {
            assert(out@ =~= v@.take(i + 1));
        }
        i += 1;
    }
    proof {
        assert(v@.take(i as int) =~= s@);
    }
    out
}

/// A text has at least as many bytes as characters.
pub proof fn lemma_bytes_at_least(s: Seq<char>)
    ensures
        byte_len(s) >= s.len(),
    decreases s.len(),
{
    if s.len() > 0 {
        lemma_bytes_at_least(s.drop_first());
        utf8::char_is_scalar(s[0]);
        assert(utf8::encode_scalar(s[0] as u32).len() >= 1);
    }
}

/// An ASCII character is one byte.
pub proof fn lemma_ascii_is_one_byte(c: char)
    requires
        c <= '\x7f',
    ensures
        byte_len(seq![c]) == 1,
{
    let s = seq![c];
    assert(s.drop_first() =~= Seq::empty());
    assert(utf8::encode_utf8(s.drop_first()).len() == 0);
    assert(utf8::encode_scalar(c as u32).len() == 1);
}

/// A number by which texts can be told apart: it comes from the length and from five characters.
pub open spec fn shape(s: Seq<char>) -> int {
    s.len() as int + 1_000 * (s[0] as int) + 1_000_000 * (s[(s.len() * 4 / 7) as int] as int)
        + 1_000_000_000 * (s[s.len() - 1] as int) + 1_000_000_000_000 * (s[(s.len()
        / 2) as int] as int) + 1_000_000_000_000_000 * (s[(s.len() * 3 / 4) as int] as int)
}

/// A text stands in another where that one is something in front of it, the text, and something
/// behind it.
pub proof fn law_contained_is_in_the_middle(hay: Seq<char>, needle: Seq<char>)
    ensures
        contains_text(hay, needle) <==> exists|front: Seq<char>, back: Seq<char>|
            hay == #[trigger] (front + needle + back),
        has_prefix(hay, needle) <==> exists|back: Seq<char>| hay == #[trigger] (needle + back),
{
    if contains_text(hay, needle) {
        let i = choose|i: int| occurs_at(hay, needle, i);
        let back = hay.skip(i + needle.len());
        assert(hay =~= hay.take(i) + needle + back) by {
            assert forall|j: int| i <= j < i + needle.len() implies hay[j] == needle[j - i] by {
                assert(hay.subrange(i, i + needle.len())[j - i] == needle[j - i]);
            }
        }
    }
    if exists|front: Seq<char>, back: Seq<char>| hay == #[trigger] (front + needle + back) {
        let (front, back) = choose|front: Seq<char>, back: Seq<char>|
            hay == #[trigger] (front + needle + back);
        let i = front.len() as int;
        assert(hay.subrange(i, i + needle.len()) =~= needle);
        assert(occurs_at(hay, needle, i));
    }
    if has_prefix(hay, needle) {
        let back = hay.skip(needle.len() as int);
        assert(hay =~= needle + back) by {
            assert forall|j: int| 0 <= j < needle.len() implies hay[j] == needle[j] by {
                assert(hay.subrange(0, needle.len() as int)[j] == needle[j]);
            }
        }
    }
    if exists|back: Seq<char>| hay == #[trigger] (needle + back) {
        assert(hay.subrange(0, needle.len() as int) =~= needle);
    }
}

/// Trimming takes away the white space at both ends and nothing else.
pub proof fn law_trimmed_is_the_middle(s: Seq<char>)
    ensures
        exists|i: int, j: int|
            0 <= i <= j <= s.len() && trimmed(s) == #[trigger] s.subrange(i, j) && (forall|k: int|
                0 <= k < i || j <= k < s.len() ==> white_space(#[trigger] s[k])) && (i < j
                ==> !white_space(s[i]) && !white_space(s[j - 1])),
{
    let (i, t) = lemma_trim_start_skips(s);
    let j = lemma_trim_end_takes(t);
    assert(trimmed(s) =~= s.subrange(i, i + j));
    assert forall|k: int| 0 <= k < i || i + j <= k < s.len() implies white_space(
        #[trigger] s[k],
    ) by {
        if k >= i + j {
            assert(t[k - i] == s[k]);
        }
    }
    if 0 < j {
        assert(t[0] == s[i]);
        assert(t[j - 1] == s[i + j - 1]);
        if white_space(s[i]) {
            assert(white_space(t[0]));
        }
    }
}

proof fn lemma_trim_start_skips(s: Seq<char>) -> (r: (int, Seq<char>))
    ensures
        0 <= r.0 <= s.len(),
        r.1 == s.skip(r.0),
        trim_start(s) == r.1,
        forall|k: int| 0 <= k < r.0 ==> white_space(#[trigger] s[k]),
        r.1.len() > 0 ==> !white_space(r.1[0]),
    decreases s.len(),
{
    if s.len() > 0 && white_space(s[0]) {
        let (i, t) = lemma_trim_start_skips(s.drop_first());
        assert(s.skip(i + 1) =~= t);
        assert forall|k: int| 0 <= k < i + 1 implies white_space(#[trigger] s[k]) by {
            if k > 0 {
                assert(s.drop_first()[k - 1] == s[k]);
            }
        }
        (i + 1, t)
    } else {
        assert(s.skip(0) =~= s);
        (0, s)
    }
}

proof fn lemma_trim_end_takes(s: Seq<char>) -> (j: int)
    ensures
        0 <= j <= s.len(),
        trim_end(s) == s.take(j),
        forall|k: int| j <= k < s.len() ==> white_space(#[trigger] s[k]),
        j > 0 ==> !white_space(s[j - 1]),
    decreases s.len(),
{
    if s.len() > 0 && white_space(s.last()) {
        let j = lemma_trim_end_takes(s.drop_last());
        assert(s.drop_last().take(j) =~= s.take(j));
        assert forall|k: int| j <= k < s.len() implies white_space(#[trigger] s[k]) by {
            if k < s.len() - 1 {
                assert(s.drop_last()[k] == s[k]);
            }
        }
        j
    } else {
        assert(s.take(s.len() as int) =~= s);
        s.len() as int
    }
}

/// A newline ends a line, with or without a carriage return in front of it, and the rest of the
/// text is made of further lines; a text without a newline is one line.
pub proof fn law_newlines_end_lines(line: Seq<char>, rest: Seq<char>)
    requires
        forall|i: int| 0 <= i < line.len() ==> (#[trigger] line[i]) != '\n',
    ensures
        (line.len() == 0 || line.last() != '\r') ==> lines_of(line + seq!['\n'] + rest) == seq![
            line,
        ] + lines_of(rest),
        lines_of(line + seq!['\r', '\n'] + rest) == seq![line] + lines_of(rest),
        line.len() > 0 ==> lines_of(line) == seq![line],
        lines_of(Seq::empty()) == Seq::<Seq<char>>::empty(),
{
    let plain = line + seq!['\n'] + rest;
    lemma_char_at(plain, '\n', line.len() as int);
    assert(plain.take(line.len() as int) =~= line);
    assert(plain.skip(line.len() as int + 1) =~= rest);
    let with_cr = line + seq!['\r', '\n'] + rest;
    let n = line.len() as int + 1;
    lemma_char_at(with_cr, '\n', n);
    assert(with_cr.take(n) =~= line.push('\r'));
    assert(line.push('\r').drop_last() =~= line);
    assert(with_cr.skip(n + 1) =~= rest);
    if line.len() > 0 {
        lemma_char_at(line, '\n', line.len() as int);
    }
}

/// Texts are joined one behind the other, with the separator between each and the next.
pub proof fn law_joined_has_separators_between(
    parts: Seq<Seq<char>>,
    one: Seq<char>,
    sep: Seq<char>,
)
    ensures
        joined(Seq::empty(), sep) == Seq::<char>::empty(),
        joined(seq![one], sep) == one,
        parts.len() > 0 ==> joined(parts.push(one), sep) == joined(parts, sep) + sep + one,
{
    assert(parts.push(one).drop_last() =~= parts);
}

/// What is looked for is replaced where it first stands, and the same is done behind it.
pub proof fn law_replaced_from_the_front(
    front: Seq<char>,
    find: Seq<char>,
    back: Seq<char>,
    rep: Seq<char>,
)
    requires
        find.len() > 0,
        forall|i: int| 0 <= i < front.len() ==> !#[trigger] occurs_at(front + find + back, find, i),
    ensures
        replaced(front + find + back, find, rep) == front + rep + replaced(back, find, rep),
    decreases front.len(),
{
    let whole = front + find + back;
    let then = replaced(back, find, rep);
    if front.len() == 0 {
        assert(whole =~= find + back);
        assert(whole.subrange(0, find.len() as int) =~= find);
        assert(occurs_at(whole, find, 0));
        assert(whole.skip(find.len() as int) =~= back);
        assert(front + rep + then =~= rep + then);
    } else {
        assert(!occurs_at(whole, find, 0));
        let rest = front.drop_first();
        let tail = rest + find + back;
        assert(whole.drop_first() =~= tail);
        assert forall|i: int| 0 <= i < rest.len() implies !#[trigger] occurs_at(
            tail,
            find,
            i,
        ) by {
            assert(!occurs_at(whole, find, i + 1));
            if i + find.len() <= tail.len() {
                assert(tail.subrange(i, i + find.len()) =~= whole.subrange(
                    i + 1,
                    i + 1 + find.len(),
                ));
            }
        }
        law_replaced_from_the_front(rest, find, back, rep);
        assert(front =~= seq![whole[0]] + rest);
        assert(front + rep + then =~= seq![whole[0]] + (rest + rep + then));
    }
}

/// A text in which there is nothing to replace is left as it is.
pub proof fn law_nothing_to_replace(s: Seq<char>, find: Seq<char>, rep: Seq<char>)
    requires
        find.len() > 0,
        !contains_text(s, find),
    ensures
        replaced(s, find, rep) == s,
    decreases s.len(),
{
    if s.len() > 0 {
        assert(!occurs_at(s, find, 0));
        let rest = s.drop_first();
        assert(!contains_text(rest, find)) by {
            if contains_text(rest, find) {
                let i = choose|i: int| occurs_at(rest, find, i);
                assert(s.subrange(i + 1, i + 1 + find.len()) =~= rest.subrange(i, i + find.len()));
                assert(occurs_at(s, find, i + 1));
            }
        }
        law_nothing_to_replace(rest, find, rep);
        assert(seq![s[0]] + rest =~= s);
    }
}

/// A text that is put to the right has nothing but spaces in front of it, and as many as it takes.
pub proof fn law_right_aligned_has_spaces_in_front(s: Seq<char>, width: nat)
    ensures
        right_aligned(s, width).len() == if s.len() < width {
            width
        } else {
            s.len()
        },
        exists|n: nat| right_aligned(s, width) == #[trigger] spaces(n) + s,
        forall|n: nat, i: int| 0 <= i < n ==> (#[trigger] spaces(n)[i]) == ' ',
{
    if s.len() >= width {
        assert(spaces(0) + s =~= s);
    }
}

/// A text that is cut is its first bytes with the mark behind them; one that is short enough is
/// left as it is.
pub proof fn law_clipped_is_a_beginning(s: Seq<char>, n: nat, mark: Seq<char>)
    requires
        can_cut(s, n),
    ensures
        byte_len(s) <= n ==> clipped(s, n, mark) == s,
        byte_len(s) > n ==> exists|front: Seq<char>, back: Seq<char>|
            s == #[trigger] (front + back) && byte_len(front) == n && clipped(s, n, mark) == front
                + mark,
{
    if byte_len(s) > n {
        let bytes = utf8::encode_utf8(s);
        utf8::encode_utf8_valid_utf8(s);
        utf8::encode_utf8_decode_utf8(s);
        let a = bytes.subrange(0, n as int);
        let b = bytes.subrange(n as int, bytes.len() as int);
        utf8::valid_utf8_split(bytes, n as int);
        utf8::decode_utf8_split(bytes, n as int);
        utf8::decode_utf8_encode_utf8(a);
        let front = utf8::decode_utf8(a);
        let back = utf8::decode_utf8(b);
        assert(s == front + back);
        assert(byte_len(front) == n);
    }
}

/// A text can be cut at a number of bytes if and only if it is no longer than that or some
/// beginning of it has that length.
pub proof fn law_text_can_be_cut_behind_a_beginning(
    s: Seq<char>,
    n: nat,
)
    ensures
        can_cut(s, n) <==> byte_len(s) <= n || exists|front: Seq<char>, back: Seq<char>|
            s == #[trigger] (front + back) && byte_len(front) == n,
{
    if byte_len(s) > n {
        if can_cut(s, n) {
            law_clipped_is_a_beginning(s, n, Seq::empty());
        }
        if exists|front: Seq<char>, back: Seq<char>|
            s == #[trigger] (front + back) && byte_len(front) == n {
            let (front, back) = choose|front: Seq<char>, back: Seq<char>|
                s == #[trigger] (front + back) && byte_len(front) == n;
            lemma_bytes_add(front, back);
            let bytes = utf8::encode_utf8(s);
            let rest = utf8::encode_utf8(back);
            utf8::encode_utf8_valid_utf8(s);
            utf8::encode_utf8_valid_utf8(back);
            assert(rest.len() > 0);
            utf8::is_char_boundary_start_end_of_seq(rest);
            utf8::is_char_boundary_iff_not_is_continuation_byte(rest, 0);
            assert(bytes[n as int] == rest[0]);
            utf8::is_char_boundary_iff_not_is_continuation_byte(bytes, n as int);
        }
    }
}

/// A text is a number if it is made of digits alone, at least one, with or without a plus in
/// front, and the number is not too high; it is the number that the digits write.
pub proof fn law_digits_write_a_number(
    s: Seq<char>,
    d: char,
    max: nat,
)
    requires
        is_digit(d),
    ensures
        parsed_number(Seq::empty(), max) is None,
        (exists|i: int| 0 <= i < s.len() && !is_digit(s[i]) && !(i == 0 && s[i] == '+'))
            ==> parsed_number(s, max) is None,
        s.len() > 0
            && is_digit(s[0]) ==> parsed_number(seq!['+'] + s, max) == parsed_number(s, max),
        parsed_number(seq![d], max) == (if d as nat - 48 <= max {
            Some((d as nat - 48) as nat)
        } else {
            None
        }),
        forall|n: nat| #![trigger 10 * n]
            parsed_number(s, max) == Some(n) ==> parsed_number(s.push(d), max) == (if 10 * n + (
            d as nat - 48) <= max {
                Some((10 * n + (d as nat - 48)) as nat)
            } else {
                None
            }),
        parsed_number(s, max) matches Some(n) ==> n <= max,
{
    assert(seq![d].drop_last() =~= Seq::<char>::empty());
    assert(digits_value(seq![d]) == (d as nat - 48) as nat);
    assert(seq![d][0] == d);
    assert((seq!['+'] + s).drop_first() =~= s);
    if exists|i: int| 0 <= i < s.len() && !is_digit(s[i]) && !(i == 0 && s[i] == '+') {
        let i = choose|i: int| 0 <= i < s.len() && !is_digit(s[i]) && !(i == 0 && s[i] == '+');
        let t = without_plus(s);
        if t.len() == s.len() {
            assert(!is_digit(t[i]));
        } else {
            assert(t[i - 1] == s[i]);
        }
    }
    let t = without_plus(s);
    if all_digits(t) {
        assert(without_plus(s.push(d)) =~= t.push(d));
        assert(t.push(d).drop_last() =~= t);
        assert(all_digits(t.push(d))) by {
            assert forall|i: int| 0 <= i < t.push(d).len() implies is_digit(t.push(d)[i]) by {
                if i < t.len() {
                    assert(t.push(d)[i] == t[i]);
                }
            }
        }
    }
}

/// A digit is written as itself, a longer number as its tens with the last digit behind them, and
/// a number below zero with a minus in front.
pub proof fn law_numbers_are_written_digit_by_digit(
    n: nat,
    d: nat,
)
    requires
        d < 10,
    ensures
        decimal(0) == "0"@,
        decimal(d) == seq![(48 + d) as char],
        n > 0 ==> decimal(10 * n + d) == decimal(n).push((48 + d) as char),
        signed_decimal(n as int) == decimal(n),
        n > 0 ==> signed_decimal(-n) == "-"@ + decimal(n),
{
    reveal_strlit("0");
    reveal_strlit("-");
    assert(decimal(0) =~= "0"@);
    assert((10 * n + d) / 10 == n && (10 * n + d) % 10 == d);
    assert(seq!['-'] =~= "-"@);
}

/// A text begins with another if and only if it is the other with something, or nothing, behind it.
pub proof fn law_beginning_has_the_rest_behind_it(
    s: Seq<char>,
    p: Seq<char>,
)
    ensures
        has_prefix(s, p) <==> exists|rest: Seq<char>| s == #[trigger] (p + rest),
{
    if has_prefix(s, p) {
        let rest = s.skip(p.len() as int);
        assert(s =~= p + rest);
    }
    if exists|rest: Seq<char>| s == #[trigger] (p + rest) {
        let rest = choose|rest: Seq<char>| s == #[trigger] (p + rest);
        assert(s.subrange(0, p.len() as int) =~= p);
    }
}

/// White space are the tab, the line breaks and the page break, the space and the other
/// characters that stand for one.
pub proof fn law_white_space_is_what_separates(
    c: char,
)
    ensures
        white_space(c) <==> c == '\t' || c == '\n' || c == '\u{b}' || c == '\u{c}' || c == '\r' || c
            == ' ' || c == '\u{85}' || c == '\u{a0}' || c == '\u{1680}' || ('\u{2000}' <= c && c
            <= '\u{200a}') || c == '\u{2028}' || c == '\u{2029}' || c == '\u{202f}' || c
            == '\u{205f}' || c == '\u{3000}',
{
}

} // verus!
