//! Text as sequences of characters: trimming, lines, joining, padding, decimal digits.
//!
//! Every function here states its result over the characters of its arguments, so that
//! the rest of the crate can say exactly which URL, key, command or message it builds.

use vstd::prelude::*;
use vstd::string::*;

verus! {

/// `String::push` puts the character behind the text.
pub assume_specification[ String::push ](s: &mut String, c: char)
    ensures
        final(s)@ == old(s)@.push(c),
;

/// The two sets of characters that are trimmed from text.
#[derive(Clone, Copy)]
pub enum CharClass {
    /// The path separator `/`.
    Slash,
    /// The characters with the Unicode property `White_Space`.
    White,
}

/// The Unicode property `White_Space`.
pub open spec fn is_white(c: char) -> bool {
    let n = c as u32;
    ||| 0x9 <= n <= 0xd
    ||| n == 0x20
    ||| n == 0x85
    ||| n == 0xa0
    ||| n == 0x1680
    ||| 0x2000 <= n <= 0x200a
    ||| n == 0x2028
    ||| n == 0x2029
    ||| n == 0x202f
    ||| n == 0x205f
    ||| n == 0x3000
}

impl CharClass {
    /// Whether `c` belongs to the class.
    pub open spec fn has(self, c: char) -> bool {
        match self {
            CharClass::Slash => c == '/',
            CharClass::White => is_white(c),
        }
    }

    /// Tests whether `c` belongs to the class.
    pub fn test(self, c: char) -> (r: bool)
        ensures
            r == self.has(c),
    {
        match self {
            CharClass::Slash => c == '/',
            CharClass::White => {
                let n: u32 = c as u32;
                (0x9 <= n && n <= 0xd) || n == 0x20 || n == 0x85 || n == 0xa0 || n == 0x1680 || (
                0x2000 <= n && n <= 0x200a) || n == 0x2028 || n == 0x2029 || n == 0x202f || n
                    == 0x205f || n == 0x3000
            },
        }
    }
}

/// `s` without the characters of `class` at its front.
pub open spec fn trim_start(s: Seq<char>, class: CharClass) -> Seq<char>
    decreases s.len(),
{
    if s.len() > 0 && class.has(s[0]) {
        trim_start(s.skip(1), class)
    } else {
        s
    }
}

/// `s` without the characters of `class` at its end.
pub open spec fn trim_end(s: Seq<char>, class: CharClass) -> Seq<char>
    decreases s.len(),
{
    if s.len() > 0 && class.has(s.last()) {
        trim_end(s.drop_last(), class)
    } else {
        s
    }
}

/// `s` without the characters of `class` at either end.
pub open spec fn trim(s: Seq<char>, class: CharClass) -> Seq<char> {
    trim_end(trim_start(s, class), class)
}

/// The index of the first `c` in `s`, or the length of `s` where there is none.
pub open spec fn find(s: Seq<char>, c: char) -> nat
    decreases s.len(),
{
    if s.len() == 0 || s[0] == c {
        0
    } else {
        1 + find(s.skip(1), c)
    }
}

/// `line` without one carriage return at its end.
pub open spec fn chomp(line: Seq<char>) -> Seq<char> {
    if line.len() > 0 && line.last() == '\r' {
        line.drop_last()
    } else {
        line
    }
}

/// The lines of `s`: each ends with `\n` or `\r\n`, which it does not hold; the last one
/// may lack its ending, and then holds whatever stands there.
pub open spec fn lines(s: Seq<char>) -> Seq<Seq<char>>
    decreases s.len(),
{
    if s.len() == 0 {
        Seq::empty()
    } else {
        let k = find(s, '\n');
        if k >= s.len() {
            seq![s]
        } else {
            seq![chomp(s.take(k as int))] + lines(s.skip(k as int + 1))
        }
    }
}

/// The characters of each string.
pub open spec fn texts(v: Seq<String>) -> Seq<Seq<char>> {
    Seq::new(v.len(), |i: int| v[i]@)
}

/// The parts, one behind the other, with `sep` between each two.
pub open spec fn join(parts: Seq<Seq<char>>, sep: Seq<char>) -> Seq<char>
    decreases parts.len(),
{
    if parts.len() == 0 {
        Seq::empty()
    } else if parts.len() == 1 {
        parts[0]
    } else {
        join(parts.drop_last(), sep) + sep + parts.last()
    }
}

/// `n` times the character `c`.
pub open spec fn repeat(c: char, n: nat) -> Seq<char> {
    Seq::new(n, |i: int| c)
}

/// `s` with `c` in front of it until it is `width` characters long.
pub open spec fn pad_left(s: Seq<char>, c: char, width: nat) -> Seq<char> {
    if s.len() >= width {
        s
    } else {
        repeat(c, (width - s.len()) as nat) + s
    }
}

/// `s` with blanks behind it until it is `width` characters long.
pub open spec fn pad_right(s: Seq<char>, width: nat) -> Seq<char> {
    if s.len() >= width {
        s
    } else {
        s + repeat(' ', (width - s.len()) as nat)
    }
}

/// The character of a decimal digit.
pub open spec fn digit(d: nat) -> char {
    (48 + d) as char
}

/// `n` in decimal, without leading zeros.
pub open spec fn decimal(n: nat) -> Seq<char>
    decreases n,
{
    if n < 10 {
        seq![digit(n)]
    } else {
        decimal(n / 10).push(digit(n % 10))
    }
}

/// `c`, or its small letter where it is an ASCII capital letter.
pub open spec fn lower(c: char) -> char {
    if 'A' <= c && c <= 'Z' {
        (c as u32 + 32) as char
    } else {
        c
    }
}

/// `s` with each ASCII capital letter replaced by its small letter.
pub open spec fn lowercase(s: Seq<char>) -> Seq<char> {
    s.map_values(|c: char| lower(c))
}

/// Whether `s` begins with `p`.
pub open spec fn begins(s: Seq<char>, p: Seq<char>) -> bool {
    p.len() <= s.len() && s.take(p.len() as int) == p
}

/// `s` with every occurrence of `from`, found from left to right and none overlapping
/// the one before it, replaced by `to`. An empty `from` occurs nowhere.
pub open spec fn replace(s: Seq<char>, from: Seq<char>, to: Seq<char>) -> Seq<char>
    decreases s.len(),
{
    if s.len() == 0 || from.len() == 0 {
        s
    } else if begins(s, from) {
        to + replace(s.skip(from.len() as int), from, to)
    } else {
        seq![s[0]] + replace(s.skip(1), from, to)
    }
}

/// Decimal numbers are made of digits, and there is at least one.
pub proof fn lemma_decimal_digits(n: nat)
    ensures
        decimal(n).len() > 0,
        forall|i: int| 0 <= i < decimal(n).len() ==> '0' <= #[trigger] decimal(n)[i] <= '9',
    decreases n,
{
    if n >= 10 {
        lemma_decimal_digits(n / 10);
    }
}

/// The number that a row of decimal digits stands for.
pub open spec fn value(s: Seq<char>) -> int
    decreases s.len(),
{
    if s.len() == 0 {
        0
    } else {
        10 * value(s.drop_last()) + (s.last() as int - 48)
    }
}

/// A number can be read back from its digits.
pub proof fn lemma_decimal_value(n: nat)
    ensures
        value(decimal(n)) == n,
    decreases n,
{
    assert(digit(n % 10) as int == 48 + n % 10);
    assert(decimal(n).last() == digit(n % 10));
    if n < 10 {
        assert(decimal(n).drop_last() == Seq::<char>::empty());
        assert(value(Seq::<char>::empty()) == 0);
    } else {
        lemma_decimal_value(n / 10);
        assert(decimal(n).drop_last() == decimal(n / 10));
    }
}

/// Zeros in front of digits do not change the number.
pub proof fn lemma_leading_zeros(s: Seq<char>, n: nat)
    ensures
        value(repeat('0', n) + s) == value(s),
    decreases n + s.len(),
{
    let all = repeat('0', n) + s;
    if s.len() > 0 {
        lemma_leading_zeros(s.drop_last(), n);
        assert(all.drop_last() == repeat('0', n) + s.drop_last());
    } else if n > 0 {
        lemma_leading_zeros(s, (n - 1) as nat);
        assert(all.drop_last() == repeat('0', (n - 1) as nat) + s);
        assert(all.last() == '0');
    } else {
        assert(all == s);
    }
}

/// Different numbers are written differently, also with zeros in front.
pub proof fn lemma_padded_decimal_injective(a: nat, b: nat, width: nat)
    requires
        pad_left(decimal(a), '0', width) == pad_left(decimal(b), '0', width),
    ensures
        a == b,
{
    lemma_decimal_value(a);
    lemma_decimal_value(b);
    if decimal(a).len() < width {
        lemma_leading_zeros(decimal(a), (width - decimal(a).len()) as nat);
    }
    if decimal(b).len() < width {
        lemma_leading_zeros(decimal(b), (width - decimal(b).len()) as nat);
    }
}

/// Nothing but characters of the class is taken off the front, and all of those.
pub proof fn front_is_trimmed(s: Seq<char>, class: CharClass)
    ensures
        ({
            let t = trim_start(s, class);
            let k = s.len() - t.len();
            &&& 0 <= k
            &&& t == s.skip(k)
            &&& forall|i: int| 0 <= i < k ==> class.has(#[trigger] s[i])
            &&& t.len() > 0 ==> !class.has(t[0])
        }),
    decreases s.len(),
{
    if s.len() > 0 && class.has(s[0]) {
        front_is_trimmed(s.skip(1), class);
        let t = trim_start(s, class);
        let k = s.len() - t.len();
        assert(t =~= s.skip(k));
        assert forall|i: int| 0 <= i < k implies class.has(#[trigger] s[i]) by {
            if i > 0 {
                assert(s.skip(1)[i - 1] == s[i]);
            }
        }
    } else {
        assert(s.skip(0) =~= s);
    }
}

/// White space is what Unicode calls so, each character by its number; the only slash is
/// `/`.
pub proof fn white_space_is_unicode(c: char)
    ensures
        CharClass::White.has(c) <==> seq![
            0x9u32, 0xau32, 0xbu32, 0xcu32, 0xdu32, 0x20u32, 0x85u32, 0xa0u32, 0x1680u32,
            0x2000u32, 0x2001u32, 0x2002u32, 0x2003u32, 0x2004u32, 0x2005u32, 0x2006u32,
            0x2007u32, 0x2008u32, 0x2009u32, 0x200au32, 0x2028u32, 0x2029u32, 0x202fu32,
            0x205fu32, 0x3000u32,
        ].contains(c as u32),
        CharClass::Slash.has(c) <==> c == '/',
{
    let all = seq![
        0x9u32, 0xau32, 0xbu32, 0xcu32, 0xdu32, 0x20u32, 0x85u32, 0xa0u32, 0x1680u32,
        0x2000u32, 0x2001u32, 0x2002u32, 0x2003u32, 0x2004u32, 0x2005u32, 0x2006u32,
        0x2007u32, 0x2008u32, 0x2009u32, 0x200au32, 0x2028u32, 0x2029u32, 0x202fu32,
        0x205fu32, 0x3000u32,
    ];
    let n = c as u32;
    if is_white(c) {
        let i = if n <= 0xd {
            n - 9
        } else if n == 0x20 {
            5
        } else if n == 0x85 {
            6
        } else if n == 0xa0 {
            7
        } else if n == 0x1680 {
            8
        } else if n <= 0x200a {
            n - 0x2000 + 9
        } else if n == 0x2028 {
            20
        } else if n == 0x2029 {
            21
        } else if n == 0x202f {
            22
        } else if n == 0x205f {
            23
        } else {
            24int
        };
        assert(all[i] == n);
    }
    if all.contains(n) {
        let i = choose|i: int| 0 <= i < all.len() && all[i] == n;
        assert(all.len() == 25);
    }
}

/// Nothing but characters of the class is taken off the end, and all of those.
pub proof fn end_is_trimmed(s: Seq<char>, class: CharClass)
    ensures
        ({
            let t = trim_end(s, class);
            &&& t.len() <= s.len()
            &&& t == s.take(t.len() as int)
            &&& forall|i: int| t.len() <= i < s.len() ==> class.has(#[trigger] s[i])
            &&& t.len() > 0 ==> !class.has(t.last())
        }),
    decreases s.len(),
{
    if s.len() > 0 && class.has(s.last()) {
        end_is_trimmed(s.drop_last(), class);
        let t = trim_end(s, class);
        assert(t =~= s.take(t.len() as int));
        assert forall|i: int| t.len() <= i < s.len() implies class.has(#[trigger] s[i]) by {
            if i < s.len() - 1 {
                assert(s.drop_last()[i] == s[i]);
            }
        }
    } else {
        assert(s.take(s.len() as int) =~= s);
    }
}

/// Text with no character of the class at either end is trimmed already.
pub proof fn trimmed_text_is_kept(s: Seq<char>, class: CharClass)
    requires
        s.len() > 0 ==> !class.has(s[0]) && !class.has(s.last()),
    ensures
        trim(s, class) == s,
{
}

proof fn lemma_trim_all(s: Seq<char>, class: CharClass)
    requires
        forall|i: int| 0 <= i < s.len() ==> class.has(#[trigger] s[i]),
    ensures
        trim_start(s, class) == Seq::<char>::empty(),
        trim_end(s, class) == Seq::<char>::empty(),
{
    front_is_trimmed(s, class);
    end_is_trimmed(s, class);
    assert(trim_start(s, class) =~= Seq::<char>::empty());
    assert(trim_end(s, class) =~= Seq::<char>::empty());
}

proof fn lemma_trim_front(front: Seq<char>, s: Seq<char>, class: CharClass)
    requires
        forall|i: int| 0 <= i < front.len() ==> class.has(#[trigger] front[i]),
    ensures
        trim_start(front + s, class) == trim_start(s, class),
    decreases front.len(),
{
    if front.len() == 0 {
        assert(front + s =~= s);
    } else {
        assert((front + s)[0] == front[0]);
        assert((front + s).skip(1) =~= front.skip(1) + s);
        assert forall|i: int| 0 <= i < front.skip(1).len() implies class.has(
            #[trigger] front.skip(1)[i],
        ) by {
            assert(class.has(front[i + 1]));
        }
        lemma_trim_front(front.skip(1), s, class);
    }
}

proof fn lemma_trim_back(s: Seq<char>, end: Seq<char>, class: CharClass)
    requires
        forall|i: int| 0 <= i < end.len() ==> class.has(#[trigger] end[i]),
    ensures
        trim_end(s + end, class) == trim_end(s, class),
    decreases end.len(),
{
    if end.len() == 0 {
        assert(s + end =~= s);
    } else {
        assert((s + end).last() == end[end.len() - 1]);
        assert((s + end).drop_last() =~= s + end.drop_last());
        assert forall|i: int| 0 <= i < end.drop_last().len() implies class.has(
            #[trigger] end.drop_last()[i],
        ) by {
            assert(class.has(end[i]));
        }
        lemma_trim_back(s, end.drop_last(), class);
    }
}

/// Characters of the class around a text make no difference to what is left of it.
pub proof fn surroundings_are_trimmed(
    front: Seq<char>,
    s: Seq<char>,
    end: Seq<char>,
    class: CharClass,
)
    requires
        forall|i: int| 0 <= i < front.len() ==> class.has(#[trigger] front[i]),
        forall|i: int| 0 <= i < end.len() ==> class.has(#[trigger] end[i]),
    ensures
        trim(front + s + end, class) == trim(s, class),
{
    assert(front + s + end =~= front + (s + end));
    lemma_trim_front(front, s + end, class);
    front_is_trimmed(s, class);
    let t = trim_start(s, class);
    let k = s.len() - t.len();
    if t.len() == 0 {
        assert forall|i: int| 0 <= i < (s + end).len() implies class.has(
            #[trigger] (s + end)[i],
        ) by {
            if i < s.len() {
                assert(class.has(s[i]));
            } else {
                assert(class.has(end[i - s.len()]));
            }
        }
        lemma_trim_all(s + end, class);
        assert(t =~= Seq::<char>::empty());
    } else {
        let cut = s.take(k);
        assert(s + end =~= cut + (t + end));
        assert forall|i: int| 0 <= i < cut.len() implies class.has(#[trigger] cut[i]) by {
            assert(class.has(s[i]));
        }
        lemma_trim_front(cut, t + end, class);
        assert((t + end)[0] == t[0]);
        assert(trim_start(t + end, class) == t + end);
        lemma_trim_back(t, end, class);
    }
}

/// `find` gives the first place of a character.
pub proof fn found_is_first(s: Seq<char>, c: char)
    ensures
        find(s, c) <= s.len(),
        find(s, c) < s.len() ==> s[find(s, c) as int] == c,
        forall|i: int| 0 <= i < find(s, c) ==> #[trigger] s[i] != c,
    decreases s.len(),
{
    if s.len() > 0 && s[0] != c {
        found_is_first(s.skip(1), c);
        assert forall|i: int| 0 <= i < find(s, c) implies #[trigger] s[i] != c by {
            if i > 0 {
                assert(s.skip(1)[i - 1] == s[i]);
            }
        }
    }
}

/// A line ends at its line feed, and loses one carriage return in front of it; behind it
/// the other lines follow. Text without a line feed is one line, and no text none.
pub proof fn lines_end_at_line_feeds(line: Seq<char>, rest: Seq<char>)
    requires
        !line.contains('\n'),
    ensures
        !(line.len() > 0 && line.last() == '\r') ==> lines(line + seq!['\n'] + rest) == seq![
            line,
        ] + lines(rest),
        lines(line + seq!['\r', '\n'] + rest) == seq![line] + lines(rest),
        line.len() > 0 ==> lines(line) == seq![line],
        lines(Seq::empty()) == Seq::<Seq<char>>::empty(),
{
    let s = line + seq!['\n'] + rest;
    found_is_first(s, '\n');
    lemma_find_at(s, '\n', line.len() as int);
    assert(s.take(line.len() as int) =~= line);
    assert(s.skip(line.len() as int + 1) =~= rest);
    let t = line + seq!['\r', '\n'] + rest;
    lemma_find_at(t, '\n', line.len() as int + 1);
    assert(t.take(line.len() as int + 1) =~= line.push('\r'));
    assert(line.push('\r').drop_last() =~= line);
    assert(t.skip(line.len() as int + 2) =~= rest);
    if line.len() > 0 {
        found_is_first(line, '\n');
        if find(line, '\n') < line.len() {
            assert(line.contains(line[find(line, '\n') as int]));
        }
    }
}

proof fn lemma_find_at(s: Seq<char>, c: char, k: int)
    requires
        0 <= k < s.len(),
        s[k] == c,
        forall|i: int| 0 <= i < k ==> #[trigger] s[i] != c,
    ensures
        find(s, c) == k,
{
    found_is_first(s, c);
}

/// Joined parts, joined again, are joined.
pub proof fn joining_is_associative(a: Seq<Seq<char>>, b: Seq<Seq<char>>, sep: Seq<char>)
    requires
        a.len() > 0,
        b.len() > 0,
    ensures
        join(a + b, sep) == join(a, sep) + sep + join(b, sep),
        a.len() == 1 ==> join(a, sep) == a[0],
    decreases b.len(),
{
    let all = a + b;
    assert(all.drop_last() =~= a + b.drop_last());
    assert(all.last() == b.last());
    if b.len() == 1 {
        assert(a + b.drop_last() =~= a);
    } else {
        joining_is_associative(a, b.drop_last(), sep);
        assert(join(a, sep) + sep + join(b.drop_last(), sep) + sep + b.last() =~= join(a, sep)
            + sep + (join(b.drop_last(), sep) + sep + b.last()));
    }
}

/// Padding fills a text up to the width with the filler, on its side, and keeps the text.
pub proof fn padding_fills_up(s: Seq<char>, c: char, width: nat)
    ensures
        pad_left(s, c, width).len() == if s.len() > width {
            s.len()
        } else {
            width
        },
        pad_left(s, c, width).skip(pad_left(s, c, width).len() - s.len()) == s,
        forall|i: int|
            0 <= i < pad_left(s, c, width).len() - s.len() ==> #[trigger] pad_left(
                s,
                c,
                width,
            )[i] == c,
        pad_right(s, width).len() == if s.len() > width {
            s.len()
        } else {
            width
        },
        pad_right(s, width).take(s.len() as int) == s,
        forall|i: int|
            s.len() <= i < pad_right(s, width).len() ==> #[trigger] pad_right(s, width)[i] == ' ',
{
    assert(pad_left(s, c, width).skip(pad_left(s, c, width).len() - s.len()) =~= s);
    assert(pad_right(s, width).take(s.len() as int) =~= s);
}

/// A number in decimal has no zero in front of it, unless it is zero.
pub proof fn decimals_have_no_leading_zeros(n: nat)
    ensures
        n > 0 ==> decimal(n)[0] != '0',
        n == 0 ==> decimal(n) == seq!['0'],
    decreases n,
{
    assert(digit(0) == '0');
    if n >= 10 {
        decimals_have_no_leading_zeros(n / 10);
        lemma_decimal_digits(n / 10);
    } else {
        assert(digit(n) as int == 48 + n);
    }
}

/// Only ASCII capital letters have another small letter, 32 places behind them.
pub proof fn only_capitals_are_lowered(c: char)
    ensures
        'A' <= c <= 'Z' ==> lower(c) as int == c as int + 32,
        !('A' <= c <= 'Z') ==> lower(c) == c,
{
}

/// The characters of `s`, in order.
pub fn chars_of(s: &str) -> (out: Vec<char>)
    ensures
        out@ == s@,
{
    let mut out: Vec<char> = Vec::new();
    for c in it: s.chars()
        invariant
            out@ == s@.take(it.index() as int),
            it.seq() == s@,
    {
        out.push(c);
    }
    out
}

/// The text of the characters from `from` up to `to`.
pub fn text_of(s: &[char], from: usize, to: usize) -> (out: String)
    requires
        from <= to <= s@.len(),
    ensures
        out@ == s@.subrange(from as int, to as int),
{
    let mut out = String::new();
    let mut i: usize = from;
    while i < to
        invariant
            from <= i <= to <= s@.len(),
            out@ == s@.subrange(from as int, i as int),
        decreases to - i,
    {
        out.push(s[i]);
        i += 1;
    }
    out
}

/// Whether two texts are the same.
pub fn same(a: &str, b: &str) -> (r: bool)
    ensures
        r == (a@ == b@),
{
    a.to_owned() == b.to_owned()
}

/// Removes the characters of `class` from the front.
pub fn strip_start(s: &str, class: CharClass) -> (out: String)
    ensures
        out@ == trim_start(s@, class),
{
    let cs = chars_of(s);
    let mut i: usize = 0;
    assert(s@.skip(0) == s@);
    while i < cs.len() && class.test(cs[i])
        invariant
            cs@ == s@,
            i <= cs@.len(),
            trim_start(s@, class) == trim_start(s@.skip(i as int), class),
        decreases cs.len() - i,
    {
        assert(s@.skip(i as int).skip(1) == s@.skip(i + 1));
        i += 1;
    }
    assert(s@.skip(i as int) == s@.subrange(i as int, s@.len() as int));
    text_of(&cs, i, cs.len())
}

/// Removes the characters of `class` from the end.
pub fn strip_end(s: &str, class: CharClass) -> (out: String)
    ensures
        out@ == trim_end(s@, class),
{
    let cs = chars_of(s);
    let mut n: usize = cs.len();
    assert(s@.take(n as int) == s@);
    while n > 0 && class.test(cs[n - 1])
        invariant
            cs@ == s@,
            n <= cs@.len(),
            trim_end(s@, class) == trim_end(s@.take(n as int), class),
        decreases n,
    {
        assert(s@.take(n as int).drop_last() == s@.take(n - 1));
        n -= 1;
    }
    assert(s@.take(n as int) == s@.subrange(0, n as int));
    text_of(&cs, 0, n)
}

/// Removes the characters of `class` from both ends.
pub fn strip(s: &str, class: CharClass) -> (out: String)
    ensures
        out@ == trim(s@, class),
{
    let front = strip_start(s, class);
    strip_end(&front, class)
}

/// The first index from `from` on at which `s` holds `c`, or its length.
pub fn position(s: &[char], c: char, from: usize) -> (k: usize)
    requires
        from <= s@.len(),
    ensures
        from <= k <= s@.len(),
        k == from + find(s@.skip(from as int), c),
{
    let mut k: usize = from;
    while k < s.len() && s[k] != c
        invariant
            from <= k <= s@.len(),
            from + find(s@.skip(from as int), c) == k + find(s@.skip(k as int), c),
        decreases s.len() - k,
    {
        assert(s@.skip(k as int).skip(1) == s@.skip(k + 1));
        k += 1;
    }
    k
}

/// Splits text into its lines.
pub fn split_lines(s: &str) -> (out: Vec<String>)
    ensures
        texts(out@) == lines(s@),
{
    let cs = chars_of(s);
    let mut out: Vec<String> = Vec::new();
    let mut i: usize = 0;
    assert(s@.skip(0) == s@);
    assert(texts(out@) + lines(s@) == lines(s@));
    while i < cs.len()
        invariant
            cs@ == s@,
            i <= cs@.len(),
            texts(out@) + lines(s@.skip(i as int)) == lines(s@),
        decreases cs.len() - i,
    {
        let ghost rest = s@.skip(i as int);
        let ghost before = texts(out@);
        let k = position(&cs, '\n', i);
        if k == cs.len() {
            let line = text_of(&cs, i, k);
            proof {
                assert(line@ == rest);
                assert(lines(rest) == seq![rest]);
                assert(s@.skip(k as int) == Seq::<char>::empty());
            }
            out.push(line);
            assert(texts(out@) == before.push(rest));
            i = k;
        } else {
            let end: usize = if k > i && cs[k - 1] == '\r' {
                k - 1
            } else {
                k
            };
            let line = text_of(&cs, i, end);
            proof {
                assert(rest.take(k - i) == s@.subrange(i as int, k as int));
                assert(line@ == chomp(rest.take(k - i)));
                assert(rest.skip(k - i + 1) == s@.skip(k + 1));
                assert(lines(rest) == seq![line@] + lines(s@.skip(k + 1)));
            }
            out.push(line);
            assert(texts(out@) == before.push(line@));
            assert(before.push(line@) + lines(s@.skip(k + 1)) == before + lines(rest));
            i = k + 1;
        }
    }
    assert(s@.skip(i as int) == Seq::<char>::empty());
    out
}

/// Joins the strings from index `from` on with `sep` between each two.
pub fn join_from(parts: &Vec<String>, from: usize, sep: &str) -> (out: String)
    requires
        from <= parts@.len(),
    ensures
        out@ == join(texts(parts@).skip(from as int), sep@),
{
    let mut out = String::new();
    let mut i: usize = from;
    let ghost all = texts(parts@).skip(from as int);
    assert(all.take(0) == Seq::<Seq<char>>::empty());
    while i < parts.len()
        invariant
            from <= i <= parts@.len(),
            all == texts(parts@).skip(from as int),
            out@ == join(all.take(i - from), sep@),
        decreases parts.len() - i,
    {
        let ghost done = all.take(i - from + 1);
        assert(done.drop_last() == all.take(i - from));
        assert(done.last() == parts@[i as int]@);
        if i > from {
            out.append(sep);
        }
        out.append(&parts[i]);
        i += 1;
    }
    assert(all.take(all.len() as int) == all);
    out
}

/// `n` times the character `c`.
fn filled(c: char, n: usize) -> (out: String)
    ensures
        out@ == repeat(c, n as nat),
{
    let mut out = String::new();
    let mut i: usize = 0;
    while i < n
        invariant
            i <= n,
            out@ == repeat(c, i as nat),
        decreases n - i,
    {
        out.push(c);
        assert(out@ == repeat(c, (i + 1) as nat));
        i += 1;
    }
    out
}

/// Fills `s` up with `c` in front.
pub fn right_aligned(s: &str, c: char, width: usize) -> (out: String)
    ensures
        out@ == pad_left(s@, c, width as nat),
{
    let len: usize = s.unicode_len();
    if len >= width {
        s.to_owned()
    } else {
        let mut out = filled(c, width - len);
        out.append(s);
        out
    }
}

/// Fills `s` up with blanks behind.
pub fn left_aligned(s: &str, width: usize) -> (out: String)
    ensures
        out@ == pad_right(s@, width as nat),
{
    let len: usize = s.unicode_len();
    let mut out = s.to_owned();
    if len < width {
        let blanks = filled(' ', width - len);
        out.append(&blanks);
    }
    out
}

/// Writes `n` in decimal.
pub fn decimal_text(n: u64) -> (out: String)
    ensures
        out@ == decimal(n as nat),
    decreases n,
{
    let mut out = if n < 10 {
        String::new()
    } else {
        decimal_text(n / 10)
    };
    let d: u8 = (n % 10) as u8;
    out.push((48 + d) as char);
    assert(out@ == decimal(n as nat));
    out
}

/// Replaces each ASCII capital letter by its small letter.
pub fn lowercase_text(s: &str) -> (out: String)
    ensures
        out@ == lowercase(s@),
{
    let cs = chars_of(s);
    let mut out = String::new();
    let mut i: usize = 0;
    while i < cs.len()
        invariant
            cs@ == s@,
            i <= cs@.len(),
            out@ == lowercase(s@.take(i as int)),
        decreases cs.len() - i,
    {
        let c = cs[i];
        if 'A' <= c && c <= 'Z' {
            out.push((c as u8 + 32) as char);
        } else {
            out.push(c);
        }
        assert(out@ == lowercase(s@.take(i + 1)));
        i += 1;
    }
    assert(s@.take(i as int) == s@);
    out
}

/// Whether the characters from `at` on begin with `p`.
fn begins_at(s: &[char], at: usize, p: &[char]) -> (r: bool)
    requires
        at <= s@.len(),
    ensures
        r == begins(s@.skip(at as int), p@),
{
    let n: usize = s.len();
    if p.len() > n - at {
        return false;
    }
    let mut i: usize = 0;
    while i < p.len()
        invariant
            at <= n == s@.len(),
            i <= p@.len() <= n - at,
            s@.skip(at as int).take(i as int) == p@.take(i as int),
        decreases p.len() - i,
    {
        if s[at + i] != p[i] {
            assert(s@.skip(at as int).take(p@.len() as int)[i as int] != p@[i as int]);
            return false;
        }
        assert(s@.skip(at as int).take(i + 1) == p@.take(i + 1));
        i += 1;
    }
    assert(p@.take(i as int) == p@);
    true
}

/// What stands behind the prefix `p`, where the text begins with it.
pub fn behind_prefix(s: &str, p: &str) -> (r: Option<String>)
    ensures
        r is Some <==> begins(s@, p@),
        r matches Some(t) ==> t@ == s@.skip(p@.len() as int),
{
    let cs = chars_of(s);
    let ps = chars_of(p);
    assert(s@.skip(0) == s@);
    if begins_at(&cs, 0, &ps) {
        assert(s@.skip(p@.len() as int) == s@.subrange(p@.len() as int, s@.len() as int));
        Some(text_of(&cs, ps.len(), cs.len()))
    } else {
        None
    }
}

/// Replaces every occurrence of `from` by `to`.
pub fn replace_text(s: &str, from: &str, to: &str) -> (out: String)
    requires
        from@.len() > 0,
    ensures
        out@ == replace(s@, from@, to@),
{
    let cs = chars_of(s);
    let fs = chars_of(from);
    let mut out = String::new();
    let mut i: usize = 0;
    assert(s@.skip(0) == s@);
    assert(out@ + replace(s@, from@, to@) == replace(s@, from@, to@));
    while i < cs.len()
        invariant
            cs@ == s@,
            fs@ == from@,
            from@.len() > 0,
            i <= cs@.len(),
            out@ + replace(s@.skip(i as int), from@, to@) == replace(s@, from@, to@),
        decreases cs.len() - i,
    {
        let ghost rest = s@.skip(i as int);
        let ghost before = out@;
        if begins_at(&cs, i, &fs) {
            out.append(to);
            assert(rest.skip(from@.len() as int) == s@.skip(i + from@.len()));
            assert(before + (to@ + replace(s@.skip(i + from@.len()), from@, to@)) == before + to@
                + replace(s@.skip(i + from@.len()), from@, to@));
            i += fs.len();
        } else {
            out.push(cs[i]);
            assert(rest.skip(1) == s@.skip(i + 1));
            assert(before + (seq![rest[0]] + replace(s@.skip(i + 1), from@, to@)) == before.push(
                rest[0],
            ) + replace(s@.skip(i + 1), from@, to@));
            i += 1;
        }
    }
    assert(s@.skip(i as int) == Seq::<char>::empty());
    assert(out@ + Seq::<char>::empty() == out@);
    out
}

} // verus!
