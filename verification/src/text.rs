//! Text helpers: numbers as text, splitting, trimming and line breaking.
//!
//! A text is modelled by the sequence of its characters.

use vstd::prelude::*;
use vstd::string::StringExecFns;

verus! {

/// `String::push` appends one character at the end.
pub assume_specification[ String::push ](s: &mut String, c: char)
    ensures
        final(s)@ == old(s)@.push(c),
;

/// The models of a list of texts.
pub open spec fn texts(v: Seq<String>) -> Seq<Seq<char>> {
    v.map_values(|s: String| s@)
}

/// The model of a text that may be missing.
pub open spec fn maybe_text(t: Option<String>) -> Option<Seq<char>> {
    match t {
        Some(s) => Some(s@),
        None => None,
    }
}

/// The model of what reading a text came to.
pub open spec fn text_read(r: Result<String, String>) -> Result<Seq<char>, Seq<char>> {
    match r {
        Ok(s) => Ok(s@),
        Err(e) => Err(e@),
    }
}

/// The character of a digit of a base up to sixteen, letters in lower case.
pub open spec fn digit_char(d: nat) -> char {
    if d < 10 {
        (48 + d) as u8 as char
    } else {
        (87 + d) as u8 as char
    }
}

/// `n` in decimal, without leading zeros.
pub open spec fn decimal(n: nat) -> Seq<char>
    decreases n,
{
    if n < 10 {
        seq![digit_char(n)]
    } else {
        decimal(n / 10).push(digit_char(n % 10))
    }
}

/// `i` in decimal, with a minus sign where it is negative.
pub open spec fn decimal_int(i: int) -> Seq<char> {
    if i < 0 {
        seq!['-'] + decimal((-i) as nat)
    } else {
        decimal(i as nat)
    }
}

/// The last `digits` hexadecimal digits of `n`, most significant first.
pub open spec fn hex(n: nat, digits: nat) -> Seq<char>
    decreases digits,
{
    if digits == 0 {
        Seq::empty()
    } else {
        hex(n / 16, (digits - 1) as nat).push(digit_char(n % 16))
    }
}

/// `hex` gives as many digits as it is asked for.
pub proof fn lemma_hex_digits(n: nat, digits: nat)
    ensures
        hex(n, digits).len() == digits,
        forall|i: int| 0 <= i < digits ==> #[trigger] hex(n, digits)[i] != '/',
    decreases digits,
{
    if digits > 0 {
        lemma_hex_digits(n / 16, (digits - 1) as nat);
    }
}

/// Numbers that have the same digits are equal, where they have no more digits than were asked for.
pub proof fn lemma_hex_injective(a: nat, b: nat, digits: nat)
    requires
        hex(a, digits) == hex(b, digits),
        a < vstd::arithmetic::power::pow(16, digits),
        b < vstd::arithmetic::power::pow(16, digits),
    ensures
        a == b,
    decreases digits,
{
    if digits == 0 {
        vstd::arithmetic::power::lemma_pow0(16);
    } else {
        let front = (digits - 1) as nat;
        let x = hex(a / 16, front);
        let y = hex(b / 16, front);
        let c = digit_char(a % 16);
        let d = digit_char(b % 16);
        assert(x.push(c).drop_last() =~= x);
        assert(y.push(d).drop_last() =~= y);
        assert(x.push(c).last() == c);
        assert(y.push(d).last() == d);
        reveal(vstd::arithmetic::power::pow);
        lemma_hex_injective(a / 16, b / 16, front);
    }
}

fn digit_to_char(d: u8) -> (c: char)
    requires
        d < 16,
    ensures
        c == digit_char(d as nat),
{
    if d < 10 {
        (48u8 + d) as char
    } else {
        (87u8 + d) as char
    }
}

/// `n` in decimal.
pub fn decimal_text(n: u64) -> (s: String)
    ensures
        s@ == decimal(n as nat),
    decreases n,
{
    let d: u8 = (n % 10) as u8;
    let mut s = if n < 10 {
        String::new()
    } else {
        decimal_text(n / 10)
    };
    s.push(digit_to_char(d));
    s
}

/// `i` in decimal.
pub fn decimal_int_text(i: i32) -> (s: String)
    ensures
        s@ == decimal_int(i as int),
{
    if i < 0 {
        let magnitude: u64 = (-(i as i64)) as u64;
        proof {
            reveal_strlit("-");
            assert("-"@ =~= seq!['-']);
        }
        "-".to_owned().concat(decimal_text(magnitude).as_str())
    } else {
        decimal_text(i as u64)
    }
}

/// The last `digits` hexadecimal digits of `n`.
pub fn hex_text(n: u64, digits: u8) -> (s: String)
    ensures
        s@ == hex(n as nat, digits as nat),
    decreases digits,
{
    if digits == 0 {
        String::new()
    } else {
        let mut s = hex_text(n / 16, digits - 1);
        s.push(digit_to_char((n % 16) as u8));
        s
    }
}

/// The parts of `s` between the occurrences of `sep`.
pub open spec fn split(s: Seq<char>, sep: char) -> Seq<Seq<char>>
    decreases s.len(),
{
    if s.len() == 0 {
        seq![Seq::empty()]
    } else {
        let parts = split(s.drop_last(), sep);
        if s.last() == sep {
            parts.push(Seq::empty())
        } else {
            parts.update(parts.len() - 1, parts.last().push(s.last()))
        }
    }
}

/// Splitting gives at least one part.
pub proof fn lemma_split_nonempty(s: Seq<char>, sep: char)
    ensures
        split(s, sep).len() > 0,
    decreases s.len(),
{
    if s.len() > 0 {
        lemma_split_nonempty(s.drop_last(), sep);
    }
}

/// A text without the separator is its own only part.
pub proof fn lemma_split_single(s: Seq<char>, sep: char)
    requires
        !s.contains(sep),
    ensures
        split(s, sep) == seq![s],
    decreases s.len(),
{
    if s.len() > 0 {
        let front = s.drop_last();
        assert forall|i: int| 0 <= i < front.len() implies front[i] != sep by {
            assert(s[i] == front[i]);
        }
        lemma_split_single(front, sep);
        assert(s.last() == s[s.len() - 1]);
        assert(front.push(s.last()) =~= s);
        assert(split(s, sep) =~= seq![s]);
    } else {
        assert(s =~= Seq::<char>::empty());
    }
}

/// A separator between two texts separates their parts.
pub proof fn lemma_split_concat(a: Seq<char>, sep: char, b: Seq<char>)
    ensures
        split(a.push(sep) + b, sep) == split(a, sep) + split(b, sep),
    decreases b.len(),
{
    lemma_split_nonempty(b, sep);
    let whole = a.push(sep) + b;
    if b.len() == 0 {
        assert(whole =~= a.push(sep));
        assert(whole.drop_last() =~= a);
        assert(split(whole, sep) =~= split(a, sep) + split(b, sep));
    } else {
        assert(whole.drop_last() =~= a.push(sep) + b.drop_last());
        lemma_split_concat(a, sep, b.drop_last());
        lemma_split_nonempty(b.drop_last(), sep);
        assert(split(whole, sep) =~= split(a, sep) + split(b, sep));
    }
}

/// The parts of `s` between the occurrences of `sep`.
pub fn split_text(s: &str, sep: char) -> (parts: Vec<String>)
    ensures
        texts(parts@) == split(s@, sep),
{
    let mut parts: Vec<String> = Vec::new();
    let mut part = String::new();
    let ghost full = s@;
    assert(full.take(0) =~= Seq::<char>::empty());
    assert(texts(parts@).push(part@) =~= split(full.take(0), sep));
    for c in it: s.chars()
        invariant
            it.seq() == full,
            texts(parts@).push(part@) == split(full.take(it.index() as int), sep),
    {
        proof {
            let i = it.index() as int;
            assert(full.take(i + 1).drop_last() =~= full.take(i));
            assert(full.take(i + 1).last() == c);
        }
        if c == sep {
            let ghost before = parts@;
            let ghost text = part@;
            parts.push(part);
            part = String::new();
            assert(texts(parts@) =~= texts(before).push(text));
        } else {
            let ghost text = part@;
            part.push(c);
            assert(texts(parts@).push(part@) =~= texts(parts@).push(text).update(
                texts(parts@).len() as int,
                text.push(c),
            ));
        }
    }
    let ghost before = parts@;
    let ghost text = part@;
    parts.push(part);
    assert(texts(parts@) =~= texts(before).push(text));
    assert(full.take(full.len() as int) =~= full);
    parts
}

/// The characters of a text.
pub fn chars_of(s: &str) -> (v: Vec<char>)
    ensures
        v@ == s@,
{
    let mut v: Vec<char> = Vec::new();
    let ghost full = s@;
    for c in it: s.chars()
        invariant
            it.seq() == full,
            v@ == full.take(it.index() as int),
    {
        v.push(c);
    }
    assert(full.take(full.len() as int) =~= full);
    v
}

/// The text of the characters from `from` up to `to`.
pub fn text_of(v: &Vec<char>, from: usize, to: usize) -> (s: String)
    requires
        from <= to <= v@.len(),
    ensures
        s@ == v@.subrange(from as int, to as int),
{
    let mut s = String::new();
    let mut i: usize = from;
    while i < to
        invariant
            from <= i <= to <= v@.len(),
            s@ == v@.subrange(from as int, i as int),
        decreases to - i,
    {
        s.push(v[i]);
        i = i + 1;
        assert(s@ =~= v@.subrange(from as int, i as int));
    }
    s
}

/// The characters that Unicode gives the property White_Space.
pub open spec fn is_space(c: char) -> bool {
    ||| '\u{9}' <= c <= '\u{d}'
    ||| c == ' '
    ||| c == '\u{85}'
    ||| c == '\u{a0}'
    ||| c == '\u{1680}'
    ||| '\u{2000}' <= c <= '\u{200a}'
    ||| c == '\u{2028}'
    ||| c == '\u{2029}'
    ||| c == '\u{202f}'
    ||| c == '\u{205f}'
    ||| c == '\u{3000}'
}

/// `s` without the white space at its start.
pub open spec fn trim_start(s: Seq<char>) -> Seq<char>
    decreases s.len(),
{
    if s.len() > 0 && is_space(s.first()) {
        trim_start(s.drop_first())
    } else {
        s
    }
}

/// `s` without the white space at its end.
pub open spec fn trim_end(s: Seq<char>) -> Seq<char>
    decreases s.len(),
{
    if s.len() > 0 && is_space(s.last()) {
        trim_end(s.drop_last())
    } else {
        s
    }
}

/// `s` without the white space at both ends.
pub open spec fn trim(s: Seq<char>) -> Seq<char> {
    trim_end(trim_start(s))
}

/// Whether a character is white space.
pub fn is_space_char(c: char) -> (b: bool)
    ensures
        b == is_space(c),
{
    ('\u{9}' <= c && c <= '\u{d}') || c == ' ' || c == '\u{85}' || c == '\u{a0}' || c == '\u{1680}'
        || ('\u{2000}' <= c && c <= '\u{200a}') || c == '\u{2028}' || c == '\u{2029}'
        || c == '\u{202f}' || c == '\u{205f}' || c == '\u{3000}'
}

/// `s` without the white space at both ends.
pub fn trim_text(s: &str) -> (t: String)
    ensures
        t@ == trim(s@),
{
    let v = chars_of(s);
    let n: usize = v.len();
    let mut from: usize = 0;
    assert(v@.skip(0) =~= v@);
    while from < n && is_space_char(v[from])
        invariant
            from <= n == v@.len(),
            trim_start(v@) == trim_start(v@.skip(from as int)),
        decreases n - from,
    {
        assert(v@.skip(from as int).drop_first() =~= v@.skip(from + 1));
        from = from + 1;
    }
    let mut to: usize = n;
    assert(v@.skip(from as int) =~= v@.subrange(from as int, to as int));
    while from < to && is_space_char(v[to - 1])
        invariant
            from <= to <= n == v@.len(),
            trim(v@) == trim_end(v@.subrange(from as int, to as int)),
        decreases to - from,
    {
        assert(v@.subrange(from as int, to as int).drop_last() =~= v@.subrange(
            from as int,
            to - 1,
        ));
        to = to - 1;
    }
    text_of(&v, from, to)
}

/// `s` without one carriage return at its end.
pub open spec fn strip_cr(s: Seq<char>) -> Seq<char> {
    if s.len() > 0 && s.last() == '\r' {
        s.drop_last()
    } else {
        s
    }
}

/// The lines of `s`.  A line ends in a line feed, which belongs to no line, nor does one carriage
/// return right before it.  What follows the last line feed is a line unless it is empty.
pub open spec fn lines(s: Seq<char>) -> Seq<Seq<char>> {
    let parts = split(s, '\n');
    let ended = parts.drop_last().map_values(|l: Seq<char>| strip_cr(l));
    if parts.last().len() == 0 {
        ended
    } else {
        ended.push(parts.last())
    }
}

fn strip_cr_text(s: &str) -> (t: String)
    ensures
        t@ == strip_cr(s@),
{
    let v = chars_of(s);
    let n: usize = v.len();
    if n > 0 && v[n - 1] == '\r' {
        let t = text_of(&v, 0, n - 1);
        assert(t@ =~= strip_cr(s@));
        t
    } else {
        let t = s.to_owned();
        assert(t@ =~= strip_cr(s@));
        t
    }
}

/// The lines of `s`.
pub fn lines_text(s: &str) -> (r: Vec<String>)
    ensures
        texts(r@) == lines(s@),
{
    let parts = split_text(s, '\n');
    let ghost model = split(s@, '\n');
    let ghost ended = model.drop_last().map_values(|l: Seq<char>| strip_cr(l));
    proof {
        lemma_split_nonempty(s@, '\n');
        assert(texts(parts@).len() == model.len());
    }
    let last: usize = parts.len() - 1;
    let mut r: Vec<String> = Vec::new();
    let mut i: usize = 0;
    while i < last
        invariant
            i <= last,
            last == parts@.len() - 1,
            texts(parts@) == model,
            ended == model.drop_last().map_values(|l: Seq<char>| strip_cr(l)),
            texts(r@) == ended.take(i as int),
        decreases last - i,
    {
        let ghost before = texts(r@);
        assert(texts(parts@)[i as int] == parts@[i as int]@);
        let line = strip_cr_text(parts[i].as_str());
        let ghost text = line@;
        r.push(line);
        assert(texts(r@) =~= before.push(text));
        i = i + 1;
        assert(texts(r@) =~= ended.take(i as int));
    }
    assert(ended.take(last as int) =~= ended);
    assert(texts(parts@)[last as int] == parts@[last as int]@);
    if !parts[last].as_str().is_empty() {
        let ghost before = texts(r@);
        r.push(parts[last].clone());
        assert(texts(r@) =~= before.push(model.last()));
    }
    r
}

/// Whether a text is white space throughout.
pub open spec fn is_blank(s: Seq<char>) -> bool {
    forall|i: int| 0 <= i < s.len() ==> is_space(#[trigger] s[i])
}

/// Whether no white space stands at either end of a text.
pub open spec fn is_trim(s: Seq<char>) -> bool {
    s.len() > 0 ==> !is_space(s.first()) && !is_space(s.last())
}

proof fn lemma_trim_start_blank(a: Seq<char>, s: Seq<char>)
    requires
        is_blank(a),
        s.len() > 0 ==> !is_space(s.first()),
    ensures
        trim_start(a + s) == s,
    decreases a.len(),
{
    if a.len() == 0 {
        assert(a + s =~= s);
    } else {
        assert(is_space(a[0]));
        assert((a + s).drop_first() =~= a.drop_first() + s);
        lemma_trim_start_blank(a.drop_first(), s);
    }
}

proof fn lemma_trim_end_blank(s: Seq<char>, b: Seq<char>)
    requires
        is_blank(b),
        s.len() > 0 ==> !is_space(s.last()),
    ensures
        trim_end(s + b) == s,
    decreases b.len(),
{
    if b.len() == 0 {
        assert(s + b =~= s);
    } else {
        assert(is_space(b[b.len() - 1]));
        assert((s + b).drop_last() =~= s + b.drop_last());
        assert((s + b).last() == b.last());
        lemma_trim_end_blank(s, b.drop_last());
    }
}

/// Trimming takes away the white space at both ends, however much there is of it, and nothing else.
pub proof fn law_trimming_keeps_the_text(a: Seq<char>, s: Seq<char>, b: Seq<char>)
    requires
        is_blank(a),
        is_trim(s),
        is_blank(b),
    ensures
        trim(a + s + b) == s,
{
    if s.len() == 0 {
        assert(a + s + b =~= (a + b) + Seq::empty());
        assert forall|i: int| 0 <= i < (a + b).len() implies is_space(#[trigger] (a + b)[i]) by {
            if i < a.len() {
                assert(is_space(a[i]));
            } else {
                assert(is_space(b[i - a.len()]));
            }
        }
        lemma_trim_start_blank(a + b, Seq::empty());
        assert(s =~= Seq::empty());
    } else {
        assert((s + b).first() == s.first());
        assert(a + s + b =~= a + (s + b));
        lemma_trim_start_blank(a, s + b);
        lemma_trim_end_blank(s, b);
    }
}

/// Every text is white space around its trimmed form.
pub proof fn law_trimming_takes_white_space_only(s: Seq<char>)
    ensures
        is_trim(trim(s)),
        exists|a: Seq<char>, b: Seq<char>|
            is_blank(a) && is_blank(b) && s == #[trigger] (a + trim(s) + b),
{
    let a = lemma_trim_start_split(s);
    let b = lemma_trim_end_split(trim_start(s));
    assert(s =~= a + trim(s) + b);
    if trim(s).len() > 0 {
        assert(trim_start(s).first() == trim(s).first());
    }
}

proof fn lemma_trim_start_split(s: Seq<char>) -> (a: Seq<char>)
    ensures
        is_blank(a),
        s == a + trim_start(s),
        trim_start(s).len() > 0 ==> !is_space(trim_start(s).first()),
    decreases s.len(),
{
    if s.len() > 0 && is_space(s.first()) {
        let rest = lemma_trim_start_split(s.drop_first());
        let a = seq![s.first()] + rest;
        assert(s =~= seq![s.first()] + s.drop_first());
        assert(seq![s.first()] + (rest + trim_start(s)) =~= a + trim_start(s));
        a
    } else {
        assert(s =~= Seq::<char>::empty() + s);
        Seq::empty()
    }
}

proof fn lemma_trim_end_split(s: Seq<char>) -> (b: Seq<char>)
    ensures
        is_blank(b),
        s == trim_end(s) + b,
        trim_end(s).len() > 0 ==> !is_space(trim_end(s).last()),
    decreases s.len(),
{
    if s.len() > 0 && is_space(s.last()) {
        let rest = lemma_trim_end_split(s.drop_last());
        let b = rest.push(s.last());
        assert(s =~= s.drop_last().push(s.last()));
        assert((trim_end(s) + rest).push(s.last()) =~= trim_end(s) + b);
        b
    } else {
        assert(s =~= s + Seq::<char>::empty());
        Seq::empty()
    }
}

/// Parts with a separator between each two of them.
pub open spec fn joined(parts: Seq<Seq<char>>, sep: char) -> Seq<char>
    decreases parts.len(),
{
    if parts.len() == 0 {
        Seq::empty()
    } else if parts.len() == 1 {
        parts[0]
    } else {
        joined(parts.drop_last(), sep).push(sep) + parts.last()
    }
}

/// Splitting loses nothing: the parts hold no separator, and put together again with the separator
/// between them they are the text.
pub proof fn law_splitting_loses_nothing(s: Seq<char>, sep: char)
    ensures
        joined(split(s, sep), sep) == s,
        forall|i: int| 0 <= i < split(s, sep).len() ==> !(#[trigger] split(s, sep)[i]).contains(sep),
    decreases s.len(),
{
    lemma_split_nonempty(s, sep);
    let parts = split(s, sep);
    if s.len() == 0 {
        assert(joined(parts, sep) =~= s);
    } else {
        let before = split(s.drop_last(), sep);
        lemma_split_nonempty(s.drop_last(), sep);
        law_splitting_loses_nothing(s.drop_last(), sep);
        assert(s.drop_last().push(s.last()) =~= s);
        if s.last() == sep {
            assert(parts.drop_last() =~= before);
            assert(joined(parts, sep) =~= s);
        } else {
            let last = before.last().push(s.last());
            assert(parts.last() == last);
            assert(parts.drop_last() =~= before.drop_last());
            assert(joined(parts, sep) =~= joined(before, sep).push(s.last()));
            assert forall|i: int| 0 <= i < parts.len() implies !(
            #[trigger] parts[i]).contains(sep) by {
                if i == parts.len() - 1 {
                    assert(!before[before.len() - 1].contains(sep));
                    assert forall|j: int| 0 <= j < last.len() implies last[j] != sep by {
                        if j < last.len() - 1 {
                            assert(last[j] == before.last()[j]);
                        }
                    }
                } else {
                    assert(parts[i] == before[i]);
                }
            }
        }
    }
}

/// A text without a line feed is one line, unless it is empty; a line feed ends a line, and what stands
/// behind it are further lines.  One carriage return right before the line feed belongs to no line.
pub proof fn law_lines_end_at_line_feeds(a: Seq<char>, b: Seq<char>)
    requires
        !a.contains('\n'),
    ensures
        lines(Seq::empty()) == Seq::<Seq<char>>::empty(),
        a.len() > 0 ==> lines(a) == seq![a],
        lines(a.push('\n') + b).len() == 1 + lines(b).len(),
        lines(a.push('\n') + b).skip(1) == lines(b),
        a.len() == 0 || a.last() != '\r' ==> lines(a.push('\n') + b)[0] == a,
        a.len() > 0 && a.last() == '\r' ==> lines(a.push('\n') + b)[0] == a.take(a.len() - 1),
{
    let none = Seq::<char>::empty();
    assert(split(none, '\n').drop_last() =~= Seq::empty());
    assert(lines(none) =~= Seq::empty());
    lemma_split_single(a, '\n');
    if a.len() > 0 {
        assert(split(a, '\n').drop_last() =~= Seq::empty());
        assert(lines(a) =~= seq![a]);
    }
    lemma_split_concat(a, '\n', b);
    lemma_split_nonempty(b, '\n');
    let whole = split(a.push('\n') + b, '\n');
    let rest = split(b, '\n');
    assert(whole =~= seq![a] + rest);
    assert(whole.last() == rest.last());
    assert(whole.drop_last() =~= seq![a] + rest.drop_last());
    assert(lines(a.push('\n') + b) =~= seq![strip_cr(a)] + lines(b));
    assert(lines(a.push('\n') + b).skip(1) =~= lines(b));
    if a.len() > 0 && a.last() == '\r' {
        assert(a.drop_last() =~= a.take(a.len() - 1));
    }
}

/// The digit that a character stands for, in a base up to sixteen.
pub open spec fn digit_of(c: char) -> int {
    if '0' <= c <= '9' {
        c as int - '0' as int
    } else {
        10 + c as int - 'a' as int
    }
}

/// The number that digits write in a base.
pub open spec fn number(s: Seq<char>, base: int) -> int
    decreases s.len(),
{
    if s.len() == 0 {
        0
    } else {
        base * number(s.drop_last(), base) + digit_of(s.last())
    }
}

/// A number in decimal reads back as that number, is made of decimal digits, and has no zero in front of
/// other digits.
pub proof fn law_decimals_read_back(n: nat)
    ensures
        decimal(n).len() > 0,
        number(decimal(n), 10) == n,
        forall|i: int| 0 <= i < decimal(n).len() ==> '0' <= #[trigger] decimal(n)[i] <= '9',
        n > 0 ==> decimal(n)[0] != '0',
    decreases n,
{
    if n < 10 {
        assert(decimal(n).drop_last() =~= Seq::<char>::empty());
        assert(number(decimal(n).drop_last(), 10) == 0);
    } else {
        law_decimals_read_back(n / 10);
        assert(decimal(n).drop_last() =~= decimal(n / 10));
    }
}

/// A negative number in decimal is its magnitude behind a minus sign; other numbers have no sign.
pub proof fn law_signs_are_told(i: int)
    ensures
        i < 0 ==> decimal_int(i)[0] == '-' && number(decimal_int(i).skip(1), 10) == -i,
        i >= 0 ==> number(decimal_int(i), 10) == i && decimal_int(i)[0] != '-',
{
    if i < 0 {
        law_decimals_read_back((-i) as nat);
        assert(decimal_int(i).skip(1) =~= decimal((-i) as nat));
    } else {
        law_decimals_read_back(i as nat);
    }
}

/// As many hexadecimal digits as are asked for write the number, as far as it fits in them; letters are
/// in lower case.
pub proof fn law_hexadecimals_read_back(n: nat, digits: nat)
    ensures
        hex(n, digits).len() == digits,
        number(hex(n, digits), 16) == n % (vstd::arithmetic::power::pow(16, digits) as nat),
        forall|i: int|
            0 <= i < digits ==> '0' <= #[trigger] hex(n, digits)[i] <= '9' || 'a' <= hex(
                n,
                digits,
            )[i] <= 'f',
    decreases digits,
{
    reveal(vstd::arithmetic::power::pow);
    if digits > 0 {
        let front = (digits - 1) as nat;
        let p = vstd::arithmetic::power::pow(16, front);
        vstd::arithmetic::power::lemma_pow_positive(16, front);
        law_hexadecimals_read_back(n / 16, front);
        assert(hex(n, digits).drop_last() =~= hex(n / 16, front));
        assert(16 * ((n as int / 16) % p) + n as int % 16 == n as int % (16 * p)) by {
            vstd::arithmetic::div_mod::lemma_mod_breakdown(n as int, 16, p);
        }
    }
}

/// Of the characters of ASCII the space and the five controls from the tab to the carriage return are white
/// space, and no others; nothing that is seen is.  Beyond ASCII a further nineteen characters are, all of
/// them blanks, breaks or separators.
pub proof fn law_white_space_is_not_seen(c: char)
    ensures
        c as int <= 0x7f ==> (is_space(c) <==> c as int == 0x20 || 0x09 <= c as int <= 0x0d),
        '!' <= c <= '~' ==> !is_space(c),
        c as int > 0x7f ==> (is_space(c) <==> {
            let n = c as int;
            n == 0x85 || n == 0xa0 || n == 0x1680 || 0x2000 <= n <= 0x200a || n == 0x2028 || n
                == 0x2029 || n == 0x202f || n == 0x205f || n == 0x3000
        }),
{
}

} // verus!
