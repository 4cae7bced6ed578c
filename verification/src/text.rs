//! Text as sequences of characters: searching, case folding and decimal numbers.

use vstd::prelude::*;

verus! {

/// `String::push` appends one character to the end of the string.
pub assume_specification[ String::push ](s: &mut String, ch: char)
    ensures
        final(s)@ == old(s)@.push(ch),
;

/// The characters of `s`, in order.
pub fn to_chars(s: &str) -> (v: Vec<char>)
    ensures
        v@ == s@,
{
    let mut v: Vec<char> = Vec::new();
    for c in it: s.chars()
        invariant
            v@ == it.seq().take(it.index() as int),
            it.seq() == s@,
    {
        v.push(c);
    }
    v
}

/// The string made of the characters `chars[from..to]`.
pub fn to_string(chars: &Vec<char>, from: usize, to: usize) -> (s: String)
    requires
        from <= to <= chars.len(),
    ensures
        s@ == chars@.subrange(from as int, to as int),
{
    let mut s = String::new();
    let mut i: usize = from;
    while i < to
        invariant
            from <= i <= to <= chars.len(),
            s@ == chars@.subrange(from as int, i as int),
        decreases to - i,
    {
        s.push(chars[i]);
        i += 1;
        assert(chars@.subrange(from as int, i as int) == chars@.subrange(
            from as int,
            i as int - 1,
        ).push(chars@[i as int - 1]));
    }
    s
}

/// Whether `a` and `b` hold the same characters.
pub fn chars_eq(a: &Vec<char>, b: &Vec<char>) -> (r: bool)
    ensures
        r == (a@ == b@),
{
    if a.len() != b.len() {
        return false;
    }
    let mut i: usize = 0;
    while i < a.len()
        invariant
            i <= a.len() == b.len(),
            forall|k: int| 0 <= k < i ==> a@[k] == b@[k],
        decreases a.len() - i,
    {
        if a[i] != b[i] {
            return false;
        }
        i += 1;
    }
    assert(a@ =~= b@);
    true
}

/// Whether `a` and `b` are the same text.
pub fn str_eq(a: &str, b: &str) -> (r: bool)
    ensures
        r == (a@ == b@),
{
    chars_eq(&to_chars(a), &to_chars(b))
}

/// `c` with the letters `A` to `Z` mapped to `a` to `z`.
pub open spec fn ascii_lower(c: char) -> char {
    if 'A' <= c <= 'Z' {
        ((c as u8) + 32) as char
    } else {
        c
    }
}

/// `s` with the letters `A` to `Z` mapped to `a` to `z`.
pub open spec fn ascii_lowercase(s: Seq<char>) -> Seq<char> {
    s.map_values(|c: char| ascii_lower(c))
}

/// Whether `pat` occurs in `s` at position `at`.
pub open spec fn occurs_at(s: Seq<char>, pat: Seq<char>, at: int) -> bool {
    0 <= at && at + pat.len() <= s.len() && s.subrange(at, at + pat.len()) == pat
}

/// Whether `pat` occurs somewhere in `s`.
pub open spec fn contains(s: Seq<char>, pat: Seq<char>) -> bool {
    exists|at: int| occurs_at(s, pat, at)
}

/// Whether `s` begins with `pat`.
pub open spec fn starts_with(s: Seq<char>, pat: Seq<char>) -> bool {
    occurs_at(s, pat, 0)
}

/// `c` with the letters `A` to `Z` mapped to `a` to `z`.
pub fn to_ascii_lower(c: char) -> (l: char)
    ensures
        l == ascii_lower(c),
{
    if 'A' <= c && c <= 'Z' {
        ((c as u8) + 32) as char
    } else {
        c
    }
}

/// A copy of `chars` with the letters `A` to `Z` mapped to `a` to `z`.
pub fn to_ascii_lowercase(chars: &Vec<char>) -> (lower: Vec<char>)
    ensures
        lower@ == ascii_lowercase(chars@),
{
    let mut lower: Vec<char> = Vec::new();
    let mut i: usize = 0;
    while i < chars.len()
        invariant
            i <= chars.len(),
            lower@ == ascii_lowercase(chars@.take(i as int)),
        decreases chars.len() - i,
    {
        lower.push(to_ascii_lower(chars[i]));
        i += 1;
        assert(lower@ =~= ascii_lowercase(chars@.take(i as int)));
    }
    assert(chars@.take(i as int) =~= chars@);
    lower
}

/// Whether `pat` occurs in `chars` at position `at`.
pub fn matches_at(chars: &Vec<char>, pat: &Vec<char>, at: usize) -> (b: bool)
    ensures
        b == occurs_at(chars@, pat@, at as int),
{
    if pat.len() > chars.len() || at > chars.len() - pat.len() {
        return false;
    }
    let mut j: usize = 0;
    while j < pat.len()
        invariant
            j <= pat.len(),
            at + pat.len() <= chars.len(),
            forall|k: int| 0 <= k < j ==> chars@[at + k] == pat@[k],
        decreases pat.len() - j,
    {
        if chars[at + j] != pat[j] {
            assert(chars@.subrange(at as int, at + pat.len())[j as int] == chars@[at + j]);
            return false;
        }
        j += 1;
    }
    assert(chars@.subrange(at as int, at + pat.len()) =~= pat@);
    true
}

/// Whether `pat` occurs somewhere in `chars`.
pub fn contains_chars(chars: &Vec<char>, pat: &Vec<char>) -> (b: bool)
    ensures
        b == contains(chars@, pat@),
{
    if pat.len() > chars.len() {
        return false;
    }
    let last: usize = chars.len() - pat.len();
    let mut at: usize = 0;
    loop
        invariant
            last == chars.len() - pat.len(),
            at <= last,
            forall|k: int| 0 <= k < at ==> !occurs_at(chars@, pat@, k),
        decreases last - at,
    {
        if matches_at(chars, pat, at) {
            return true;
        }
        if at == last {
            return false;
        }
        at += 1;
    }
}

/// The decimal digit `d` as a character.
pub open spec fn digit_char(d: nat) -> char
    recommends
        d < 10,
{
    (('0' as u8) + d) as char
}

/// `n` written in decimal, without leading zeros.
pub open spec fn decimal(n: nat) -> Seq<char>
    decreases n,
{
    if n < 10 {
        seq![digit_char(n)]
    } else {
        decimal(n / 10).push(digit_char(n % 10))
    }
}

/// The last `width` decimal digits of `n`, with leading zeros.
pub open spec fn decimal_padded(n: nat, width: nat) -> Seq<char>
    decreases width,
{
    if width == 0 {
        Seq::empty()
    } else {
        decimal_padded(n / 10, (width - 1) as nat).push(digit_char(n % 10))
    }
}

/// The decimal digit `d` as a character.
fn digit(d: u8) -> (c: char)
    requires
        d < 10,
    ensures
        c == digit_char(d as nat),
{
    (48u8 + d) as char
}

/// Appends the characters of `digits` to `s` in reverse order.
fn push_reversed(s: &mut String, digits: &Vec<char>)
    ensures
        final(s)@ == old(s)@ + digits@.reverse(),
{
    let mut i: usize = digits.len();
    while i > 0
        invariant
            i <= digits.len(),
            s@ == old(s)@ + digits@.reverse().take(digits.len() - i),
        decreases i,
    {
        i -= 1;
        s.push(digits[i]);
        assert(s@ =~= old(s)@ + digits@.reverse().take(digits.len() - i));
    }
    assert(digits@.reverse().take(digits.len() as int) =~= digits@.reverse());
}

/// Appends `n` in decimal to `s`.
pub fn push_decimal(s: &mut String, n: u128)
    ensures
        final(s)@ == old(s)@ + decimal(n as nat),
{
    let mut digits: Vec<char> = Vec::new();
    digits.push(digit((n % 10) as u8));
    let mut m: u128 = n / 10;
    while m > 0
        invariant
            digits@.len() > 0,
            decimal(n as nat) == (if m == 0 {
                Seq::<char>::empty()
            } else {
                decimal(m as nat)
            }) + digits@.reverse(),
        decreases m,
    {
        let ghost before = digits@;
        digits.push(digit((m % 10) as u8));
        assert(digits@.reverse() =~= seq![digit_char((m % 10) as nat)] + before.reverse());
        assert(decimal(m as nat) =~= (if m / 10 == 0 {
            Seq::<char>::empty()
        } else {
            decimal((m / 10) as nat)
        }) + seq![digit_char((m % 10) as nat)]);
        m = m / 10;
    }
    push_reversed(s, &digits);
}

/// Appends the last `width` decimal digits of `n` to `s`, with leading zeros.
pub fn push_decimal_padded(s: &mut String, n: u128, width: usize)
    ensures
        final(s)@ == old(s)@ + decimal_padded(n as nat, width as nat),
{
    let mut digits: Vec<char> = Vec::new();
    let mut m: u128 = n;
    let mut i: usize = 0;
    while i < width
        invariant
            i <= width,
            digits@.len() == i,
            decimal_padded(n as nat, width as nat) == decimal_padded(
                m as nat,
                (width - i) as nat,
            ) + digits@.reverse(),
        decreases width - i,
    {
        let ghost before = digits@;
        digits.push(digit((m % 10) as u8));
        assert(digits@.reverse() =~= seq![digit_char((m % 10) as nat)] + before.reverse());
        assert(decimal_padded(m as nat, (width - i) as nat) =~= decimal_padded(
            (m / 10) as nat,
            (width - i - 1) as nat,
        ) + seq![digit_char((m % 10) as nat)]);
        m = m / 10;
        i += 1;
    }
    push_reversed(s, &digits);
}

/// The pieces that `s` falls into where it is cut at every `sep`: one
/// more piece than there are separators, some of them possibly empty.
pub open spec fn split(s: Seq<char>, sep: char) -> Seq<Seq<char>>
    decreases s.len(),
{
    if s.len() == 0 {
        seq![Seq::empty()]
    } else {
        let before = split(s.drop_last(), sep);
        if s.last() == sep {
            before.push(Seq::empty())
        } else {
            before.update(before.len() - 1, before.last().push(s.last()))
        }
    }
}

/// The pieces joined again, with `sep` between each two.
pub open spec fn join(pieces: Seq<Seq<char>>, sep: char) -> Seq<char>
    decreases pieces.len(),
{
    if pieces.len() == 0 {
        Seq::empty()
    } else if pieces.len() == 1 {
        pieces[0]
    } else {
        join(pieces.drop_last(), sep).push(sep) + pieces.last()
    }
}

/// The texts that the vectors hold.
pub open spec fn texts(pieces: Seq<Vec<char>>) -> Seq<Seq<char>> {
    pieces.map_values(|p: Vec<char>| p@)
}

/// Cutting loses nothing: there is at least one piece, no piece holds a
/// separator, and the pieces joined by separators are the text again.
pub proof fn lemma_split_joins(s: Seq<char>, sep: char)
    ensures
        split(s, sep).len() >= 1,
        forall|i: int, j: int|
            0 <= i < split(s, sep).len() && 0 <= j < split(s, sep)[i].len()
                ==> #[trigger] split(s, sep)[i][j] != sep,
        join(split(s, sep), sep) == s,
    decreases s.len(),
{
    if s.len() > 0 {
        let before = split(s.drop_last(), sep);
        lemma_split_joins(s.drop_last(), sep);
        let pieces = split(s, sep);
        if s.last() == sep {
            assert(pieces.drop_last() =~= before);
            assert(join(pieces, sep) =~= s.drop_last().push(sep));
            assert(s.drop_last().push(sep) =~= s);
        } else {
            let grown = before.last().push(s.last());
            assert(pieces.last() == grown);
            if before.len() == 1 {
                assert(join(pieces, sep) =~= s.drop_last().push(s.last()));
            } else {
                assert(pieces.drop_last() =~= before.drop_last());
                assert(join(pieces, sep) =~= join(before, sep).push(s.last()));
            }
            assert(s.drop_last().push(s.last()) =~= s);
            assert forall|i: int, j: int|
                0 <= i < pieces.len() && 0 <= j < pieces[i].len()
                    implies #[trigger] pieces[i][j] != sep by {
                if i < pieces.len() - 1 {
                    assert(pieces[i] == before[i]);
                } else if j < before.last().len() {
                    assert(pieces[i][j] == before[i][j]);
                }
            }
        }
    } else {
        assert(split(s, sep) =~= seq![Seq::<char>::empty()]);
        assert(join(split(s, sep), sep) =~= s);
    }
}

/// How often `c` stands in `s`.
pub open spec fn count(s: Seq<char>, c: char) -> nat
    decreases s.len(),
{
    if s.len() == 0 {
        0
    } else {
        count(s.drop_last(), c) + if s.last() == c {
            1nat
        } else {
            0nat
        }
    }
}

/// There is one more piece than there are separators.
pub proof fn lemma_split_len(s: Seq<char>, sep: char)
    ensures
        split(s, sep).len() == count(s, sep) + 1,
    decreases s.len(),
{
    if s.len() > 0 {
        lemma_split_len(s.drop_last(), sep);
    }
}

/// A text without a separator is one piece.
pub proof fn lemma_split_one(s: Seq<char>, sep: char)
    requires
        forall|i: int| 0 <= i < s.len() ==> s[i] != sep,
    ensures
        split(s, sep) == seq![s],
    decreases s.len(),
{
    if s.len() > 0 {
        lemma_split_one(s.drop_last(), sep);
        assert(split(s, sep) =~= seq![s]) by {
            assert(s.drop_last().push(s.last()) =~= s);
        }
    } else {
        assert(s =~= Seq::<char>::empty());
    }
}

/// A text with a separator between two parts falls into the pieces of
/// the one part and then the pieces of the other.
pub proof fn lemma_split_concat(x: Seq<char>, y: Seq<char>, sep: char)
    ensures
        split(x + seq![sep] + y, sep) == split(x, sep) + split(y, sep),
    decreases y.len(),
{
    lemma_split_len(x, sep);
    lemma_split_len(y, sep);
    let whole = x + seq![sep] + y;
    if y.len() == 0 {
        assert(whole.drop_last() =~= x);
        assert(split(whole, sep) =~= split(x, sep) + split(y, sep));
    } else {
        let shorter = y.drop_last();
        lemma_split_concat(x, shorter, sep);
        lemma_split_len(shorter, sep);
        assert(whole.drop_last() =~= x + seq![sep] + shorter);
        assert(whole.last() == y.last());
        assert(split(whole, sep) =~= split(x, sep) + split(y, sep));
    }
}

/// Cutting undoes joining: pieces that hold no separator, joined by
/// separators and cut again, are the pieces that were joined.
pub proof fn lemma_split_of_join(pieces: Seq<Seq<char>>, sep: char)
    requires
        pieces.len() >= 1,
        forall|i: int, j: int|
            0 <= i < pieces.len() && 0 <= j < pieces[i].len() ==> #[trigger] pieces[i][j] != sep,
    ensures
        split(join(pieces, sep), sep) == pieces,
    decreases pieces.len(),
{
    if pieces.len() == 1 {
        assert forall|j: int| 0 <= j < pieces[0].len() implies pieces[0][j] != sep by {
            assert(pieces[0][j] != sep);
        }
        lemma_split_one(pieces[0], sep);
        assert(seq![pieces[0]] =~= pieces);
    } else {
        let front = pieces.drop_last();
        let last = pieces.last();
        assert forall|i: int, j: int|
            0 <= i < front.len() && 0 <= j < front[i].len() implies #[trigger] front[i][j]
            != sep by {
            assert(front[i] == pieces[i]);
            assert(pieces[i][j] != sep);
        }
        lemma_split_of_join(front, sep);
        assert forall|j: int| 0 <= j < last.len() implies last[j] != sep by {
            assert(pieces[pieces.len() - 1][j] != sep);
        }
        lemma_split_one(last, sep);
        lemma_split_concat(join(front, sep), last, sep);
        assert(join(pieces, sep) =~= join(front, sep) + seq![sep] + last);
        assert(front + seq![last] =~= pieces);
    }
}

/// The pieces that `chars` falls into where it is cut at every `sep`.
pub fn split_chars(chars: &Vec<char>, sep: char) -> (pieces: Vec<Vec<char>>)
    ensures
        texts(pieces@) == split(chars@, sep),
{
    let mut pieces: Vec<Vec<char>> = Vec::new();
    let mut current: Vec<char> = Vec::new();
    let mut i: usize = 0;
    assert(texts(pieces@).push(current@) =~= split(chars@.take(0), sep));
    while i < chars.len()
        invariant
            i <= chars.len(),
            texts(pieces@).push(current@) == split(chars@.take(i as int), sep),
        decreases chars.len() - i,
    {
        let ghost before = texts(pieces@).push(current@);
        assert(chars@.take(i + 1).drop_last() =~= chars@.take(i as int));
        let c = chars[i];
        if c == sep {
            pieces.push(current);
            current = Vec::new();
            assert(texts(pieces@).push(current@) =~= before.push(Seq::empty()));
        } else {
            current.push(c);
            assert(texts(pieces@).push(current@) =~= before.update(
                before.len() - 1,
                before.last().push(c),
            ));
        }
        i += 1;
    }
    assert(chars@.take(i as int) =~= chars@);
    let ghost done = texts(pieces@).push(current@);
    pieces.push(current);
    assert(texts(pieces@) =~= done);
    pieces
}

/// `line` without the carriage return at its end, if it has one.
pub open spec fn strip_cr(line: Seq<char>) -> Seq<char> {
    if line.len() > 0 && line.last() == '\r' {
        line.drop_last()
    } else {
        line
    }
}

/// The lines of `s`. A line ends at a line feed, or at a carriage return
/// with a line feed after it; neither belongs to the line. What follows
/// the last line feed is a line too, unless it is empty.
pub open spec fn lines(s: Seq<char>) -> Seq<Seq<char>> {
    let pieces = split(s, '\n');
    if pieces.last().len() == 0 {
        ended_lines(pieces)
    } else {
        ended_lines(pieces).push(pieces.last())
    }
}

/// The lines that end in a line feed, given the pieces between the line
/// feeds: every piece but the last, without the carriage return at its end.
pub open spec fn ended_lines(pieces: Seq<Seq<char>>) -> Seq<Seq<char>> {
    pieces.drop_last().map_values(|l: Seq<char>| strip_cr(l))
}

/// The lines of `chars`.
pub fn split_lines(chars: &Vec<char>) -> (ls: Vec<Vec<char>>)
    ensures
        texts(ls@) == lines(chars@),
{
    let pieces = split_chars(chars, '\n');
    proof {
        lemma_split_joins(chars@, '\n');
    }
    let ghost ps = texts(pieces@);
    let count = pieces.len() - 1;
    let mut ls: Vec<Vec<char>> = Vec::new();
    let mut i: usize = 0;
    while i < count
        invariant
            i <= count == pieces.len() - 1,
            ps == texts(pieces@),
            texts(ls@) == ended_lines(ps).take(i as int),
        decreases count - i,
    {
        let piece = &pieces[i];
        assert(ps[i as int] == piece@);
        let mut end = piece.len();
        if end > 0 && piece[end - 1] == '\r' {
            end = end - 1;
        }
        let mut line: Vec<char> = Vec::new();
        let mut k: usize = 0;
        while k < end
            invariant
                k <= end <= piece.len(),
                line@ == piece@.take(k as int),
            decreases end - k,
        {
            line.push(piece[k]);
            k += 1;
            assert(line@ =~= piece@.take(k as int));
        }
        assert(line@ =~= strip_cr(piece@));
        let ghost before = texts(ls@);
        ls.push(line);
        i += 1;
        assert(texts(ls@) =~= before.push(line@));
        assert(ended_lines(ps)[i - 1] == strip_cr(ps[i - 1]));
        assert(ended_lines(ps).take(i as int) =~= ended_lines(ps).take(i - 1).push(
            ended_lines(ps)[i - 1],
        ));
    }
    assert(ended_lines(ps).take(i as int) =~= ended_lines(ps));
    let last = &pieces[count];
    assert(ps.last() == last@);
    if last.len() > 0 {
        let ghost before = texts(ls@);
        let mut line: Vec<char> = Vec::new();
        let mut k: usize = 0;
        while k < last.len()
            invariant
                k <= last.len(),
                line@ == last@.take(k as int),
            decreases last.len() - k,
        {
            line.push(last[k]);
            k += 1;
            assert(line@ =~= last@.take(k as int));
        }
        assert(line@ =~= last@);
        ls.push(line);
        assert(texts(ls@) =~= before.push(last@));
    }
    ls
}

/// Whether `c` is white space: a space, a tab, a line break or one of the
/// other characters that Unicode counts as white space.
pub open spec fn is_space(c: char) -> bool {
    let u = c as u32;
    (0x09 <= u <= 0x0d) || u == 0x20 || u == 0x85 || u == 0xa0 || u == 0x1680 || (0x2000 <= u
        <= 0x200a) || u == 0x2028 || u == 0x2029 || u == 0x202f || u == 0x205f || u == 0x3000
}

/// `s` without the white space at its start.
pub open spec fn trim_start(s: Seq<char>) -> Seq<char>
    decreases s.len(),
{
    if s.len() > 0 && is_space(s.first()) {
        trim_start(s.drop_first())
    } else {
        s
    }
}

/// `s` without the white space at its end.
pub open spec fn trim_end(s: Seq<char>) -> Seq<char>
    decreases s.len(),
{
    if s.len() > 0 && is_space(s.last()) {
        trim_end(s.drop_last())
    } else {
        s
    }
}

/// `s` without the white space at its start and at its end.
pub open spec fn trim(s: Seq<char>) -> Seq<char> {
    trim_end(trim_start(s))
}

/// The words of `s`: the longest runs of characters that are no white
/// space, in order.
pub open spec fn words(s: Seq<char>) -> Seq<Seq<char>>
    decreases s.len(),
{
    if s.len() == 0 {
        Seq::empty()
    } else {
        let before = words(s.drop_last());
        if is_space(s.last()) {
            before
        } else if s.len() >= 2 && !is_space(s[s.len() - 2]) {
            before.update(before.len() - 1, before.last().push(s.last()))
        } else {
            before.push(seq![s.last()])
        }
    }
}

/// Every word holds a character, and none holds white space.
pub proof fn lemma_words(s: Seq<char>)
    ensures
        forall|i: int| 0 <= i < words(s).len() ==> (#[trigger] words(s)[i]).len() > 0,
        forall|i: int, j: int|
            0 <= i < words(s).len() && 0 <= j < words(s)[i].len() ==> !is_space(
                #[trigger] words(s)[i][j],
            ),
        (s.len() > 0 && !is_space(s.last())) ==> words(s).len() > 0,
    decreases s.len(),
{
    if s.len() > 0 {
        let before = words(s.drop_last());
        let ws = words(s);
        lemma_words(s.drop_last());
        if !is_space(s.last()) {
            if s.len() >= 2 && !is_space(s[s.len() - 2]) {
                assert(s.drop_last().last() == s[s.len() - 2]);
                assert forall|i: int, j: int|
                    0 <= i < ws.len() && 0 <= j < ws[i].len() implies !is_space(
                    #[trigger] ws[i][j],
                ) by {
                    if i < ws.len() - 1 {
                        assert(ws[i] == before[i]);
                    } else if j < before.last().len() {
                        assert(ws[i][j] == before[i][j]);
                    }
                }
                assert forall|i: int| 0 <= i < ws.len() implies (#[trigger] ws[i]).len() > 0 by {
                    if i < ws.len() - 1 {
                        assert(ws[i] == before[i]);
                    }
                }
            } else {
                assert forall|i: int, j: int|
                    0 <= i < ws.len() && 0 <= j < ws[i].len() implies !is_space(
                    #[trigger] ws[i][j],
                ) by {
                    if i < ws.len() - 1 {
                        assert(ws[i] == before[i]);
                    }
                }
                assert forall|i: int| 0 <= i < ws.len() implies (#[trigger] ws[i]).len() > 0 by {
                    if i < ws.len() - 1 {
                        assert(ws[i] == before[i]);
                    }
                }
            }
        }
    }
}

/// What is left of `s` after trimming is a part of `s` in one piece, and
/// it neither begins nor ends with white space.
pub proof fn lemma_trim(s: Seq<char>)
    ensures
        exists|from: int, to: int|
            0 <= from <= to <= s.len() && trim(s) == #[trigger] s.subrange(from, to),
        trim(s).len() > 0 ==> !is_space(trim(s).first()) && !is_space(trim(s).last()),
{
    lemma_trim_start(s);
    let from = choose|from: int| 0 <= from <= s.len() && trim_start(s) == s.subrange(from, s.len() as int) && (trim_start(s).len() > 0 ==> !is_space(trim_start(s).first()));
    let t = trim_start(s);
    lemma_trim_end(t);
    let to = choose|to: int| 0 <= to <= t.len() && trim_end(t) == t.subrange(0, to) && (trim_end(t).len() > 0 ==> !is_space(trim_end(t).last()));
    assert(trim(s) =~= s.subrange(from, from + to));
    if trim(s).len() > 0 {
        assert(trim(s).first() == t.first());
    }
}

/// Trimming the start leaves the end of `s`, which does not begin with
/// white space.
proof fn lemma_trim_start(s: Seq<char>)
    ensures
        exists|from: int|
            0 <= from <= s.len() && trim_start(s) == #[trigger] s.subrange(from, s.len() as int)
                && (trim_start(s).len() > 0 ==> !is_space(trim_start(s).first())),
    decreases s.len(),
{
    if s.len() > 0 && is_space(s.first()) {
        let rest = s.drop_first();
        lemma_trim_start(rest);
        let from = choose|from: int|
            0 <= from <= rest.len() && trim_start(rest) == #[trigger] rest.subrange(
                from,
                rest.len() as int,
            ) && (trim_start(rest).len() > 0 ==> !is_space(trim_start(rest).first()));
        assert(rest.subrange(from, rest.len() as int) =~= s.subrange(from + 1, s.len() as int));
    } else {
        assert(s =~= s.subrange(0, s.len() as int));
    }
}

/// Trimming the end leaves the start of `s`, which does not end with
/// white space.
proof fn lemma_trim_end(s: Seq<char>)
    ensures
        exists|to: int|
            0 <= to <= s.len() && trim_end(s) == #[trigger] s.subrange(0, to) && (trim_end(
                s,
            ).len() > 0 ==> !is_space(trim_end(s).last())),
    decreases s.len(),
{
    if s.len() > 0 && is_space(s.last()) {
        let rest = s.drop_last();
        lemma_trim_end(rest);
        let to = choose|to: int|
            0 <= to <= rest.len() && trim_end(rest) == #[trigger] rest.subrange(0, to) && (
            trim_end(rest).len() > 0 ==> !is_space(trim_end(rest).last()));
        assert(rest.subrange(0, to) =~= s.subrange(0, to));
    } else {
        assert(s =~= s.subrange(0, s.len() as int));
    }
}

/// Whether `c` is white space.
pub fn is_whitespace(c: char) -> (b: bool)
    ensures
        b == is_space(c),
{
    let u = c as u32;
    (0x09 <= u && u <= 0x0d) || u == 0x20 || u == 0x85 || u == 0xa0 || u == 0x1680 || (0x2000
        <= u && u <= 0x200a) || u == 0x2028 || u == 0x2029 || u == 0x202f || u == 0x205f || u
        == 0x3000
}

/// `chars` without the white space at its start and at its end.
pub fn trim_chars(chars: &Vec<char>) -> (trimmed: Vec<char>)
    ensures
        trimmed@ == trim(chars@),
{
    let mut from: usize = 0;
    assert(chars@.skip(0) =~= chars@);
    while from < chars.len() && is_whitespace(chars[from])
        invariant
            from <= chars.len(),
            trim_start(chars@) == trim_start(chars@.skip(from as int)),
        decreases chars.len() - from,
    {
        assert(chars@.skip(from as int).drop_first() =~= chars@.skip(from + 1));
        from += 1;
    }
    assert(trim_start(chars@) == chars@.skip(from as int)) by {
        if from < chars.len() {
            assert(chars@.skip(from as int).first() == chars@[from as int]);
        }
    }
    let mut to: usize = chars.len();
    while to > from && is_whitespace(chars[to - 1])
        invariant
            from <= to <= chars.len(),
            trim(chars@) == trim_end(chars@.subrange(from as int, to as int)),
        decreases to,
    {
        assert(chars@.subrange(from as int, to as int).drop_last() =~= chars@.subrange(
            from as int,
            to - 1,
        ));
        to -= 1;
    }
    assert(trim(chars@) == chars@.subrange(from as int, to as int)) by {
        if to > from {
            assert(chars@.subrange(from as int, to as int).last() == chars@[to - 1]);
        }
    }
    let mut trimmed: Vec<char> = Vec::new();
    let mut i: usize = from;
    while i < to
        invariant
            from <= i <= to <= chars.len(),
            trimmed@ == chars@.subrange(from as int, i as int),
        decreases to - i,
    {
        trimmed.push(chars[i]);
        i += 1;
        assert(trimmed@ =~= chars@.subrange(from as int, i as int));
    }
    trimmed
}

/// The words of `chars`.
pub fn split_words(chars: &Vec<char>) -> (ws: Vec<Vec<char>>)
    ensures
        texts(ws@) == words(chars@),
{
    let mut ws: Vec<Vec<char>> = Vec::new();
    let mut current: Vec<char> = Vec::new();
    let mut i: usize = 0;
    while i < chars.len()
        invariant
            i <= chars.len(),
            words(chars@.take(i as int)) == (if current@.len() > 0 {
                texts(ws@).push(current@)
            } else {
                texts(ws@)
            }),
            current@.len() > 0 <==> (i > 0 && !is_space(chars@[i - 1])),
        decreases chars.len() - i,
    {
        let ghost before = texts(ws@);
        let ghost word = current@;
        let ghost prefix = chars@.take(i + 1);
        assert(prefix.drop_last() =~= chars@.take(i as int));
        assert(i > 0 ==> prefix[prefix.len() - 2] == chars@[i - 1]);
        let c = chars[i];
        if is_whitespace(c) {
            if current.len() > 0 {
                ws.push(current);
                current = Vec::new();
                assert(texts(ws@) =~= before.push(word));
            }
        } else {
            current.push(c);
            proof {
                if word.len() > 0 {
                    assert(before.push(current@) =~= before.push(word).update(
                        before.len() as int,
                        word.push(c),
                    ));
                } else {
                    assert(current@ =~= seq![c]);
                }
            }
        }
        i += 1;
    }
    assert(chars@.take(i as int) =~= chars@);
    if current.len() > 0 {
        let ghost before = texts(ws@);
        let ghost word = current@;
        ws.push(current);
        assert(texts(ws@) =~= before.push(word));
    }
    ws
}

/// Whether `chars` begins with the text `pat`.
pub fn starts_with_str(chars: &Vec<char>, pat: &str) -> (b: bool)
    ensures
        b == starts_with(chars@, pat@),
{
    matches_at(chars, &to_chars(pat), 0)
}

/// Whether `chars` is the text `s`.
pub fn chars_eq_str(chars: &Vec<char>, s: &str) -> (b: bool)
    ensures
        b == (chars@ == s@),
{
    chars_eq(chars, &to_chars(s))
}

} // verus!
