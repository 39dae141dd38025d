use vstd::prelude::*;

verus! {

broadcast use vstd::string::group_string_axioms;

/// Appends one character to a string (std `String::push`).
#[verifier::external_body]
pub(crate) fn push_char(s: &mut String, c: char)
    ensures
        final(s)@ == old(s)@.push(c),
{
    s.push(c);
}

/// True when two character vectors hold the same characters.
pub fn chars_eq(a: &Vec<char>, b: &Vec<char>) -> (r: bool)
    ensures
        r == (a@ == b@),
{
    if a.len() != b.len() {
        return false;
    }
    let mut i: usize = 0;
    while i < a.len()
        invariant
            a@.len() == b@.len(),
            i <= a@.len(),
            forall|j: int| 0 <= j < i ==> a@[j] == b@[j],
        decreases a@.len() - i,
    {
        if a[i] != b[i] {
            return false;
        }
        i = i + 1;
    }
    assert(a@ =~= b@);
    true
}

/// The characters `from..to` of a character vector.
pub fn sub_chars(v: &Vec<char>, from: usize, to: usize) -> (r: Vec<char>)
    requires
        from <= to <= v@.len(),
    ensures
        r@ == v@.subrange(from as int, to as int),
{
    let mut r: Vec<char> = Vec::new();
    let mut i = from;
    while i < to
        invariant
            from <= i <= to <= v@.len(),
            r@ == v@.subrange(from as int, i as int),
        decreases to - i,
    {
        r.push(v[i]);
        i = i + 1;
        assert(r@ =~= v@.subrange(from as int, i as int));
    }
    r
}

/// The characters of a string slice, in order.
pub fn chars_of(s: &str) -> (v: Vec<char>)
    ensures
        v@ == s@,
{
    let mut v: Vec<char> = Vec::new();
    for c in it: s.chars()
        invariant
            v@ == it.seq().take(it.index()),
    {
        v.push(c);
    }
    v
}

/// A string holding exactly the given characters.
pub fn string_of(chars: &Vec<char>) -> (s: String)
    ensures
        s@ == chars@,
{
    let mut s = String::new();
    let mut i: usize = 0;
    while i < chars.len()
        invariant
            i <= chars.len(),
            s@ == chars@.take(i as int),
        decreases chars.len() - i,
    {
        push_char(&mut s, chars[i]);
        assert(chars@.take(i as int).push(chars@[i as int]) == chars@.take(i + 1));
        i = i + 1;
    }
    assert(chars@.take(chars.len() as int) == chars@);
    s
}

/// True for characters with the Unicode `White_Space` property (what
/// `char::is_whitespace` tests).
pub open spec fn is_whitespace(c: char) -> bool {
    let v = c as u32;
    ||| 0x09 <= v <= 0x0d
    ||| v == 0x20 || v == 0x85 || v == 0xa0 || v == 0x1680
    ||| 0x2000 <= v <= 0x200a
    ||| v == 0x2028 || v == 0x2029 || v == 0x202f || v == 0x205f || v == 0x3000
}

/// Whether a character has the Unicode `White_Space` property.
pub fn char_is_whitespace(c: char) -> (r: bool)
    ensures
        r == is_whitespace(c),
{
    let v = c as u32;
    (0x09 <= v && v <= 0x0d) || v == 0x20 || v == 0x85 || v == 0xa0 || v == 0x1680 || (0x2000 <= v
        && v <= 0x200a) || v == 0x2028 || v == 0x2029 || v == 0x202f || v == 0x205f || v == 0x3000
}

/// `s` without its leading whitespace.
pub open spec fn trim_start_spec(s: Seq<char>) -> Seq<char>
    decreases s.len(),
{
    if s.len() > 0 && is_whitespace(s[0]) {
        trim_start_spec(s.drop_first())
    } else {
        s
    }
}

/// `s` without its trailing whitespace.
pub open spec fn trim_end_spec(s: Seq<char>) -> Seq<char>
    decreases s.len(),
{
    if s.len() > 0 && is_whitespace(s.last()) {
        trim_end_spec(s.drop_last())
    } else {
        s
    }
}

/// `s` without leading and trailing whitespace (what `str::trim` returns).
pub open spec fn trim_spec(s: Seq<char>) -> Seq<char> {
    trim_end_spec(trim_start_spec(s))
}

/// The characters of `v` without leading and trailing whitespace.
pub fn trim_chars(v: &Vec<char>) -> (r: Vec<char>)
    ensures
        r@ == trim_spec(v@),
{
    let n = v.len();
    let mut start: usize = 0;
    assert(v@.subrange(0, n as int) =~= v@);
    while start < n && char_is_whitespace(v[start])
        invariant
            start <= n == v@.len(),
            trim_start_spec(v@) == trim_start_spec(v@.subrange(start as int, n as int)),
        decreases n - start,
    {
        assert(v@.subrange(start as int, n as int).drop_first() =~= v@.subrange(start + 1, n as int));
        start = start + 1;
    }
    assert(trim_start_spec(v@) == v@.subrange(start as int, n as int)) by {
        assert(v@.subrange(0, n as int) =~= v@);
    }
    let mut end: usize = n;
    while end > start && char_is_whitespace(v[end - 1])
        invariant
            start <= end <= n == v@.len(),
            trim_start_spec(v@) == v@.subrange(start as int, n as int),
            trim_spec(v@) == trim_end_spec(v@.subrange(start as int, end as int)),
        decreases end,
    {
        assert(v@.subrange(start as int, end as int).drop_last() =~= v@.subrange(start as int, end - 1));
        end = end - 1;
    }
    sub_chars(v, start, end)
}

/// The pieces of `s` between occurrences of `sep` (what `str::split` yields
/// for a character pattern): one more piece than separators, empty ones kept.
pub open spec fn split_spec(s: Seq<char>, sep: char) -> Seq<Seq<char>>
    decreases s.len(),
{
    match first_index_of(s, sep) {
        None => seq![s],
        Some(k) => if 0 <= k < s.len() {
            seq![s.subrange(0, k)] + split_spec(s.subrange(k + 1, s.len() as int), sep)
        } else {
            seq![s]
        },
    }
}

/// The index of the first `c` in `s`, if any.
pub open spec fn first_index_of(s: Seq<char>, c: char) -> Option<int>
    decreases s.len(),
{
    if s.len() == 0 {
        None
    } else if s[0] == c {
        Some(0)
    } else {
        match first_index_of(s.drop_first(), c) {
            Some(k) => Some(k + 1),
            None => None,
        }
    }
}

/// A found index is in bounds, holds `c`, and no earlier index does.
pub proof fn lemma_first_index_of(s: Seq<char>, c: char)
    ensures
        first_index_of(s, c) matches Some(k) ==> 0 <= k < s.len() && s[k] == c
            && forall|j: int| 0 <= j < k ==> s[j] != c,
        first_index_of(s, c) is None ==> forall|j: int| 0 <= j < s.len() ==> s[j] != c,
    decreases s.len(),
{
    if s.len() > 0 && s[0] != c {
        lemma_first_index_of(s.drop_first(), c);
        assert forall|j: int| 1 <= j < s.len() implies s[j] == s.drop_first()[j - 1] by {}
    }
}

/// Searching a text that starts with `p` finds the first `c` of `p`, or, when
/// `p` has none, the first `c` after it.
pub proof fn lemma_first_index_of_append(p: Seq<char>, r: Seq<char>, c: char)
    ensures
        first_index_of(p, c) is Some ==> first_index_of(p + r, c) == first_index_of(p, c),
        first_index_of(p, c) is None ==> first_index_of(p + r, c) == (match first_index_of(r, c) {
            Some(k) => Some(k + p.len()),
            None => None::<int>,
        }),
    decreases p.len(),
{
    if p.len() == 0 {
        assert(p + r =~= r);
    } else {
        assert((p + r).drop_first() =~= p.drop_first() + r);
        assert((p + r)[0] == p[0]);
        lemma_first_index_of_append(p.drop_first(), r, c);
    }
}

/// Splitting a text whose first part ends with the separator splits the two
/// parts apart.
pub proof fn lemma_split_concat(p: Seq<char>, r: Seq<char>, sep: char)
    requires
        p.len() > 0,
        p.last() == sep,
    ensures
        split_spec(p + r, sep) == split_spec(p, sep).drop_last() + split_spec(r, sep),
    decreases p.len(),
{
    lemma_first_index_of(p, sep);
    if first_index_of(p, sep) is None {
        assert(p[p.len() - 1] == sep);
    }
    let k = first_index_of(p, sep)->Some_0;
    lemma_first_index_of_append(p, r, sep);
    assert((p + r).subrange(0, k) =~= p.subrange(0, k));
    let rest = p.subrange(k + 1, p.len() as int);
    assert((p + r).subrange(k + 1, (p + r).len() as int) =~= rest + r);
    if k == p.len() - 1 {
        assert(rest =~= Seq::<char>::empty());
        assert(rest + r =~= r);
        lemma_first_index_of(rest, sep);
        assert(split_spec(rest, sep) == seq![rest]);
        assert((seq![p.subrange(0, k)] + seq![rest]).drop_last() =~= seq![p.subrange(0, k)]);
    } else {
        assert(rest.last() == sep);
        lemma_split_concat(rest, r, sep);
        lemma_split_nonempty(rest, sep);
        assert((seq![p.subrange(0, k)] + split_spec(rest, sep)).drop_last()
            =~= seq![p.subrange(0, k)] + split_spec(rest, sep).drop_last());
        assert(seq![p.subrange(0, k)] + (split_spec(rest, sep).drop_last() + split_spec(r, sep))
            =~= seq![p.subrange(0, k)] + split_spec(rest, sep).drop_last() + split_spec(r, sep));
    }
}

/// Splitting yields at least one piece.
pub proof fn lemma_split_nonempty(s: Seq<char>, sep: char)
    ensures
        split_spec(s, sep).len() >= 1,
    decreases s.len(),
{
    lemma_first_index_of(s, sep);
    if let Some(k) = first_index_of(s, sep) {
        lemma_split_nonempty(s.subrange(k + 1, s.len() as int), sep);
    }
}

/// The pieces of `v` between occurrences of `sep`.
pub fn split_chars(v: &Vec<char>, sep: char) -> (r: Vec<Vec<char>>)
    ensures
        r@.map_values(|p: Vec<char>| p@) == split_spec(v@, sep),
{
    let n = v.len();
    let mut pieces: Vec<Vec<char>> = Vec::new();
    let mut start: usize = 0;
    let mut i: usize = 0;
    assert(v@.subrange(0, n as int) =~= v@);
    assert(pieces@.map_values(|p: Vec<char>| p@) + split_spec(v@, sep) =~= split_spec(v@, sep));
    while i < n
        invariant
            start <= i <= n == v@.len(),
            forall|j: int| start <= j < i ==> v@[j] != sep,
            split_spec(v@, sep) == pieces@.map_values(|p: Vec<char>| p@) + split_spec(
                v@.subrange(start as int, n as int),
                sep,
            ),
        decreases n - i,
    {
        if v[i] == sep {
            let ghost rest = v@.subrange(start as int, n as int);
            proof {
                lemma_first_index_of(rest, sep);
                assert(rest[i - start] == sep);
                if let Some(k) = first_index_of(rest, sep) {
                    assert(k == i - start);
                }
                assert(rest.subrange(0, i - start) =~= v@.subrange(start as int, i as int));
                assert(rest.subrange(i - start + 1, rest.len() as int) =~= v@.subrange(i + 1, n as int));
            }
            let piece = sub_chars(v, start, i);
            let ghost before = pieces@.map_values(|p: Vec<char>| p@);
            pieces.push(piece);
            assert(pieces@.map_values(|p: Vec<char>| p@) =~= before.push(piece@));
            assert(before + split_spec(rest, sep) =~= before.push(piece@) + split_spec(
                v@.subrange(i + 1, n as int),
                sep,
            ));
            start = i + 1;
        }
        i = i + 1;
    }
    let ghost rest = v@.subrange(start as int, n as int);
    proof {
        lemma_first_index_of(rest, sep);
        if let Some(k) = first_index_of(rest, sep) {
            assert(rest[k] == v@[start + k]);
        }
    }
    let piece = sub_chars(v, start, n);
    let ghost before = pieces@.map_values(|p: Vec<char>| p@);
    pieces.push(piece);
    assert(pieces@.map_values(|p: Vec<char>| p@) =~= before + seq![piece@]);
    pieces
}

/// True when `r` is a range of `v` within `bound` holding exactly `piece`.
pub open spec fn range_holds(v: Seq<char>, r: (usize, usize), piece: Seq<char>, bound: int) -> bool {
    r.0 <= r.1 <= bound && v.subrange(r.0 as int, r.1 as int) == piece
}

/// The pieces of `v` between occurrences of `sep`, as index ranges into `v`.
pub fn split_ranges(v: &Vec<char>, sep: char) -> (r: Vec<(usize, usize)>)
    ensures
        r@.len() == split_spec(v@, sep).len(),
        forall|k: int| 0 <= k < r@.len() ==> range_holds(v@, #[trigger] r@[k], split_spec(v@, sep)[k], v@.len() as int),
{
    let n = v.len();
    let mut pieces: Vec<(usize, usize)> = Vec::new();
    let mut start: usize = 0;
    let mut i: usize = 0;
    let ghost mut done: Seq<Seq<char>> = seq![];
    assert(v@.subrange(0, n as int) =~= v@);
    assert(done + split_spec(v@, sep) =~= split_spec(v@, sep));
    while i < n
        invariant
            start <= i <= n == v@.len(),
            forall|j: int| start <= j < i ==> v@[j] != sep,
            split_spec(v@, sep) == done + split_spec(v@.subrange(start as int, n as int), sep),
            pieces@.len() == done.len(),
            forall|k: int| 0 <= k < pieces@.len() ==> range_holds(v@, #[trigger] pieces@[k], done[k], start as int),
        decreases n - i,
    {
        if v[i] == sep {
            let ghost rest = v@.subrange(start as int, n as int);
            proof {
                lemma_first_index_of(rest, sep);
                assert(rest[i - start] == sep);
                if let Some(k) = first_index_of(rest, sep) {
                    assert(k == i - start);
                }
                assert(rest.subrange(0, i - start) =~= v@.subrange(start as int, i as int));
                assert(rest.subrange(i - start + 1, rest.len() as int) =~= v@.subrange(i + 1, n as int));
            }
            let ghost piece = v@.subrange(start as int, i as int);
            let ghost old_pieces = pieces@;
            let ghost old_done = done;
            pieces.push((start, i));
            proof {
                assert(done + split_spec(rest, sep) =~= done.push(piece) + split_spec(v@.subrange(i + 1, n as int), sep));
                done = done.push(piece);
                assert forall|k: int| 0 <= k < pieces@.len() implies range_holds(v@, #[trigger] pieces@[k], done[k], i + 1) by {
                    if k < old_pieces.len() {
                        assert(pieces@[k] == old_pieces[k]);
                        assert(done[k] == old_done[k]);
                        assert(range_holds(v@, old_pieces[k], old_done[k], start as int));
                    }
                }
            }
            start = i + 1;
        }
        i = i + 1;
    }
    let ghost rest = v@.subrange(start as int, n as int);
    proof {
        lemma_first_index_of(rest, sep);
        if let Some(k) = first_index_of(rest, sep) {
            assert(rest[k] == v@[start + k]);
        }
        assert(done + split_spec(rest, sep) =~= done.push(rest));
    }
    let ghost old_pieces = pieces@;
    pieces.push((start, n));
    proof {
        let full = done.push(rest);
        assert(split_spec(v@, sep) == full);
        assert forall|k: int| 0 <= k < pieces@.len() implies range_holds(v@, #[trigger] pieces@[k], split_spec(v@, sep)[k], v@.len() as int) by {
            if k < old_pieces.len() {
                assert(pieces@[k] == old_pieces[k]);
                assert(full[k] == done[k]);
                assert(range_holds(v@, old_pieces[k], done[k], start as int));
            }
        }
    }
    pieces
}

/// The ASCII lowercase of a character; other characters are unchanged.
pub open spec fn ascii_lower(c: char) -> char {
    if 'A' <= c <= 'Z' {
        ((c as u32) + 32) as char
    } else {
        c
    }
}

/// The ASCII lowercase of a character.
pub fn char_ascii_lower(c: char) -> (r: char)
    ensures
        r == ascii_lower(c),
{
    if 'A' <= c && c <= 'Z' {
        ((c as u8) + 32) as char
    } else {
        c
    }
}

/// True for `0`..`9`.
pub open spec fn is_ascii_digit(c: char) -> bool {
    '0' <= c <= '9'
}

/// The number written by decimal digits.
pub open spec fn digits_value(s: Seq<char>) -> int
    decreases s.len(),
{
    if s.len() == 0 {
        0
    } else {
        digits_value(s.drop_last()) * 10 + (s.last() as int - '0' as int)
    }
}

/// The digits of an unsigned literal: an optional leading `+` is dropped.
pub open spec fn unsigned_digits(s: Seq<char>) -> Seq<char> {
    if s.len() > 0 && s[0] == '+' {
        s.drop_first()
    } else {
        s
    }
}

/// What parsing `s` as an unsigned integer of at most `max` gives (the rule of
/// `str::parse` for unsigned integers): an optional `+`, then one or more
/// decimal digits whose value fits.
pub open spec fn parse_unsigned_spec(s: Seq<char>, max: int) -> Option<int> {
    let d = unsigned_digits(s);
    if d.len() > 0 && (forall|i: int| 0 <= i < d.len() ==> is_ascii_digit(#[trigger] d[i]))
        && digits_value(d) <= max {
        Some(digits_value(d))
    } else {
        None
    }
}

/// Adding digits never makes a decimal number smaller.
pub proof fn lemma_digits_value_grows(s: Seq<char>, k: int)
    requires
        0 <= k <= s.len(),
        forall|i: int| 0 <= i < s.len() ==> is_ascii_digit(#[trigger] s[i]),
    ensures
        digits_value(s.subrange(0, k)) <= digits_value(s),
        0 <= digits_value(s.subrange(0, k)),
    decreases s.len() - k,
{
    if k < s.len() {
        lemma_digits_value_grows(s, k + 1);
        assert(s.subrange(0, k + 1).drop_last() =~= s.subrange(0, k));
        assert(is_ascii_digit(s[k]));
    } else {
        assert(s.subrange(0, k) =~= s);
        lemma_digits_nonnegative(s);
    }
}

/// Decimal digits denote a nonnegative number.
pub proof fn lemma_digits_nonnegative(s: Seq<char>)
    requires
        forall|i: int| 0 <= i < s.len() ==> is_ascii_digit(#[trigger] s[i]),
    ensures
        0 <= digits_value(s),
    decreases s.len(),
{
    if s.len() > 0 {
        let d = s.drop_last();
        assert forall|i: int| 0 <= i < d.len() implies is_ascii_digit(#[trigger] d[i]) by {
            assert(d[i] == s[i]);
        }
        lemma_digits_nonnegative(d);
        assert(is_ascii_digit(s[s.len() - 1]));
    }
}

/// Parses an unsigned decimal integer of at most `max`.
pub fn parse_unsigned(s: &str, max: u64) -> (r: Option<u64>)
    ensures
        r matches Some(v) ==> v <= max && parse_unsigned_spec(s@, max as int) == Some(v as int),
        r is None <==> parse_unsigned_spec(s@, max as int) is None,
{
    let chars = chars_of(s);
    parse_unsigned_chars(&chars, max)
}

/// Parses the characters of an unsigned decimal integer of at most `max`.
pub fn parse_unsigned_chars(chars: &Vec<char>, max: u64) -> (r: Option<u64>)
    ensures
        r matches Some(v) ==> v <= max && parse_unsigned_spec(chars@, max as int) == Some(v as int),
        r is None <==> parse_unsigned_spec(chars@, max as int) is None,
{
    let mut i: usize = 0;
    if chars.len() > 0 && chars[0] == '+' {
        i = 1;
    }
    let ghost d = unsigned_digits(chars@);
    assert(d =~= chars@.subrange(i as int, chars@.len() as int));
    if i >= chars.len() {
        return None;
    }
    let start = i;
    let mut value: u64 = 0;
    while i < chars.len()
        invariant
            start <= i <= chars@.len(),
            start < chars@.len(),
            d == chars@.subrange(start as int, chars@.len() as int),
            d == unsigned_digits(chars@),
            forall|j: int| start <= j < i ==> is_ascii_digit(#[trigger] chars@[j]),
            value as int == digits_value(chars@.subrange(start as int, i as int)),
            value <= max,
        decreases chars@.len() - i,
    {
        let c = chars[i];
        if !('0' <= c && c <= '9') {
            assert(d[i - start] == c);
            return None;
        }
        let digit = (c as u32 - '0' as u32) as u64;
        assert(chars@.subrange(start as int, i + 1).drop_last() =~= chars@.subrange(start as int, i as int));
        if digit > max || value > (max - digit) / 10 {
            proof {
                assert(value * 10 + digit > max) by (nonlinear_arith)
                    requires
                        digit > max || value > (max - digit) / 10,
                        value >= 0,
                ;
                let full = d;
                if forall|j: int| 0 <= j < full.len() ==> is_ascii_digit(#[trigger] full[j]) {
                    lemma_digits_value_grows(full, i + 1 - start);
                    assert(full.subrange(0, i + 1 - start) =~= chars@.subrange(start as int, i + 1));
                }
            }
            return None;
        }
        assert(value * 10 + digit <= max) by (nonlinear_arith)
            requires
                value <= (max - digit) / 10,
                digit <= max,
        ;
        value = value * 10 + digit;
        i = i + 1;
    }
    assert(chars@.subrange(start as int, i as int) =~= d);
    Some(value)
}

/// `s` with every occurrence of `pat` replaced by `to`, matches taken left to
/// right without overlap (what `str::replace` returns for a nonempty pattern).
pub open spec fn replace_spec(s: Seq<char>, pat: Seq<char>, to: Seq<char>) -> Seq<char>
    decreases s.len(),
{
    if s.len() == 0 {
        seq![]
    } else if 0 < pat.len() <= s.len() && s.subrange(0, pat.len() as int) == pat {
        to + replace_spec(s.subrange(pat.len() as int, s.len() as int), pat, to)
    } else {
        seq![s[0]] + replace_spec(s.subrange(1, s.len() as int), pat, to)
    }
}

/// Whether `pat` occurs in `s` at `i`.
pub fn matches_at(s: &Vec<char>, i: usize, pat: &Vec<char>) -> (r: bool)
    requires
        i <= s@.len(),
    ensures
        r == (pat@.len() <= s@.len() - i && s@.subrange(i as int, i + pat@.len()) == pat@),
{
    let n = s.len();
    if pat.len() > n - i {
        return false;
    }
    let mut k: usize = 0;
    while k < pat.len()
        invariant
            k <= pat@.len() <= s@.len() - i,
            i <= s@.len(),
            n == s@.len(),
            forall|j: int| 0 <= j < k ==> s@[i + j] == pat@[j],
        decreases pat@.len() - k,
    {
        if s[i + k] != pat[k] {
            assert(s@.subrange(i as int, i + pat@.len())[k as int] != pat@[k as int]);
            return false;
        }
        k = k + 1;
    }
    assert(s@.subrange(i as int, i + pat@.len()) =~= pat@);
    true
}

/// Whether `pat` occurs somewhere in `s` (what `str::contains` tests).
pub open spec fn contains_spec(s: Seq<char>, pat: Seq<char>) -> bool {
    exists|i: int| 0 <= i && i + pat.len() <= s.len() && #[trigger] s.subrange(i, i + pat.len()) == pat
}

/// Whether `pat` occurs somewhere in `s`.
pub fn contains_chars(s: &Vec<char>, pat: &Vec<char>) -> (r: bool)
    ensures
        r == contains_spec(s@, pat@),
{
    let n = s.len();
    if pat.len() > n {
        return false;
    }
    let last = n - pat.len();
    let mut i: usize = 0;
    loop
        invariant
            i <= last,
            last == s@.len() - pat@.len(),
            n == s@.len(),
            forall|j: int| 0 <= j < i ==> #[trigger] s@.subrange(j, j + pat@.len()) != pat@,
        decreases last - i,
    {
        if matches_at(s, i, pat) {
            return true;
        }
        if i == last {
            return false;
        }
        i = i + 1;
    }
}

/// Replaces every occurrence of a nonempty pattern, left to right.
pub fn replace_chars(s: &Vec<char>, pat: &Vec<char>, to: &Vec<char>) -> (r: Vec<char>)
    requires
        pat@.len() > 0,
    ensures
        r@ == replace_spec(s@, pat@, to@),
{
    let n = s.len();
    let mut out: Vec<char> = Vec::new();
    let mut i: usize = 0;
    assert(s@.subrange(0, n as int) =~= s@);
    while i < n
        invariant
            i <= n == s@.len(),
            pat@.len() > 0,
            out@ + replace_spec(s@.subrange(i as int, n as int), pat@, to@) == replace_spec(s@, pat@, to@),
        decreases n - i,
    {
        let ghost rest = s@.subrange(i as int, n as int);
        if matches_at(s, i, pat) {
            assert(rest.subrange(0, pat@.len() as int) =~= s@.subrange(i as int, i + pat@.len()));
            assert(rest.subrange(pat@.len() as int, rest.len() as int) =~= s@.subrange(i + pat@.len(), n as int));
            let ghost before = out@;
            let mut k: usize = 0;
            while k < to.len()
                invariant
                    k <= to@.len(),
                    out@ == before + to@.subrange(0, k as int),
                decreases to@.len() - k,
            {
                out.push(to[k]);
                k = k + 1;
                assert(out@ =~= before + to@.subrange(0, k as int));
            }
            assert(to@.subrange(0, to@.len() as int) =~= to@);
            assert(out@ + replace_spec(s@.subrange(i + pat@.len(), n as int), pat@, to@)
                =~= before + (to@ + replace_spec(s@.subrange(i + pat@.len(), n as int), pat@, to@)));
            i = i + pat.len();
        } else {
            assert(!(rest.subrange(0, pat@.len() as int) == pat@ && pat@.len() <= rest.len())) by {
                if pat@.len() <= rest.len() {
                    assert(rest.subrange(0, pat@.len() as int) =~= s@.subrange(i as int, i + pat@.len()));
                }
            }
            assert(rest.subrange(1, rest.len() as int) =~= s@.subrange(i + 1, n as int));
            let ghost before = out@;
            out.push(s[i]);
            assert(out@ + replace_spec(s@.subrange(i + 1, n as int), pat@, to@)
                =~= before + (seq![rest[0]] + replace_spec(rest.subrange(1, rest.len() as int), pat@, to@)));
            i = i + 1;
        }
    }
    assert(out@ + replace_spec(s@.subrange(n as int, n as int), pat@, to@) =~= out@);
    out
}

} // verus!
