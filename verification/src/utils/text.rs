//! Character-level text helpers shared by the rest of the crate.
//!
//! Strings are reasoned about through their views, sequences of characters.
//! The executable helpers work on vectors of characters, with conversions
//! from and to `String` at the edges.

use vstd::prelude::*;
use vstd::std_specs::iter::IteratorSpec;

verus! {

/// The views of a list of strings.
pub open spec fn views(v: Seq<String>) -> Seq<Seq<char>> {
    v.map_values(|s: String| s@)
}

/// The views of a list of character vectors.
pub open spec fn char_views(v: Seq<Vec<char>>) -> Seq<Seq<char>> {
    v.map_values(|s: Vec<char>| s@)
}

/// Whether `c` has the Unicode `White_Space` property.
pub open spec fn is_whitespace(c: char) -> bool {
    let n = c as u32;
    ||| 0x09 <= n <= 0x0D
    ||| n == 0x20
    ||| n == 0x85
    ||| n == 0xA0
    ||| n == 0x1680
    ||| 0x2000 <= n <= 0x200A
    ||| n == 0x2028
    ||| n == 0x2029
    ||| n == 0x202F
    ||| n == 0x205F
    ||| n == 0x3000
}

/// `s` without its leading whitespace.
pub open spec fn trim_start(s: Seq<char>) -> Seq<char>
    decreases s.len(),
{
    if s.len() > 0 && is_whitespace(s[0]) {
        trim_start(s.drop_first())
    } else {
        s
    }
}

/// `s` without its trailing whitespace.
pub open spec fn trim_end(s: Seq<char>) -> Seq<char>
    decreases s.len(),
{
    if s.len() > 0 && is_whitespace(s.last()) {
        trim_end(s.drop_last())
    } else {
        s
    }
}

/// `s` without leading and trailing whitespace.
pub open spec fn trimmed(s: Seq<char>) -> Seq<char> {
    trim_end(trim_start(s))
}

/// Whether every character of `s` is whitespace.
pub open spec fn is_blank(s: Seq<char>) -> bool {
    forall|i: int| 0 <= i < s.len() ==> is_whitespace(#[trigger] s[i])
}

/// Whether `pat` stands in `s` at position `i`.
pub open spec fn occurs_at(s: Seq<char>, pat: Seq<char>, i: int) -> bool {
    0 <= i && i + pat.len() <= s.len() && s.subrange(i, i + pat.len()) == pat
}

/// Whether `pat` is a contiguous part of `s`.
pub open spec fn contains(s: Seq<char>, pat: Seq<char>) -> bool {
    exists|i: int| occurs_at(s, pat, i)
}

/// Whether `s` begins with `prefix`.
pub open spec fn starts_with(s: Seq<char>, prefix: Seq<char>) -> bool {
    occurs_at(s, prefix, 0)
}

/// The pieces of `s` between occurrences of `sep`, in order. There is always
/// at least one piece; `n` separators give `n + 1` pieces.
pub open spec fn split_on(s: Seq<char>, sep: char) -> Seq<Seq<char>>
    decreases s.len(),
{
    if s.len() == 0 {
        seq![Seq::<char>::empty()]
    } else {
        let init = split_on(s.drop_last(), sep);
        if s.last() == sep {
            init.push(Seq::<char>::empty())
        } else {
            init.update(init.len() - 1, init.last().push(s.last()))
        }
    }
}

/// `parts` laid end to end with `sep` between neighbours.
pub open spec fn join(parts: Seq<Seq<char>>, sep: Seq<char>) -> Seq<char>
    decreases parts.len(),
{
    if parts.len() == 0 {
        Seq::<char>::empty()
    } else if parts.len() == 1 {
        parts[0]
    } else {
        join(parts.drop_last(), sep) + sep + parts.last()
    }
}

/// `parts` laid end to end.
pub open spec fn concat_all(parts: Seq<Seq<char>>) -> Seq<char>
    decreases parts.len(),
{
    if parts.len() == 0 {
        Seq::<char>::empty()
    } else {
        concat_all(parts.drop_last()) + parts.last()
    }
}

/// `s` without one trailing carriage return.
pub open spec fn strip_cr(s: Seq<char>) -> Seq<char> {
    if s.len() > 0 && s.last() == '\r' {
        s.drop_last()
    } else {
        s
    }
}

/// The lines of `s`. A line ends at a line feed; the line feed, and a
/// carriage return right before it, are not part of the line. Text after the
/// last line feed is a line of its own, unless there is none.
pub open spec fn lines_of(s: Seq<char>) -> Seq<Seq<char>> {
    let pieces = split_on(s, '\n');
    let ended = Seq::new((pieces.len() - 1) as nat, |i: int| strip_cr(pieces[i]));
    if pieces.last().len() == 0 {
        ended
    } else {
        ended.push(pieces.last())
    }
}

/// Whether `c` is an ASCII decimal digit.
pub open spec fn is_digit(c: char) -> bool {
    0x30 <= c as u32 <= 0x39
}

/// The number that a run of decimal digits writes.
pub open spec fn digits_value(s: Seq<char>) -> int
    decreases s.len(),
{
    if s.len() == 0 {
        0
    } else {
        digits_value(s.drop_last()) * 10 + (s.last() as u32 - 0x30)
    }
}

/// Whether `s` is one or more decimal digits.
pub open spec fn all_digits(s: Seq<char>) -> bool {
    s.len() > 0 && forall|i: int| 0 <= i < s.len() ==> is_digit(#[trigger] s[i])
}

/// The unsigned 32-bit number that `s` writes in decimal, with an optional
/// leading plus sign, if it writes one.
pub open spec fn parse_u32_spec(s: Seq<char>) -> Option<u32> {
    let body = if s.len() > 0 && s[0] == '+' {
        s.drop_first()
    } else {
        s
    };
    if all_digits(body) && digits_value(body) <= u32::MAX {
        Some(digits_value(body) as u32)
    } else {
        None
    }
}

/// A sequence with one more item at its end holds what it held before, and
/// that item.
pub proof fn lemma_push_contains<A>(s: Seq<A>, a: A, x: A)
    ensures
        s.push(a).contains(x) <==> (s.contains(x) || x == a),
{
    if s.contains(x) {
        let j = choose|j: int| 0 <= j < s.len() && s[j] == x;
        assert(s.push(a)[j] == x);
    }
    if x == a {
        assert(s.push(a)[s.len() as int] == x);
    }
    if s.push(a).contains(x) {
        let j = choose|j: int| 0 <= j < s.push(a).len() && s.push(a)[j] == x;
        if j < s.len() {
            assert(s[j] == x);
        }
    }
}

/// A filter keeps a sequence whose items all pass it.
pub proof fn lemma_filter_keeps_all<A>(s: Seq<A>, pred: spec_fn(A) -> bool)
    requires
        forall|i: int| 0 <= i < s.len() ==> pred(#[trigger] s[i]),
    ensures
        s.filter(pred) == s,
    decreases s.len(),
{
    reveal(Seq::filter);
    if s.len() > 0 {
        lemma_filter_keeps_all(s.drop_last(), pred);
        assert(s.drop_last().push(s.last()) == s);
    }
}

/// A filter leaves nothing of a sequence whose items all fail it.
pub proof fn lemma_filter_drops_all<A>(s: Seq<A>, pred: spec_fn(A) -> bool)
    requires
        forall|i: int| 0 <= i < s.len() ==> !pred(#[trigger] s[i]),
    ensures
        s.filter(pred) == Seq::<A>::empty(),
    decreases s.len(),
{
    reveal(Seq::filter);
    if s.len() > 0 {
        lemma_filter_drops_all(s.drop_last(), pred);
    }
}

/// `n` in decimal, without leading zeros.
pub open spec fn decimal(n: nat) -> Seq<char>
    decreases n,
{
    if n < 10 {
        seq![decimal_digit(n as int)]
    } else {
        decimal(n / 10).push(decimal_digit((n % 10) as int))
    }
}

/// The decimal digit for `d`.
pub open spec fn decimal_digit(d: int) -> char {
    if d == 0 {
        '0'
    } else if d == 1 {
        '1'
    } else if d == 2 {
        '2'
    } else if d == 3 {
        '3'
    } else if d == 4 {
        '4'
    } else if d == 5 {
        '5'
    } else if d == 6 {
        '6'
    } else if d == 7 {
        '7'
    } else if d == 8 {
        '8'
    } else {
        '9'
    }
}

fn decimal_digit_char(d: u64) -> (c: char)
    requires
        d < 10,
    ensures
        c == decimal_digit(d as int),
{
    if d == 0 {
        '0'
    } else if d == 1 {
        '1'
    } else if d == 2 {
        '2'
    } else if d == 3 {
        '3'
    } else if d == 4 {
        '4'
    } else if d == 5 {
        '5'
    } else if d == 6 {
        '6'
    } else if d == 7 {
        '7'
    } else if d == 8 {
        '8'
    } else {
        '9'
    }
}

/// Appends `n` in decimal to `out`.
pub fn push_decimal(n: u64, out: &mut Vec<char>)
    ensures
        final(out)@ == old(out)@ + decimal(n as nat),
    decreases n,
{
    if n >= 10 {
        push_decimal(n / 10, out);
    }
    out.push(decimal_digit_char(n % 10));
}

/// What `str::to_lowercase` makes of a string: its Unicode lowercase form.
pub uninterp spec fn lowercase_of(s: Seq<char>) -> Seq<char>;

/// Calls `str::to_lowercase`. The result is the lowercase form of `s` as the
/// Unicode tables of the standard library define it.
#[verifier::external_body]
pub(crate) fn to_lowercase(s: &str) -> (r: String)
    ensures
        r@ == lowercase_of(s@),
{
    s.to_lowercase()
}

/// Calls `String::push`, which appends one character.
#[verifier::external_body]
pub(crate) fn push_char(s: &mut String, c: char)
    ensures
        final(s)@ == old(s)@.push(c),
{
    s.push(c)
}

/// The characters of `s`, in order.
pub fn chars_of(s: &str) -> (v: Vec<char>)
    ensures
        v@ == s@,
{
    let mut v: Vec<char> = Vec::new();
    let it0 = s.chars();
    for c in it: it0
        invariant
            it.seq() == s@,
            v@ == it.seq().take(it.index() as int),
    {
        v.push(c);
    }
    v
}

/// The string made of the characters of `v`, in order.
pub fn string_of(v: &[char]) -> (s: String)
    ensures
        s@ == v@,
{
    let mut s = String::new();
    let mut i: usize = 0;
    while i < v.len()
        invariant
            i <= v.len(),
            s@ == v@.take(i as int),
        decreases v.len() - i,
    {
        push_char(&mut s, v[i]);
        i += 1;
        proof {
            assert(v@.take(i as int) == v@.take(i as int - 1).push(v@[i as int - 1]));
        }
    }
    proof {
        assert(v@.take(v.len() as int) == v@);
    }
    s
}

/// Whether `c` is whitespace.
pub fn char_is_whitespace(c: char) -> (b: bool)
    ensures
        b == is_whitespace(c),
{
    let n: u32 = c as u32;
    (0x09 <= n && n <= 0x0D) || n == 0x20 || n == 0x85 || n == 0xA0 || n == 0x1680 || (0x2000 <= n
        && n <= 0x200A) || n == 0x2028 || n == 0x2029 || n == 0x202F || n == 0x205F || n == 0x3000
}

/// The part of `v` from `from` up to `to`.
pub fn copy_range(v: &[char], from: usize, to: usize) -> (r: Vec<char>)
    requires
        from <= to <= v.len(),
    ensures
        r@ == v@.subrange(from as int, to as int),
{
    let mut r: Vec<char> = Vec::new();
    let mut i: usize = from;
    while i < to
        invariant
            from <= i <= to <= v.len(),
            r@ == v@.subrange(from as int, i as int),
        decreases to - i,
    {
        r.push(v[i]);
        i += 1;
    }
    r
}

/// Whether two runs of characters are the same.
pub fn chars_eq(a: &[char], b: &[char]) -> (r: bool)
    ensures
        r == (a@ == b@),
{
    if a.len() != b.len() {
        return false;
    }
    let mut i: usize = 0;
    while i < a.len()
        invariant
            i <= a.len(),
            a.len() == b.len(),
            a@.take(i as int) == b@.take(i as int),
        decreases a.len() - i,
    {
        if a[i] != b[i] {
            return false;
        }
        i += 1;
        proof {
            assert(a@.take(i as int) == a@.take(i as int - 1).push(a@[i as int - 1]));
            assert(b@.take(i as int) == b@.take(i as int - 1).push(b@[i as int - 1]));
        }
    }
    proof {
        assert(a@.take(a.len() as int) == a@);
        assert(b@.take(b.len() as int) == b@);
    }
    true
}

/// Whether two strings hold the same characters.
pub fn str_eq(a: &str, b: &str) -> (r: bool)
    ensures
        r == (a@ == b@),
{
    let x = chars_of(a);
    let y = chars_of(b);
    chars_eq(x.as_slice(), y.as_slice())
}

/// `v` without leading and trailing whitespace.
pub fn trim(v: &[char]) -> (r: Vec<char>)
    ensures
        r@ == trimmed(v@),
{
    let mut i: usize = 0;
    proof {
        assert(v@.skip(0) == v@);
    }
    while i < v.len() && char_is_whitespace(v[i])
        invariant
            i <= v.len(),
            trim_start(v@) == trim_start(v@.skip(i as int)),
        decreases v.len() - i,
    {
        proof {
            assert(v@.skip(i as int).drop_first() == v@.skip(i as int + 1));
        }
        i += 1;
    }
    let mut j: usize = v.len();
    proof {
        assert(v@.subrange(i as int, j as int) == v@.skip(i as int));
    }
    while j > i && char_is_whitespace(v[j - 1])
        invariant
            i <= j <= v.len(),
            trim_end(v@.skip(i as int)) == trim_end(v@.subrange(i as int, j as int)),
        decreases j - i,
    {
        proof {
            assert(v@.subrange(i as int, j as int).drop_last() == v@.subrange(
                i as int,
                j as int - 1,
            ));
        }
        j -= 1;
    }
    copy_range(v, i, j)
}

/// Whether `v` holds nothing but whitespace.
pub fn blank(v: &[char]) -> (r: bool)
    ensures
        r == is_blank(v@),
{
    let mut i: usize = 0;
    while i < v.len()
        invariant
            i <= v.len(),
            forall|k: int| 0 <= k < i ==> is_whitespace(#[trigger] v@[k]),
        decreases v.len() - i,
    {
        if !char_is_whitespace(v[i]) {
            return false;
        }
        i += 1;
    }
    true
}

/// Whether `pat` stands in `s` at position `i`.
pub fn matches_at(s: &[char], pat: &[char], i: usize) -> (r: bool)
    ensures
        r == occurs_at(s@, pat@, i as int),
{
    if pat.len() > s.len() || i > s.len() - pat.len() {
        return false;
    }
    let mut k: usize = 0;
    while k < pat.len()
        invariant
            k <= pat.len(),
            i + pat.len() <= s.len(),
            s@.subrange(i as int, i + k) == pat@.take(k as int),
        decreases pat.len() - k,
    {
        if s[i + k] != pat[k] {
            proof {
                assert(s@.subrange(i as int, i + pat.len())[k as int] != pat@[k as int]);
            }
            return false;
        }
        k += 1;
        proof {
            assert(s@.subrange(i as int, i + k) == s@.subrange(i as int, i + k - 1).push(
                s@[i + k - 1],
            ));
            assert(pat@.take(k as int) == pat@.take(k as int - 1).push(pat@[k as int - 1]));
        }
    }
    proof {
        assert(pat@.take(pat.len() as int) == pat@);
    }
    true
}

/// The first position at which `pat` stands in `s`, if there is one.
pub fn find(s: &[char], pat: &[char]) -> (r: Option<usize>)
    ensures
        match r {
            Some(i) => occurs_at(s@, pat@, i as int) && forall|j: int|
                0 <= j < i ==> !occurs_at(s@, pat@, j),
            None => !contains(s@, pat@),
        },
{
    if pat.len() > s.len() {
        return None;
    }
    let last: usize = s.len() - pat.len();
    let mut i: usize = 0;
    loop
        invariant
            i <= last,
            last == s.len() - pat.len(),
            forall|j: int| 0 <= j < i ==> !occurs_at(s@, pat@, j),
        decreases last - i,
    {
        if matches_at(s, pat, i) {
            return Some(i);
        }
        if i == last {
            return None;
        }
        i += 1;
    }
}

/// The last position at which `pat` stands in `s`, if there is one.
pub fn rfind(s: &[char], pat: &[char]) -> (r: Option<usize>)
    ensures
        match r {
            Some(i) => occurs_at(s@, pat@, i as int) && forall|j: int|
                i < j ==> !occurs_at(s@, pat@, j),
            None => !contains(s@, pat@),
        },
{
    if pat.len() > s.len() {
        return None;
    }
    let last: usize = s.len() - pat.len();
    let mut i: usize = last;
    loop
        invariant
            i <= last,
            last == s.len() - pat.len(),
            forall|j: int| i < j ==> !occurs_at(s@, pat@, j),
        decreases i,
    {
        if matches_at(s, pat, i) {
            return Some(i);
        }
        if i == 0 {
            return None;
        }
        i -= 1;
    }
}

/// Whether `pat` is a contiguous part of `s`.
pub fn has_substring(s: &[char], pat: &[char]) -> (r: bool)
    ensures
        r == contains(s@, pat@),
{
    find(s, pat).is_some()
}

/// Whether the string `s` contains the string `pat`.
pub fn str_contains(s: &str, pat: &str) -> (r: bool)
    ensures
        r == contains(s@, pat@),
{
    let x = chars_of(s);
    let y = chars_of(pat);
    has_substring(x.as_slice(), y.as_slice())
}

/// Whether the string `s` begins with the string `prefix`.
pub fn str_starts_with(s: &str, prefix: &str) -> (r: bool)
    ensures
        r == starts_with(s@, prefix@),
{
    let x = chars_of(s);
    let y = chars_of(prefix);
    matches_at(x.as_slice(), y.as_slice(), 0)
}

/// The pieces of `v` between occurrences of `sep`.
pub fn split(v: &[char], sep: char) -> (r: Vec<Vec<char>>)
    ensures
        char_views(r@) == split_on(v@, sep),
        r.len() >= 1,
{
    let mut done: Vec<Vec<char>> = Vec::new();
    let mut current: Vec<char> = Vec::new();
    let mut i: usize = 0;
    proof {
        assert(v@.take(0) == Seq::<char>::empty());
        assert(char_views(done@).push(current@) == seq![Seq::<char>::empty()]);
    }
    while i < v.len()
        invariant
            i <= v.len(),
            char_views(done@).push(current@) == split_on(v@.take(i as int), sep),
        decreases v.len() - i,
    {
        let ghost before = char_views(done@).push(current@);
        proof {
            assert(v@.take(i as int + 1).drop_last() == v@.take(i as int));
            assert(v@.take(i as int + 1).last() == v@[i as int]);
        }
        if v[i] == sep {
            done.push(current);
            current = Vec::new();
            proof {
                assert(char_views(done@) == before);
                assert(char_views(done@).push(current@) == before.push(Seq::<char>::empty()));
            }
        } else {
            current.push(v[i]);
            proof {
                assert(char_views(done@).push(current@) == before.update(
                    before.len() - 1,
                    before.last().push(v@[i as int]),
                ));
            }
        }
        i += 1;
    }
    proof {
        assert(v@.take(v.len() as int) == v@);
    }
    let ghost before = char_views(done@).push(current@);
    done.push(current);
    proof {
        assert(char_views(done@) == before);
    }
    done
}

/// The lines of `v`.
pub fn lines(v: &[char]) -> (r: Vec<Vec<char>>)
    ensures
        char_views(r@) == lines_of(v@),
{
    let mut pieces = split(v, '\n');
    let ghost all = char_views(pieces@);
    let n = pieces.len() - 1;
    let mut r: Vec<Vec<char>> = Vec::new();
    let mut i: usize = 0;
    while i < n
        invariant
            i <= n,
            n == pieces.len() - 1,
            all == char_views(pieces@),
            char_views(r@).len() == i,
            forall|j: int| 0 <= j < i ==> #[trigger] char_views(r@)[j] == strip_cr(all[j]),
        decreases n - i,
    {
        let piece = &pieces[i];
        let ghost before = char_views(r@);
        let line = if piece.len() > 0 && piece[piece.len() - 1] == '\r' {
            copy_range(piece.as_slice(), 0, piece.len() - 1)
        } else {
            copy_range(piece.as_slice(), 0, piece.len())
        };
        proof {
            assert(all[i as int] == piece@);
            assert(piece@.subrange(0, piece@.len() as int) == piece@);
            assert(piece@.len() > 0 ==> piece@.subrange(0, piece@.len() - 1) == piece@.drop_last());
        }
        r.push(line);
        proof {
            assert(char_views(r@) == before.push(strip_cr(all[i as int])));
        }
        i += 1;
    }
    let ghost ended = char_views(r@);
    proof {
        assert(ended == Seq::new(n as nat, |i: int| strip_cr(all[i])));
    }
    match pieces.pop() {
        Some(last) => {
            proof {
                assert(last@ == all.last());
            }
            if last.len() > 0 {
                r.push(last);
                proof {
                    assert(char_views(r@) == ended.push(all.last()));
                }
            }
        },
        None => {},
    }
    r
}

/// `parts` laid end to end with `sep` between neighbours.
pub fn join_chars(parts: &Vec<Vec<char>>, sep: &[char]) -> (r: Vec<char>)
    ensures
        r@ == join(char_views(parts@), sep@),
{
    let mut r: Vec<char> = Vec::new();
    let mut i: usize = 0;
    while i < parts.len()
        invariant
            i <= parts.len(),
            r@ == join(char_views(parts@).take(i as int), sep@),
        decreases parts.len() - i,
    {
        let ghost prev = r@;
        if i > 0 {
            append_chars(&mut r, sep);
        }
        append_chars(&mut r, parts[i].as_slice());
        proof {
            let next = char_views(parts@).take(i as int + 1);
            assert(next.drop_last() == char_views(parts@).take(i as int));
            assert(next.last() == parts@[i as int]@);
            if i == 0 {
                assert(prev == Seq::<char>::empty());
                assert(r@ == parts@[0]@);
            }
        }
        i += 1;
    }
    proof {
        assert(char_views(parts@).take(parts.len() as int) == char_views(parts@));
    }
    r
}

/// `s` with `with` in place of the occurrences of `pat`, found from left to
/// right. An empty `pat` replaces nothing.
pub open spec fn replaced(s: Seq<char>, pat: Seq<char>, with: Seq<char>) -> Seq<char>
    decreases s.len(),
{
    if pat.len() == 0 || s.len() == 0 {
        s
    } else if occurs_at(s, pat, 0) {
        with + replaced(s.skip(pat.len() as int), pat, with)
    } else {
        seq![s[0]] + replaced(s.skip(1), pat, with)
    }
}

/// Puts `with` in place of every occurrence of `pat` in `s`.
pub fn replace_all(s: &[char], pat: &[char], with: &[char]) -> (r: Vec<char>)
    ensures
        r@ == replaced(s@, pat@, with@),
{
    let mut r: Vec<char> = Vec::new();
    if pat.len() == 0 {
        append_chars(&mut r, s);
        return r;
    }
    let mut i: usize = 0;
    proof {
        assert(s@.skip(0) == s@);
    }
    while i < s.len()
        invariant
            i <= s.len(),
            pat.len() > 0,
            r@ + replaced(s@.skip(i as int), pat@, with@) == replaced(s@, pat@, with@),
        decreases s.len() - i,
    {
        let ghost rest = s@.skip(i as int);
        let ghost before = r@;
        if matches_at(s, pat, i) {
            proof {
                assert(s@.subrange(i as int, i + pat.len()) == rest.subrange(0, pat.len() as int));
                assert(occurs_at(rest, pat@, 0));
                assert(rest.skip(pat.len() as int) == s@.skip(i + pat.len()));
            }
            append_chars(&mut r, with);
            proof {
                assert((before + with@) + replaced(rest.skip(pat.len() as int), pat@, with@)
                    == before + (with@ + replaced(rest.skip(pat.len() as int), pat@, with@)));
            }
            i += pat.len();
        } else {
            proof {
                if i + pat.len() <= s.len() {
                    assert(s@.subrange(i as int, i + pat.len()) == rest.subrange(
                        0,
                        pat.len() as int,
                    ));
                }
                assert(!occurs_at(rest, pat@, 0));
                assert(rest.skip(1) == s@.skip(i as int + 1));
                assert(before.push(s@[i as int]) + replaced(rest.skip(1), pat@, with@) == before
                    + (seq![rest[0]] + replaced(rest.skip(1), pat@, with@)));
            }
            r.push(s[i]);
            i += 1;
        }
    }
    proof {
        assert(r@ + Seq::<char>::empty() == r@);
    }
    r
}

/// Appends the characters of `more` to `v`.
pub fn append_chars(v: &mut Vec<char>, more: &[char])
    ensures
        final(v)@ == old(v)@ + more@,
{
    let mut i: usize = 0;
    while i < more.len()
        invariant
            i <= more.len(),
            v@ == old(v)@ + more@.take(i as int),
        decreases more.len() - i,
    {
        v.push(more[i]);
        i += 1;
        proof {
            assert(more@.take(i as int) == more@.take(i as int - 1).push(more@[i as int - 1]));
        }
    }
    proof {
        assert(more@.take(more.len() as int) == more@);
    }
}

/// Appends the characters of the string `more` to `v`.
pub fn append_str(v: &mut Vec<char>, more: &str)
    ensures
        final(v)@ == old(v)@ + more@,
{
    let m = chars_of(more);
    append_chars(v, m.as_slice());
}

/// A run of digits never writes a smaller number than one of its prefixes.
pub proof fn lemma_digits_value_prefix(s: Seq<char>, k: int)
    requires
        0 <= k <= s.len(),
        forall|i: int| 0 <= i < s.len() ==> is_digit(#[trigger] s[i]),
    ensures
        0 <= digits_value(s.take(k)) <= digits_value(s),
    decreases s.len() - k,
{
    if k == s.len() {
        assert(s.take(k) == s);
        lemma_digits_value_nonnegative(s);
    } else {
        lemma_digits_value_prefix(s, k + 1);
        assert(s.take(k + 1).drop_last() == s.take(k));
        lemma_digits_value_nonnegative(s.take(k));
    }
}

/// A run of digits writes a number that is not negative.
pub proof fn lemma_digits_value_nonnegative(s: Seq<char>)
    requires
        forall|i: int| 0 <= i < s.len() ==> is_digit(#[trigger] s[i]),
    ensures
        0 <= digits_value(s),
    decreases s.len(),
{
    if s.len() > 0 {
        lemma_digits_value_nonnegative(s.drop_last());
    }
}

/// Reads an unsigned 32-bit number written in decimal, with an optional
/// leading plus sign.
pub fn parse_u32(v: &[char]) -> (r: Option<u32>)
    ensures
        r == parse_u32_spec(v@),
{
    let start: usize = if v.len() > 0 && v[0] == '+' {
        1
    } else {
        0
    };
    let ghost body = v@.skip(start as int);
    proof {
        if start == 1 {
            assert(v@.drop_first() == body);
        } else {
            assert(v@ == body);
        }
    }
    if start == v.len() {
        return None;
    }
    let mut acc: u64 = 0;
    let mut i: usize = start;
    while i < v.len()
        invariant
            start <= i <= v.len(),
            start == (if v@.len() > 0 && v@[0] == '+' {
                1int
            } else {
                0int
            }),
            body == v@.skip(start as int),
            body == (if start == 1 {
                v@.drop_first()
            } else {
                v@
            }),
            forall|k: int| 0 <= k < i - start ==> is_digit(#[trigger] body[k]),
            acc == digits_value(body.take(i - start)),
            acc <= u32::MAX,
        decreases v.len() - i,
    {
        let c = v[i];
        let n: u32 = c as u32;
        proof {
            assert(body[i - start] == c);
        }
        if n < 0x30 || n > 0x39 {
            proof {
                assert(!is_digit(body[i - start]));
                assert(!all_digits(body));
            }
            return None;
        }
        let next: u64 = acc * 10 + (n - 0x30) as u64;
        proof {
            assert(body.take(i - start + 1).drop_last() == body.take(i - start));
            assert(body.take(i - start + 1).last() == c);
            assert(digits_value(body.take(i - start + 1)) == next);
        }
        if next > u32::MAX as u64 {
            proof {
                if all_digits(body) {
                    lemma_digits_value_prefix(body, i - start + 1);
                }
            }
            return None;
        }
        acc = next;
        i += 1;
    }
    proof {
        assert(body.take(body.len() as int) == body);
    }
    Some(acc as u32)
}

} // verus!
